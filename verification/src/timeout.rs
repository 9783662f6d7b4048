//! Time-to-first-token and total request budgets, both anchored at the
//! request's arrival at the gateway. Time spent before the event loop counts.

use crate::config::ServerConfig;
use crate::error;
use crate::error::ApiError;
use crate::text;
use vstd::prelude::*;
use vstd::string::*;

verus! {

/// Configured budgets in seconds; absent = unbounded.
#[derive(Debug, Clone, Copy, PartialEq, Eq, Structural)]
pub struct Timeouts {
    pub ttft: Option<u64>,
    pub total: Option<u64>,
}

impl Timeouts {
    pub fn from_config(server: &ServerConfig) -> (r: Self)
        ensures
            r.ttft == server.ttft_timeout_secs,
            r.total == server.total_timeout_secs,
    {
        Timeouts { ttft: server.ttft_timeout_secs, total: server.total_timeout_secs }
    }
}

/// Which budget expired; labels `kiln_timeout_total{scope}`.
#[derive(Debug, Clone, Copy, PartialEq, Eq, Structural)]
pub enum TimeoutScope {
    Ttft,
    Total,
}

impl TimeoutScope {
    pub open spec fn spec_label(self) -> Seq<char> {
        match self {
            TimeoutScope::Ttft => "ttft"@,
            TimeoutScope::Total => "total"@,
        }
    }

    pub fn label(self) -> (r: &'static str)
        ensures
            r@ == self.spec_label(),
    {
        match self {
            TimeoutScope::Ttft => "ttft",
            TimeoutScope::Total => "total",
        }
    }
}

/// One request's live deadlines, in nanoseconds on the gateway's clock. The
/// first-token deadline retires when the first tokens arrive; the total
/// deadline lasts the whole request.
#[derive(Debug, Clone, Copy, PartialEq, Eq, Structural)]
pub struct Deadlines {
    pub ttft: Option<u128>,
    pub total: Option<u128>,
}

/// A deadline `secs` seconds after `arrival_ns`.
pub open spec fn after(arrival_ns: u64, secs: u64) -> u128 {
    (arrival_ns + secs * 1_000_000_000) as u128
}

/// Where a budget ends.
pub open spec fn deadline(arrival_ns: u64, budget: Option<u64>) -> Option<u128> {
    match budget {
        Some(secs) => Some(after(arrival_ns, secs)),
        None => None,
    }
}

fn deadline_of(arrival_ns: u64, budget: Option<u64>) -> (r: Option<u128>)
    ensures
        r == deadline(arrival_ns, budget),
{
    match budget {
        Some(secs) => Some(arrival_ns as u128 + secs as u128 * 1_000_000_000),
        None => None,
    }
}

impl Deadlines {
    /// Budgets anchored at `arrival_ns`, the moment the handler was entered.
    pub fn start(timeouts: &Timeouts, arrival_ns: u64) -> (r: Self)
        ensures
            r.ttft == deadline(arrival_ns, timeouts.ttft),
            r.total == deadline(arrival_ns, timeouts.total),
    {
        Deadlines {
            ttft: deadline_of(arrival_ns, timeouts.ttft),
            total: deadline_of(arrival_ns, timeouts.total),
        }
    }

    pub open spec fn spec_next(self) -> Option<(u128, TimeoutScope)> {
        match (self.ttft, self.total) {
            (Some(ttft), _) => Some((ttft, TimeoutScope::Ttft)),
            (None, Some(total)) => Some((total, TimeoutScope::Total)),
            (None, None) => None,
        }
    }

    /// The earliest live deadline. A valid configuration has the first-token
    /// budget within the total one, so while both are armed it fires first.
    pub fn next(&self) -> (r: Option<(u128, TimeoutScope)>)
        ensures
            r == self.spec_next(),
    {
        match (self.ttft, self.total) {
            (Some(ttft), _) => Some((ttft, TimeoutScope::Ttft)),
            (None, Some(total)) => Some((total, TimeoutScope::Total)),
            (None, None) => None,
        }
    }

    /// The first tokens arrived.
    pub fn first_token(&mut self)
        ensures
            *final(self) == (Deadlines { ttft: None, ..*old(self) }),
    {
        self.ttft = None;
    }

    /// The total deadline, which also bounds tool execution between
    /// generation rounds.
    pub fn total(&self) -> (r: Option<u128>)
        ensures
            r == self.total,
    {
        self.total
    }
}

/// With a valid configuration, the deadline that [`Deadlines::next`] names is
/// the earliest of the live ones, before and after the first token.
pub proof fn law_next_deadline_is_the_earliest(timeouts: Timeouts, arrival_ns: u64, d: Deadlines)
    requires
        timeouts.ttft is Some && timeouts.total is Some ==> timeouts.ttft->0 <= timeouts.total->0,
        d.ttft == deadline(arrival_ns, timeouts.ttft) || d.ttft is None,
        d.total == deadline(arrival_ns, timeouts.total),
    ensures
        d.spec_next() is None <==> d.ttft is None && d.total is None,
        d.spec_next() is Some && d.ttft is Some ==> (d.spec_next()->0).0 <= d.ttft->0,
        d.spec_next() is Some && d.total is Some ==> (d.spec_next()->0).0 <= d.total->0,
{
}

/// What the worker's stream brought next.
#[derive(Debug, Clone, Copy, PartialEq, Eq, Structural)]
pub enum EventKind {
    /// Generated tokens: the only event that meets the first-token budget.
    Tokens,
    Finished,
    /// Progress a client cannot see.
    Other,
}

/// The deadlines that are left after an event.
pub open spec fn noted(d: Deadlines, kind: EventKind) -> Deadlines {
    if kind == EventKind::Tokens {
        Deadlines { ttft: None, ..d }
    } else {
        d
    }
}

/// Notes one event under the request's deadlines.
pub fn note_event(deadlines: &mut Deadlines, kind: EventKind)
    ensures
        *final(deadlines) == noted(*old(deadlines), kind),
{
    if kind == EventKind::Tokens {
        deadlines.first_token();
    }
}

/// The client-visible error of an expired budget.
pub open spec fn timeout_error(scope: TimeoutScope, secs: u64) -> error::ApiErrorView {
    match scope {
        TimeoutScope::Ttft => error::timeout(
            "ttft_timeout"@,
            "no token was generated within "@ + text::decimal(secs as nat)
                + " seconds of the request's arrival (server.ttft_timeout_secs)"@,
        ),
        TimeoutScope::Total => error::timeout(
            "total_timeout"@,
            "the request did not complete within "@ + text::decimal(secs as nat)
                + " seconds of its arrival (server.total_timeout_secs)"@,
        ),
    }
}

/// The client-visible error of an expired budget of `secs` seconds.
pub fn expired(scope: TimeoutScope, secs: u64) -> (r: ApiError)
    ensures
        r@ == timeout_error(scope, secs),
{
    match scope {
        TimeoutScope::Ttft => {
            let mut m: String = "no token was generated within ".to_owned();
            text::push_decimal(&mut m, secs);
            m.append(" seconds of the request's arrival (server.ttft_timeout_secs)");
            ApiError::timeout("ttft_timeout", m)
        },
        TimeoutScope::Total => {
            let mut m: String = "the request did not complete within ".to_owned();
            text::push_decimal(&mut m, secs);
            m.append(" seconds of its arrival (server.total_timeout_secs)");
            ApiError::timeout("total_timeout", m)
        },
    }
}

/// A budget counts whole seconds from the request's arrival; without a budget there is
/// no deadline.
pub proof fn law_budgets_count_from_arrival(arrival_ns: u64, seconds: u64)
    ensures
        deadline(arrival_ns, Some(seconds)) is Some,
        deadline(arrival_ns, Some(seconds))->0 == arrival_ns + seconds * 1_000_000_000,
        deadline(arrival_ns, None) is None,
{
}

/// Tokens meet the first budget and no other, and nothing but tokens meets it.
pub proof fn law_only_tokens_meet_the_first_budget(d: Deadlines, kind: EventKind)
    ensures
        noted(d, EventKind::Tokens).ttft is None,
        noted(d, kind).total == d.total,
        kind is Other || kind is Finished ==> noted(d, kind) == d,
{
}

/// The deadline that fires is one of those that are live, under its own name.
pub proof fn law_a_live_deadline_fires(d: Deadlines)
    ensures
        match d.spec_next() {
            Some((at, TimeoutScope::Ttft)) => d.ttft == Some(at),
            Some((at, TimeoutScope::Total)) => d.total == Some(at) && d.ttft is None,
            None => d.ttft is None && d.total is None,
        },
{
}

/// An expired budget is answered with its own code and the seconds it was.
pub proof fn law_expired_budgets_name_themselves(seconds: u64)
    ensures
        timeout_error(TimeoutScope::Ttft, seconds).status == 504,
        timeout_error(TimeoutScope::Ttft, seconds).code == "ttft_timeout"@,
        timeout_error(TimeoutScope::Total, seconds).status == 504,
        timeout_error(TimeoutScope::Total, seconds).code == "total_timeout"@,
        timeout_error(TimeoutScope::Ttft, seconds).message == "no token was generated within "@
            + text::decimal(seconds as nat)
            + " seconds of the request's arrival (server.ttft_timeout_secs)"@,
        timeout_error(TimeoutScope::Total, seconds).message
            == "the request did not complete within "@ + text::decimal(seconds as nat)
            + " seconds of its arrival (server.total_timeout_secs)"@,
        TimeoutScope::Ttft.spec_label() == "ttft"@,
        TimeoutScope::Total.spec_label() == "total"@,
{
}

} // verus!
