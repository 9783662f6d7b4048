//! Per-key rate limits: token buckets for requests per minute and tokens per
//! minute.
//!
//! A request takes one token from its key's request bucket before it is
//! processed. The completion tokens of a request are unknown until generation
//! ends, so the worst case (`prompt_tokens + max_tokens`) is reserved before
//! submission and the unused remainder is refunded when the request settles.
//! A request that never settles forfeits its reservation until the bucket
//! refills. Buckets start full and refill continuously.
//!
//! Bucket contents are kept exactly, in units of one sixty-billionth of a
//! token: one minute has sixty billion nanoseconds, so a limit of `n` per
//! minute refills exactly `n` units per nanosecond.

use crate::config::ApiKeyConfig;
use crate::config::AuthConfig;
use crate::error;
use crate::error::ApiError;
use crate::text;
use vstd::prelude::*;
use vstd::string::*;

verus! {

/// Units per token.
pub const UNITS: u128 = 60_000_000_000;

/// Why a take was refused.
#[derive(Debug, Clone, Copy, PartialEq, Eq, Structural)]
pub struct Denied {
    /// Seconds until the bucket will have refilled enough for this take
    /// (at least 1). Meaningless when `exceeds_capacity`.
    pub retry_after_secs: u64,
    /// The amount is larger than the whole bucket: this take can never
    /// succeed at the configured limit.
    pub exceeds_capacity: bool,
}

/// Continuous-refill token bucket.
#[derive(Debug, Clone, Copy, PartialEq, Eq, Structural)]
pub struct Bucket {
    pub per_minute: u32,
    /// What is left, in units.
    pub units: u128,
    /// When that was so, in nanoseconds.
    pub updated_ns: u64,
}

/// Seconds until `deficit` units have refilled at `per_minute`, rounded up;
/// the largest representable number where that is more, or never.
pub open spec fn refill_secs(deficit: int, per_minute: int) -> int {
    if per_minute <= 0 {
        u64::MAX as int
    } else {
        let secs = (deficit + per_minute * 1_000_000_000 - 1) / (per_minute * 1_000_000_000);
        if secs > u64::MAX {
            u64::MAX as int
        } else {
            secs
        }
    }
}

impl Bucket {
    /// What the bucket holds when full, in units.
    pub open spec fn capacity(self) -> int {
        self.per_minute * UNITS
    }

    /// Never more than full.
    pub open spec fn wf(self) -> bool {
        self.units <= self.capacity()
    }

    /// What is left at `now_ns`: the refill since the last update, up to the
    /// capacity. Time only moves forward.
    pub open spec fn available(self, now_ns: u64) -> int {
        if now_ns > self.updated_ns {
            let more = self.units + (now_ns - self.updated_ns) * self.per_minute;
            if more <= self.capacity() {
                more
            } else {
                self.capacity()
            }
        } else {
            self.units as int
        }
    }

    pub open spec fn latest(self, now_ns: u64) -> u64 {
        if now_ns > self.updated_ns {
            now_ns
        } else {
            self.updated_ns
        }
    }

    /// Whether a take of `amount` succeeds at `now_ns`.
    pub open spec fn covers(self, amount: u64, now_ns: u64) -> bool {
        self.available(now_ns) >= amount * UNITS
    }

    /// The outcome of that take.
    pub open spec fn take(self, amount: u64, now_ns: u64) -> Result<(), Denied> {
        if self.covers(amount, now_ns) {
            Ok(())
        } else {
            Err(
                Denied {
                    retry_after_secs: refill_secs(
                        amount * UNITS - self.available(now_ns),
                        self.per_minute as int,
                    ) as u64,
                    exceeds_capacity: amount > self.per_minute,
                },
            )
        }
    }

    /// The bucket after it: a refused take consumes nothing.
    pub open spec fn after_take(self, amount: u64, now_ns: u64) -> Bucket {
        Bucket {
            units: (if self.covers(amount, now_ns) {
                self.available(now_ns) - amount * UNITS
            } else {
                self.available(now_ns)
            }) as u128,
            updated_ns: self.latest(now_ns),
            ..self
        }
    }

    /// The bucket after a refund, which is capped at the capacity.
    pub open spec fn after_put_back(self, amount: u64) -> Bucket {
        let more = self.units + amount * UNITS;
        Bucket {
            units: (if more <= self.capacity() {
                more
            } else {
                self.capacity()
            }) as u128,
            ..self
        }
    }

    /// A full bucket.
    pub fn new(per_minute: u32, now_ns: u64) -> (r: Self)
        ensures
            r.wf(),
            r.per_minute == per_minute,
            r.units == r.capacity(),
            r.updated_ns == now_ns,
    {
        Bucket { per_minute, units: per_minute as u128 * UNITS, updated_ns: now_ns }
    }

    /// Takes `amount` tokens, all or nothing.
    pub fn try_take_at(&mut self, amount: u64, now_ns: u64) -> (r: Result<(), Denied>)
        requires
            old(self).wf(),
        ensures
            final(self).wf(),
            r == old(self).take(amount, now_ns),
            *final(self) == old(self).after_take(amount, now_ns),
    {
        let capacity: u128 = self.per_minute as u128 * UNITS;
        if now_ns > self.updated_ns {
            let elapsed: u128 = (now_ns - self.updated_ns) as u128;
            assert(elapsed * self.per_minute <= 0xffff_ffff_ffff_ffff * 0xffff_ffff)
                by (nonlinear_arith)
                requires
                    elapsed <= 0xffff_ffff_ffff_ffff,
                    self.per_minute <= 0xffff_ffff,
            ;
            let more: u128 = self.units + elapsed * self.per_minute as u128;
            self.units = if more <= capacity {
                more
            } else {
                capacity
            };
            self.updated_ns = now_ns;
        }
        let wanted: u128 = amount as u128 * UNITS;
        if self.units >= wanted {
            self.units = self.units - wanted;
            Ok(())
        } else {
            let deficit: u128 = wanted - self.units;
            let retry_after_secs: u64 = if self.per_minute == 0 {
                u64::MAX
            } else {
                let rate: u128 = self.per_minute as u128 * 1_000_000_000;
                let secs: u128 = (deficit + (rate - 1)) / rate;
                if secs > u64::MAX as u128 {
                    u64::MAX
                } else {
                    secs as u64
                }
            };
            Err(Denied { retry_after_secs, exceeds_capacity: amount > self.per_minute as u64 })
        }
    }

    /// Returns an unused reservation to the bucket.
    pub fn put_back(&mut self, amount: u64)
        requires
            old(self).wf(),
        ensures
            final(self).wf(),
            *final(self) == old(self).after_put_back(amount),
    {
        let capacity: u128 = self.per_minute as u128 * UNITS;
        let more: u128 = self.units + amount as u128 * UNITS;
        self.units = if more <= capacity {
            more
        } else {
            capacity
        };
    }
}

/// One key's buckets.
#[derive(Debug)]
pub struct KeyLimiter {
    pub name: String,
    pub rpm: Option<Bucket>,
    pub tpm: Option<Bucket>,
}

/// A worst-case hold on tokens per minute, taken before submission. Settling
/// it with actual usage refunds the remainder; one that is dropped unsettled
/// forfeits the whole hold.
#[derive(Debug, PartialEq, Eq, Structural)]
pub struct TpmReservation {
    pub reserved: u64,
    pub settled: bool,
}

pub open spec fn bucket_wf(bucket: Option<Bucket>) -> bool {
    match bucket {
        Some(b) => b.wf(),
        None => true,
    }
}

pub open spec fn limit_of(bucket: Option<Bucket>) -> Option<u32> {
    match bucket {
        Some(b) => Some(b.per_minute),
        None => None,
    }
}

impl KeyLimiter {
    pub open spec fn wf(self) -> bool {
        bucket_wf(self.rpm) && bucket_wf(self.tpm)
    }

    pub fn name(&self) -> (r: &str)
        ensures
            r@ == self.name@,
    {
        self.name.as_str()
    }

    pub fn rpm_limit(&self) -> (r: Option<u32>)
        ensures
            r == limit_of(self.rpm),
    {
        match &self.rpm {
            Some(b) => Some(b.per_minute),
            None => None,
        }
    }

    pub fn tpm_limit(&self) -> (r: Option<u32>)
        ensures
            r == limit_of(self.tpm),
    {
        match &self.tpm {
            Some(b) => Some(b.per_minute),
            None => None,
        }
    }

    /// Takes one request from the request bucket (always granted without a
    /// request limit).
    pub fn take_request_at(&mut self, now_ns: u64) -> (r: Result<(), Denied>)
        requires
            old(self).wf(),
        ensures
            final(self).wf(),
            final(self).name == old(self).name,
            final(self).tpm == old(self).tpm,
            match old(self).rpm {
                None => r is Ok && final(self).rpm is None,
                Some(b) => r == b.take(1, now_ns) && final(self).rpm == Some(
                    b.after_take(1, now_ns),
                ),
            },
    {
        match self.rpm {
            None => Ok(()),
            Some(bucket) => {
                let mut bucket: Bucket = bucket;
                let r: Result<(), Denied> = bucket.try_take_at(1, now_ns);
                self.rpm = Some(bucket);
                r
            },
        }
    }

    /// Reserves `needed` tokens from the token bucket; `Ok(None)` when the
    /// key has no token limit.
    pub fn reserve_tokens_at(&mut self, needed: u64, now_ns: u64) -> (r: Result<
        Option<TpmReservation>,
        Denied,
    >)
        requires
            old(self).wf(),
        ensures
            final(self).wf(),
            final(self).name == old(self).name,
            final(self).rpm == old(self).rpm,
            match old(self).tpm {
                None => r == Ok::<Option<TpmReservation>, Denied>(None) && final(self).tpm is None,
                Some(b) => {
                    &&& final(self).tpm == Some(b.after_take(needed, now_ns))
                    &&& r == (match b.take(needed, now_ns) {
                        Ok(()) => Ok(Some(TpmReservation { reserved: needed, settled: false })),
                        Err(denied) => Err(denied),
                    })
                },
            },
    {
        match self.tpm {
            None => Ok(None),
            Some(bucket) => {
                let mut bucket: Bucket = bucket;
                let taken: Result<(), Denied> = bucket.try_take_at(needed, now_ns);
                self.tpm = Some(bucket);
                match taken {
                    Ok(()) => Ok(Some(TpmReservation { reserved: needed, settled: false })),
                    Err(denied) => Err(denied),
                }
            },
        }
    }
}

/// What settling a hold with `actual` usage gives back.
pub open spec fn refund(reservation: TpmReservation, actual: u64) -> u64 {
    if reservation.settled || reservation.reserved <= actual {
        0
    } else {
        (reservation.reserved - actual) as u64
    }
}

impl TpmReservation {
    /// Reconciles the hold against what the request consumed. Settling again
    /// does nothing.
    pub fn settle(&mut self, limiter: &mut KeyLimiter, actual_tokens: u64)
        requires
            old(limiter).wf(),
        ensures
            final(limiter).wf(),
            final(limiter).name == old(limiter).name,
            final(limiter).rpm == old(limiter).rpm,
            final(limiter).tpm == (match old(limiter).tpm {
                None => None,
                Some(b) => if refund(*old(self), actual_tokens) > 0 {
                    Some(b.after_put_back(refund(*old(self), actual_tokens)))
                } else {
                    Some(b)
                },
            }),
            *final(self) == (TpmReservation { settled: true, ..*old(self) }),
    {
        if self.settled {
            return ;
        }
        self.settled = true;
        let refund: u64 = self.reserved.saturating_sub(actual_tokens);
        if refund > 0 {
            if let Some(bucket) = limiter.tpm {
                let mut bucket: Bucket = bucket;
                bucket.put_back(refund);
                limiter.tpm = Some(bucket);
            }
        }
    }
}

/// All per-key limiters. Entries exist only for keys with at least one limit.
#[derive(Debug)]
pub struct RateLimiter {
    pub keys: Vec<KeyLimiter>,
}

/// Names the limiter of an authenticated key.
#[derive(Debug, Clone, Copy, PartialEq, Eq, Structural)]
pub struct RateLimitHandle(pub usize);

/// The configured keys that have at least one limit, in order.
pub open spec fn limited(keys: Seq<ApiKeyConfig>) -> Seq<ApiKeyConfig>
    decreases keys.len(),
{
    if keys.len() == 0 {
        Seq::empty()
    } else if keys.last().rpm is Some || keys.last().tpm is Some {
        limited(keys.drop_last()).push(keys.last())
    } else {
        limited(keys.drop_last())
    }
}

/// A bucket that is full at `now_ns` under the given limit.
pub open spec fn fresh_bucket(bucket: Option<Bucket>, limit: Option<u32>, now_ns: u64) -> bool {
    match (bucket, limit) {
        (Some(b), Some(n)) => b.per_minute == n && b.units == b.capacity() && b.updated_ns
            == now_ns,
        (None, None) => true,
        _ => false,
    }
}

/// The limiter of a configured key, with full buckets.
pub open spec fn fresh(limiter: KeyLimiter, key: ApiKeyConfig, now_ns: u64) -> bool {
    &&& limiter.name@ == key.name@
    &&& fresh_bucket(limiter.rpm, key.rpm, now_ns)
    &&& fresh_bucket(limiter.tpm, key.tpm, now_ns)
}

fn full_bucket(limit: Option<u32>, now_ns: u64) -> (r: Option<Bucket>)
    ensures
        bucket_wf(r),
        fresh_bucket(r, limit, now_ns),
{
    match limit {
        Some(n) => Some(Bucket::new(n, now_ns)),
        None => None,
    }
}

impl RateLimiter {
    pub open spec fn wf(self) -> bool {
        forall|i: int| 0 <= i < self.keys@.len() ==> (#[trigger] self.keys@[i]).wf()
    }

    /// One limiter per configured key with a limit, with full buckets.
    pub fn from_config(config: &AuthConfig, now_ns: u64) -> (r: Self)
        ensures
            r.wf(),
            r.keys@.len() == limited(config.api_keys@).len(),
            forall|i: int|
                0 <= i < r.keys@.len() ==> fresh(
                    #[trigger] r.keys@[i],
                    limited(config.api_keys@)[i],
                    now_ns,
                ),
    {
        let mut keys: Vec<KeyLimiter> = Vec::new();
        let mut i: usize = 0;
        while i < config.api_keys.len()
            invariant
                i <= config.api_keys@.len(),
                keys@.len() == limited(config.api_keys@.take(i as int)).len(),
                forall|j: int|
                    0 <= j < keys@.len() ==> (#[trigger] keys@[j]).wf() && fresh(
                        keys@[j],
                        limited(config.api_keys@.take(i as int))[j],
                        now_ns,
                    ),
            decreases config.api_keys@.len() - i,
        {
            let key: &ApiKeyConfig = &config.api_keys[i];
            assert(config.api_keys@.take(i + 1).drop_last() =~= config.api_keys@.take(i as int));
            if key.rpm.is_some() || key.tpm.is_some() {
                keys.push(
                    KeyLimiter {
                        name: key.name.clone(),
                        rpm: full_bucket(key.rpm, now_ns),
                        tpm: full_bucket(key.tpm, now_ns),
                    },
                );
            }
            i = i + 1;
        }
        assert(config.api_keys@.take(i as int) =~= config.api_keys@);
        RateLimiter { keys }
    }

    /// The limiter for a verified key name; `None` means unlimited. Of two
    /// keys with one name, the later one counts.
    pub fn handle(&self, key_name: &str) -> (r: Option<RateLimitHandle>)
        ensures
            match r {
                Some(h) => {
                    &&& h.0 < self.keys@.len()
                    &&& self.keys@[h.0 as int].name@ == key_name@
                    &&& forall|j: int|
                        h.0 < j < self.keys@.len() ==> (#[trigger] self.keys@[j]).name@ != key_name@
                },
                None => forall|j: int|
                    0 <= j < self.keys@.len() ==> (#[trigger] self.keys@[j]).name@ != key_name@,
            },
    {
        let mut i: usize = self.keys.len();
        while i > 0
            invariant
                i <= self.keys@.len(),
                forall|j: int|
                    i <= j < self.keys@.len() ==> (#[trigger] self.keys@[j]).name@ != key_name@,
            decreases i,
        {
            i = i - 1;
            if text::same(self.keys[i].name.as_str(), key_name) {
                return Some(RateLimitHandle(i));
            }
        }
        None
    }

    /// The request check of a key, as the client sees it.
    pub fn check_rpm(&mut self, handle: Option<RateLimitHandle>, now_ns: u64) -> (r: Result<
        (),
        ApiError,
    >)
        requires
            old(self).wf(),
            handle is Some ==> (handle->0).0 < old(self).keys@.len(),
        ensures
            final(self).wf(),
            final(self).keys@.len() == old(self).keys@.len(),
            match handle {
                None => r is Ok && final(self).keys@ == old(self).keys@,
                Some(h) => {
                    let k = old(self).keys@[h.0 as int];
                    &&& forall|j: int|
                        0 <= j < old(self).keys@.len() && j != h.0 ==> (
                        #[trigger] final(self).keys@[j]) == old(self).keys@[j]
                    &&& final(self).keys@[h.0 as int] == (KeyLimiter {
                        rpm: match k.rpm {
                            Some(b) => Some(b.after_take(1, now_ns)),
                            None => None,
                        },
                        ..k
                    })
                    &&& match r {
                        Ok(()) => k.rpm is None || k.rpm->0.covers(1, now_ns),
                        Err(e) => k.rpm is Some && !k.rpm->0.covers(1, now_ns) && e@
                            == error::rate_limited_requests(
                            k.name@,
                            k.rpm->0.per_minute,
                            k.rpm->0.take(1, now_ns)->Err_0.retry_after_secs,
                        ),
                    }
                },
            },
    {
        match handle {
            None => Ok(()),
            Some(RateLimitHandle(i)) => {
                let taken: Result<(), Denied> = self.keys[i].take_request_at(now_ns);
                match taken {
                    Ok(()) => Ok(()),
                    Err(denied) => {
                        let limit: u32 = match self.keys[i].rpm_limit() {
                            Some(n) => n,
                            None => 0,
                        };
                        Err(
                            ApiError::rate_limited_requests(
                                self.keys[i].name(),
                                limit,
                                denied.retry_after_secs,
                            ),
                        )
                    },
                }
            },
        }
    }

    /// The token check of a completion, once its prompt tokens and effective
    /// `max_tokens` are known. `Ok(None)` means that there is nothing to
    /// settle.
    pub fn reserve_completion_tokens(
        &mut self,
        handle: Option<RateLimitHandle>,
        prompt_tokens: u32,
        max_tokens: u32,
        now_ns: u64,
    ) -> (r: Result<Option<TpmReservation>, ApiError>)
        requires
            old(self).wf(),
            handle is Some ==> (handle->0).0 < old(self).keys@.len(),
        ensures
            final(self).wf(),
            final(self).keys@.len() == old(self).keys@.len(),
            match handle {
                None => r is Ok && r->Ok_0 is None && final(self).keys@ == old(self).keys@,
                Some(h) => {
                    let k = old(self).keys@[h.0 as int];
                    let needed = (prompt_tokens + max_tokens) as u64;
                    &&& forall|j: int|
                        0 <= j < old(self).keys@.len() && j != h.0 ==> (
                        #[trigger] final(self).keys@[j]) == old(self).keys@[j]
                    &&& final(self).keys@[h.0 as int] == (KeyLimiter {
                        tpm: match k.tpm {
                            Some(b) => Some(b.after_take(needed, now_ns)),
                            None => None,
                        },
                        ..k
                    })
                    &&& match r {
                        Ok(None) => k.tpm is None,
                        Ok(Some(held)) => k.tpm is Some && k.tpm->0.covers(needed, now_ns) && held
                            == (TpmReservation { reserved: needed, settled: false }),
                        Err(e) => k.tpm is Some && !k.tpm->0.covers(needed, now_ns) && e@
                            == error::rate_limited_tokens(
                            k.name@,
                            k.tpm->0.per_minute,
                            prompt_tokens,
                            max_tokens,
                            if needed > k.tpm->0.per_minute {
                                None
                            } else {
                                Some(k.tpm->0.take(needed, now_ns)->Err_0.retry_after_secs)
                            },
                        ),
                    }
                },
            },
    {
        match handle {
            None => Ok(None),
            Some(RateLimitHandle(i)) => {
                let needed: u64 = prompt_tokens as u64 + max_tokens as u64;
                let held: Result<Option<TpmReservation>, Denied> = self.keys[i].reserve_tokens_at(
                    needed,
                    now_ns,
                );
                match held {
                    Ok(reservation) => Ok(reservation),
                    Err(denied) => {
                        let limit: u32 = match self.keys[i].tpm_limit() {
                            Some(n) => n,
                            None => 0,
                        };
                        let retry: Option<u64> = if denied.exceeds_capacity {
                            None
                        } else {
                            Some(denied.retry_after_secs)
                        };
                        Err(
                            ApiError::rate_limited_tokens(
                                self.keys[i].name(),
                                limit,
                                prompt_tokens,
                                max_tokens,
                                retry,
                            ),
                        )
                    },
                }
            },
        }
    }
}

/// A refused take consumes nothing: what was available still is.
pub proof fn law_refused_take_consumes_nothing(b: Bucket, amount: u64, now_ns: u64)
    requires
        b.wf(),
        !b.covers(amount, now_ns),
    ensures
        b.after_take(amount, now_ns).available(now_ns) == b.available(now_ns),
{
}

/// An amount above the limit can never be taken, however long one waits.
pub proof fn law_over_capacity_is_never_admitted(b: Bucket, amount: u64, now_ns: u64)
    requires
        b.wf(),
        amount > b.per_minute,
    ensures
        b.take(amount, now_ns) is Err,
        b.take(amount, now_ns)->Err_0.exceeds_capacity,
{
}

/// Waiting as long as a refusal says is enough: if nothing else is taken in
/// between, the same take then succeeds.
pub proof fn law_waiting_the_advertised_time_is_enough(
    b: Bucket,
    amount: u64,
    now_ns: u64,
    later_ns: u64,
)
    requires
        b.wf(),
        amount <= b.per_minute,
        b.take(amount, now_ns) is Err,
        later_ns >= b.latest(now_ns) + b.take(amount, now_ns)->Err_0.retry_after_secs
            * 1_000_000_000,
    ensures
        b.take(amount, now_ns)->Err_0.retry_after_secs >= 1,
        b.after_take(amount, now_ns).take(amount, later_ns) is Ok,
{
    let deficit = amount * UNITS - b.available(now_ns);
    let rate = b.per_minute * 1_000_000_000;
    assert(b.per_minute > 0);
    let secs = (deficit + rate - 1) / rate;
    assert(secs * rate >= deficit && secs >= 1) by (nonlinear_arith)
        requires
            secs == (deficit + rate - 1) / rate,
            rate > 0,
            deficit > 0,
    ;
    if secs > u64::MAX {
        assert(false);
    }
    let c = b.after_take(amount, now_ns);
    let elapsed = later_ns - c.updated_ns;
    assert(elapsed >= secs * 1_000_000_000);
    assert(elapsed * b.per_minute >= secs * rate) by (nonlinear_arith)
        requires
            elapsed >= secs * 1_000_000_000,
            rate == b.per_minute * 1_000_000_000,
            b.per_minute > 0,
    ;
}

/// Takes of the given amounts at the given times, in order.
pub open spec fn after_takes(b: Bucket, takes: Seq<(u64, u64)>) -> Bucket
    decreases takes.len(),
{
    if takes.len() == 0 {
        b
    } else {
        after_takes(b, takes.drop_last()).after_take(takes.last().0, takes.last().1)
    }
}

/// The tokens those takes were granted in all.
pub open spec fn granted(b: Bucket, takes: Seq<(u64, u64)>) -> int
    decreases takes.len(),
{
    if takes.len() == 0 {
        0
    } else {
        granted(b, takes.drop_last()) + (if after_takes(b, takes.drop_last()).covers(
            takes.last().0,
            takes.last().1,
        ) {
            takes.last().0 as int
        } else {
            0
        })
    }
}

/// However the takes of a key interleave, they are never granted more than
/// the bucket held plus what refilled in the meantime.
pub proof fn law_takes_never_over_admit(b: Bucket, takes: Seq<(u64, u64)>)
    requires
        b.wf(),
    ensures
        after_takes(b, takes).wf(),
        after_takes(b, takes).per_minute == b.per_minute,
        after_takes(b, takes).updated_ns >= b.updated_ns,
        granted(b, takes) * UNITS + after_takes(b, takes).units <= b.units + (after_takes(
            b,
            takes,
        ).updated_ns - b.updated_ns) * b.per_minute,
    decreases takes.len(),
{
    if takes.len() > 0 {
        law_takes_never_over_admit(b, takes.drop_last());
        let c = after_takes(b, takes.drop_last());
        let d = after_takes(b, takes);
        let (amount, now) = takes.last();
        let n = b.per_minute as int;
        let t0 = c.updated_ns - b.updated_ns;
        let t1 = d.updated_ns - c.updated_ns;
        assert(c.available(now) <= c.units + t1 * n) by {
            if now > c.updated_ns {
            } else {
                assert(t1 * n == 0) by (nonlinear_arith)
                    requires
                        t1 == 0,
                ;
            }
        }
        assert((t0 + t1) * n == t0 * n + t1 * n) by (nonlinear_arith);
        let g = granted(b, takes.drop_last());
        assert(granted(b, takes) * UNITS == g * UNITS + (granted(b, takes) - g) * UNITS)
            by (nonlinear_arith);
    }
}

/// A burst of `n` requests at one instant.
pub open spec fn burst(n: nat, now_ns: u64) -> Seq<(u64, u64)> {
    Seq::new(n, |i: int| (1u64, now_ns))
}

/// A burst on a full bucket admits exactly the limit: every request up to it
/// and none beyond it.
pub proof fn law_burst_admits_exactly_the_limit(b: Bucket, n: nat, now_ns: u64)
    requires
        b.wf(),
        b.units == b.capacity(),
        now_ns >= b.updated_ns,
    ensures
        granted(b, burst(n, now_ns)) == (if n <= b.per_minute {
            n as int
        } else {
            b.per_minute as int
        }),
        after_takes(b, burst(n, now_ns)).per_minute == b.per_minute,
        after_takes(b, burst(n, now_ns)).available(now_ns) == (b.per_minute - granted(
            b,
            burst(n, now_ns),
        )) * UNITS,
        n > 0 ==> after_takes(b, burst(n, now_ns)).updated_ns == now_ns,
    decreases n,
{
    if n > 0 {
        let m = (n - 1) as nat;
        law_burst_admits_exactly_the_limit(b, m, now_ns);
        assert(burst(n, now_ns).drop_last() =~= burst(m, now_ns));
        let c = after_takes(b, burst(m, now_ns));
        assert(c.available(now_ns) == (b.per_minute - granted(b, burst(m, now_ns))) * UNITS);
    } else {
        let more = (now_ns - b.updated_ns) * b.per_minute;
        assert(more >= 0) by (nonlinear_arith)
            requires
                more == (now_ns - b.updated_ns) * b.per_minute,
                now_ns >= b.updated_ns,
        ;
    }
}

/// A hold that settles with less than it reserved leaves exactly the actual
/// usage charged; settling it twice refunds once.
pub proof fn law_settling_charges_actual_usage(
    b: Bucket,
    reserved: u64,
    actual: u64,
    now_ns: u64,
)
    requires
        b.wf(),
        b.covers(reserved, now_ns),
        actual <= reserved,
    ensures
        b.after_take(reserved, now_ns).after_put_back((reserved - actual) as u64).units
            == b.available(now_ns) - actual * UNITS,
        refund(TpmReservation { reserved, settled: true }, actual) == 0,
{
    assert((reserved - actual) * UNITS == reserved * UNITS - actual * UNITS) by (nonlinear_arith);
}

/// An empty bucket is full again after a minute and no sooner, and a full one covers
/// exactly its limit.
pub proof fn law_buckets_refill_within_a_minute(b: Bucket, now_ns: u64, amount: u64)
    requires
        b.wf(),
    ensures
        now_ns >= b.updated_ns + 60_000_000_000 ==> b.available(now_ns) == b.capacity(),
        b.units == 0 && b.per_minute > 0 && now_ns < b.updated_ns + 60_000_000_000 ==> b.available(
            now_ns,
        ) < b.capacity(),
        b.available(now_ns) == b.capacity() ==> (b.covers(amount, now_ns) <==> amount
            <= b.per_minute),
{
    let elapsed = now_ns - b.updated_ns;
    let n = b.per_minute as int;
    if elapsed >= 60_000_000_000 {
        assert(elapsed * n >= 60_000_000_000 * n) by (nonlinear_arith)
            requires
                elapsed >= 60_000_000_000,
                n >= 0,
        ;
    }
    if 0 < elapsed < 60_000_000_000 && n > 0 {
        assert(elapsed * n < 60_000_000_000 * n) by (nonlinear_arith)
            requires
                elapsed < 60_000_000_000,
                n > 0,
        ;
    }
}

/// A bucket refills in step with time: each nanosecond brings as many sixty-billionths
/// of a token as the limit has tokens, up to the capacity; and nothing is lost when the
/// clock stands still or goes back.
pub proof fn law_refill_is_steady(b: Bucket, now_ns: u64)
    requires
        b.wf(),
    ensures
        now_ns <= b.updated_ns ==> b.available(now_ns) == b.units,
        now_ns > b.updated_ns && b.units + (now_ns - b.updated_ns) * b.per_minute
            <= b.per_minute * 60_000_000_000 ==> b.available(now_ns) == b.units + (now_ns
            - b.updated_ns) * b.per_minute,
        b.available(now_ns) <= b.per_minute * 60_000_000_000,
{
}

/// A take that is granted costs its amount and no more; one that is refused costs
/// nothing; both bring the bucket up to date and leave its limit alone.
pub proof fn law_takes_cost_their_amount(b: Bucket, amount: u64, now_ns: u64)
    requires
        b.wf(),
    ensures
        ({
            let after = b.after_take(amount, now_ns);
            &&& b.take(amount, now_ns) is Ok <==> b.available(now_ns) >= amount * 60_000_000_000
            &&& b.take(amount, now_ns) is Ok ==> after.units == b.available(now_ns) - amount
                * 60_000_000_000
            &&& b.take(amount, now_ns) is Err ==> after.units == b.available(now_ns)
            &&& after.per_minute == b.per_minute
            &&& now_ns >= b.updated_ns ==> after.updated_ns == now_ns
            &&& now_ns < b.updated_ns ==> after.updated_ns == b.updated_ns
        }),
{
    let elapsed = now_ns - b.updated_ns;
    if elapsed > 0 {
        assert(elapsed * b.per_minute >= 0) by (nonlinear_arith)
            requires
                elapsed > 0,
        ;
    }
}

/// The time that a refusal advertises is the least: it is a minute at most where the
/// limit covers the amount, a second less would not do, and a limit of nothing never
/// refills.
pub proof fn law_the_advertised_time_is_the_least(
    b: Bucket,
    amount: u64,
    now_ns: u64,
    sooner_ns: u64,
)
    requires
        b.wf(),
        b.take(amount, now_ns) is Err,
    ensures
        b.take(amount, now_ns)->Err_0.exceeds_capacity <==> amount > b.per_minute,
        b.per_minute == 0 ==> b.take(amount, now_ns)->Err_0.retry_after_secs == u64::MAX,
        amount <= b.per_minute ==> b.take(amount, now_ns)->Err_0.retry_after_secs <= 60,
        amount <= b.per_minute && sooner_ns <= b.latest(now_ns) + (b.take(
            amount,
            now_ns,
        )->Err_0.retry_after_secs - 1) * 1_000_000_000 ==> b.after_take(amount, now_ns).take(
            amount,
            sooner_ns,
        ) is Err,
{
    let deficit = amount * UNITS - b.available(now_ns);
    let n = b.per_minute as int;
    let elapsed0 = now_ns - b.updated_ns;
    if elapsed0 > 0 {
        assert(elapsed0 * n >= 0) by (nonlinear_arith)
            requires
                elapsed0 > 0,
                n >= 0,
        ;
    }
    if amount <= b.per_minute {
        let rate = n * 1_000_000_000;
        assert(n > 0);
        let secs = (deficit + rate - 1) / rate;
        assert((secs - 1) * rate < deficit && secs >= 1) by (nonlinear_arith)
            requires
                secs == (deficit + rate - 1) / rate,
                rate > 0,
                deficit > 0,
        ;
        assert(secs <= 60) by (nonlinear_arith)
            requires
                (secs - 1) * rate < deficit,
                deficit <= 60 * rate,
                rate > 0,
        ;
        let c = b.after_take(amount, now_ns);
        if sooner_ns <= b.latest(now_ns) + (secs - 1) * 1_000_000_000 {
            let elapsed = sooner_ns - c.updated_ns;
            if elapsed > 0 {
                assert(elapsed * n <= (secs - 1) * rate) by (nonlinear_arith)
                    requires
                        0 < elapsed <= (secs - 1) * 1_000_000_000,
                        rate == n * 1_000_000_000,
                        n > 0,
                ;
            }
        }
    }
}

/// A refund gives back its amount, up to a full bucket, and changes nothing else.
pub proof fn law_refunds_never_overfill(b: Bucket, amount: u64)
    requires
        b.wf(),
    ensures
        ({
            let after = b.after_put_back(amount);
            &&& after.per_minute == b.per_minute
            &&& after.updated_ns == b.updated_ns
            &&& b.units + amount * 60_000_000_000 <= b.per_minute * 60_000_000_000 ==> after.units
                == b.units + amount * 60_000_000_000
            &&& b.units + amount * 60_000_000_000 > b.per_minute * 60_000_000_000 ==> after.units
                == b.per_minute * 60_000_000_000
        }),
{
}

/// What a hold gives back is what it reserved and did not use, once.
pub proof fn law_refunds_are_what_was_not_used(reserved: u64, actual: u64)
    ensures
        actual <= reserved ==> refund(TpmReservation { reserved, settled: false }, actual) + actual
            == reserved,
        actual > reserved ==> refund(TpmReservation { reserved, settled: false }, actual) == 0,
        refund(TpmReservation { reserved, settled: true }, actual) == 0,
{
}

/// A configured key gets a limiter where it has a limit of either kind, and the
/// limiters stand in the order of the keys.
pub proof fn law_keys_with_limits_are_limited(keys: Seq<ApiKeyConfig>, key: ApiKeyConfig)
    ensures
        limited(Seq::empty()).len() == 0,
        key.rpm is Some ==> limited(keys.push(key)) == limited(keys).push(key),
        key.tpm is Some ==> limited(keys.push(key)) == limited(keys).push(key),
        key.rpm is None && key.tpm is None ==> limited(keys.push(key)) == limited(keys),
{
    assert(keys.push(key).drop_last() =~= keys);
}

/// A key's limiter starts with its name and with full buckets under its own limits,
/// and has no bucket where the key has no limit.
pub proof fn law_limiters_start_full(limiter: KeyLimiter, key: ApiKeyConfig, now_ns: u64)
    requires
        fresh(limiter, key, now_ns),
    ensures
        limiter.name@ == key.name@,
        limit_of(limiter.rpm) == key.rpm,
        limit_of(limiter.tpm) == key.tpm,
        limiter.rpm is Some ==> limiter.rpm->0.units == limiter.rpm->0.per_minute * 60_000_000_000
            && limiter.rpm->0.updated_ns == now_ns,
        limiter.tpm is Some ==> limiter.tpm->0.units == limiter.tpm->0.per_minute * 60_000_000_000
            && limiter.tpm->0.updated_ns == now_ns,
{
}

} // verus!
