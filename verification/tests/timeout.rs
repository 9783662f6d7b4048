use kiln_gateway::config::ServerConfig;
use kiln_gateway::timeout::expired;
use kiln_gateway::timeout::note_event;
use kiln_gateway::timeout::Deadlines;
use kiln_gateway::timeout::EventKind;
use kiln_gateway::timeout::TimeoutScope;
use kiln_gateway::timeout::Timeouts;

const SECOND: u128 = 1_000_000_000;

fn timeouts(ttft: Option<u64>, total: Option<u64>) -> Timeouts {
    Timeouts { ttft, total }
}

#[test]
fn ttft_deadline_fires_first_then_retires_to_total() {
    let arrival: u64 = 7_000_000_123;
    let mut deadlines = Deadlines::start(&timeouts(Some(5), Some(60)), arrival);

    let (at, scope) = deadlines.next().expect("both budgets armed");
    assert_eq!(scope, TimeoutScope::Ttft);
    assert_eq!(at, arrival as u128 + 5 * SECOND);

    deadlines.first_token();
    let (at, scope) = deadlines.next().expect("total budget remains");
    assert_eq!(scope, TimeoutScope::Total);
    assert_eq!(at, arrival as u128 + 60 * SECOND);
}

#[test]
fn single_budget_configurations() {
    let arrival: u64 = 1;

    // First token only: nothing bounds the stream after it.
    let mut ttft_only = Deadlines::start(&timeouts(Some(5), None), arrival);
    assert_eq!(ttft_only.next().expect("armed").1, TimeoutScope::Ttft);
    ttft_only.first_token();
    assert!(ttft_only.next().is_none());

    // Total only: the same deadline before and after the first token.
    let mut total_only = Deadlines::start(&timeouts(None, Some(60)), arrival);
    assert_eq!(total_only.next().expect("armed").1, TimeoutScope::Total);
    total_only.first_token();
    assert_eq!(
        total_only.next().expect("still armed").1,
        TimeoutScope::Total
    );

    // Neither: never a deadline.
    let none = Deadlines::start(&timeouts(None, None), arrival);
    assert!(none.next().is_none());
}

#[test]
fn budgets_anchor_at_arrival_not_at_poll_time() {
    // The deadline is absolute: time spent before the event loop is budget
    // spent, not budget deferred.
    let now: u64 = 100_000_000_000;
    let arrival = now - 4_000_000_000;
    let deadlines = Deadlines::start(&timeouts(Some(5), None), arrival);
    let (at, _) = deadlines.next().expect("armed");
    assert!(at <= now as u128 + SECOND);
}

#[test]
fn only_tokens_retire_the_first_token_deadline() {
    let mut deadlines = Deadlines::start(&timeouts(Some(5), Some(6)), 0);
    note_event(&mut deadlines, EventKind::Other);
    note_event(&mut deadlines, EventKind::Finished);
    assert_eq!(deadlines.next(), Some((5 * SECOND, TimeoutScope::Ttft)));
    note_event(&mut deadlines, EventKind::Tokens);
    assert_eq!(deadlines.next(), Some((6 * SECOND, TimeoutScope::Total)));
    assert_eq!(deadlines.total(), Some(6 * SECOND));
}

#[test]
fn expired_budgets_are_504s_that_name_their_setting() {
    let e = expired(TimeoutScope::Ttft, 5);
    assert_eq!(e.status, 504);
    assert_eq!(e.code, "ttft_timeout");
    assert_eq!(
        e.message,
        "no token was generated within 5 seconds of the request's arrival (server.ttft_timeout_secs)"
    );
    let e = expired(TimeoutScope::Total, 60);
    assert_eq!(e.code, "total_timeout");
    assert!(e.message.contains("within 60 seconds"));
    assert_eq!(TimeoutScope::Ttft.label(), "ttft");
    assert_eq!(TimeoutScope::Total.label(), "total");
}

#[test]
fn timeouts_come_from_the_server_section() {
    let mut server = ServerConfig::default();
    server.ttft_timeout_secs = Some(3);
    server.total_timeout_secs = None;
    assert_eq!(Timeouts::from_config(&server), timeouts(Some(3), None));
}
