use kiln_gateway::app::body_error;
use kiln_gateway::app::healthz;
use kiln_gateway::app::json_error;
use kiln_gateway::app::metrics_error;
use kiln_gateway::app::route_label;
use kiln_gateway::app::RequestId;
use kiln_gateway::config::ServerConfig;
use kiln_gateway::cors;
use kiln_gateway::cors::CorsPolicy;
use kiln_gateway::status::UnloadReason;
use kiln_gateway::status::WorkerStatus;
use kiln_gateway::ui::redirect_to_slash;
use kiln_gateway::ui::serve;
use kiln_gateway::ui::UiAnswer;

fn server(origins: &[&str]) -> ServerConfig {
    let mut server = ServerConfig::default();
    server.cors_origins = origins.iter().map(|s| s.to_string()).collect();
    server
}

fn listed(origins: &[&str]) -> Vec<String> {
    match cors::layer(&server(origins)) {
        Some(CorsPolicy::Listed(v)) => v,
        other => panic!("{other:?}"),
    }
}

#[test]
fn empty_config_builds_no_layer() {
    assert!(cors::layer(&ServerConfig::default()).is_none());
}

#[test]
fn config_origins_are_lowercased_to_match_browser_origins() {
    assert_eq!(
        listed(&["http://LocalHost:5173"]),
        vec!["http://localhost:5173"]
    );
}

#[test]
fn lone_wildcard_allows_any_origin() {
    assert!(matches!(
        cors::layer(&server(&["*"])),
        Some(CorsPolicy::Any)
    ));
}

#[test]
fn origins_that_no_header_can_carry_are_dropped() {
    assert_eq!(
        listed(&["http://a", "http://\u{e9}", "http://b\n", "http://B"]),
        vec!["http://a", "http://\u{e9}", "http://b"]
    );
    assert_eq!(cors::exposed_headers(), vec!["x-request-id", "retry-after"]);
    assert_eq!(cors::MAX_AGE_SECS, 3600);
}

#[test]
fn ui_root_is_shell_or_actionable_503() {
    let shell = serve("index.html", true, true);
    assert_eq!(shell.status(), 200);
    assert_eq!(shell.cache_control(), Some("no-cache"));
    assert_eq!(shell.message(), None);
    let missing = serve("index.html", false, false);
    assert_eq!(missing.status(), 503);
    let text = missing.message().expect("text");
    assert!(text.contains("npm --prefix admin"), "{text}");
}

#[test]
fn unknown_asset_is_404_when_built() {
    let answer = serve("no/such/file.js", false, true);
    assert_eq!(answer, UiAnswer::NotFound);
    assert_eq!(answer.status(), 404);
    assert_eq!(answer.message(), Some("no such asset"));
}

#[test]
fn hashed_assets_are_cached_for_good() {
    let answer = serve("_app/immutable/x.js", true, true);
    assert_eq!(
        answer.cache_control(),
        Some("public, max-age=31536000, immutable")
    );
}

#[test]
fn ui_bare_redirects_to_slash() {
    assert_eq!(redirect_to_slash(None), "/ui/");
}

#[test]
fn ui_bare_redirect_preserves_query() {
    assert_eq!(redirect_to_slash(Some("a=1&b=2")), "/ui/?a=1&b=2");
}

#[test]
fn request_ids_are_fresh_uuids() {
    let a = RequestId::new();
    let b = RequestId::new();
    assert_eq!(a.0.len(), 36);
    assert_eq!(a.0.matches('-').count(), 4);
    assert_ne!(a.0, b.0);
}

#[test]
fn routes_are_labelled_by_pattern() {
    assert_eq!(route_label(Some("/v1/models")), "/v1/models");
    assert_eq!(route_label(None), "(unmatched)");
    assert_eq!(healthz()["status"], "ok");
}

#[test]
fn transport_errors_have_their_words() {
    let e = body_error("cut off");
    assert_eq!(e.status, 400);
    assert_eq!(e.message, "failed to read request body: cut off");
    assert_eq!(json_error("x").message, "invalid request JSON: x");
    let e = metrics_error("y");
    assert_eq!(e.status, 500);
    assert_eq!(e.message, "metrics encoding failed: y");
}

#[test]
fn statuses_read_as_words() {
    assert_eq!(WorkerStatus::Starting.text(), "starting");
    assert_eq!(WorkerStatus::Ready.text(), "ready");
    assert_eq!(WorkerStatus::Draining.text(), "draining");
    assert_eq!(
        WorkerStatus::Restarting { attempt: 2 }.text(),
        "restarting (attempt 2)"
    );
    assert_eq!(WorkerStatus::Failed.text(), "failed");
    assert_eq!(WorkerStatus::Stopped.text(), "stopped");
    for (reason, words, label) in [
        (UnloadReason::Evicted, "unloaded (evicted)", "evicted"),
        (UnloadReason::IdleTtl, "unloaded (idle ttl)", "idle_ttl"),
        (UnloadReason::OverBudget, "unloaded (over budget)", "over_budget"),
        (UnloadReason::Admin, "unloaded (admin)", "admin"),
        (UnloadReason::Registered, "unloaded (registered)", "registered"),
    ] {
        assert_eq!(WorkerStatus::Unloaded { reason }.text(), words);
        assert_eq!(reason.label(), label);
    }
}
