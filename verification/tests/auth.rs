use kiln_gateway::auth::hash_key;
use kiln_gateway::auth::key_of_line;
use kiln_gateway::auth::presented_key;
use kiln_gateway::auth::Auth;
use kiln_gateway::auth::HashKeyError;
use kiln_gateway::config::ApiKeyConfig;
use kiln_gateway::config::AuthConfig;

const SALT: &str = "c29tZXNhbHRzb21lc2FsdA";

fn hash(key: &str) -> String {
    hash_key(key, SALT).expect("hashing works")
}

fn key(name: &str, key_hash: String) -> ApiKeyConfig {
    ApiKeyConfig {
        name: name.to_string(),
        key_hash,
        rpm: None,
        tpm: None,
    }
}

#[test]
fn verifies_and_caches() {
    let mut auth = Auth::from_config(&AuthConfig {
        admin_token_hash: None,
        api_keys: vec![key("alice", hash("s3cret"))],
    });
    assert!(auth.enabled());
    assert_eq!(auth.verify("s3cret").as_deref(), Some("alice"));
    assert_eq!(auth.cache.len(), 1);
    // Second call hits the cache (still must succeed).
    assert_eq!(auth.verify("s3cret").as_deref(), Some("alice"));
    assert_eq!(auth.cache.len(), 1);
    assert_eq!(auth.verify("wrong"), None);
}

#[test]
fn admin_token_verifies_and_api_keys_never_grant_admin() {
    let mut auth = Auth::from_config(&AuthConfig {
        admin_token_hash: Some(hash("admin-secret")),
        api_keys: vec![key("alice", hash("s3cret"))],
    });
    assert!(auth.admin_enabled());
    assert!(auth.verify_admin("admin-secret"));
    assert!(auth.verify_admin("admin-secret")); // cached path
    assert!(!auth.verify_admin("wrong"));
    // A valid API key is not an admin token.
    assert!(!auth.verify_admin("s3cret"));
    // And the admin token is not an API key.
    assert_eq!(auth.verify("admin-secret"), None);
}

#[test]
fn missing_empty_or_malformed_admin_hash_disables_admin() {
    for hash in [None, Some(String::new()), Some("not-a-phc".to_string())] {
        let mut auth = Auth::from_config(&AuthConfig {
            admin_token_hash: hash,
            api_keys: vec![],
        });
        assert!(!auth.admin_enabled());
        assert!(!auth.verify_admin("anything"));
    }
}

#[test]
fn empty_and_malformed_hashes_disable_auth() {
    let auth = Auth::from_config(&AuthConfig {
        admin_token_hash: None,
        api_keys: vec![
            key("empty", String::new()),
            key("garbage", "not-a-phc-string".to_string()),
        ],
    });
    assert!(!auth.enabled());
}

#[test]
fn admin_is_fail_closed_without_a_configured_token() {
    let mut auth = Auth::from_config(&AuthConfig::default());
    let e = auth
        .authorize_admin(Some("admin-token"))
        .expect_err("disabled");
    assert_eq!(e.status, 403);
    assert_eq!(e.code, "admin_disabled");
}

#[test]
fn admin_rejects_missing_and_wrong_tokens() {
    let mut auth = Auth::from_config(&AuthConfig {
        admin_token_hash: Some(hash("admin-token")),
        api_keys: vec![],
    });
    for token in [None, Some("wrong")] {
        assert_eq!(auth.authorize_admin(token).expect_err("401").status, 401);
    }
    assert!(auth.authorize_admin(Some("admin-token")).is_ok());
}

#[test]
fn requests_authenticate_by_name() {
    let mut auth = Auth::from_config(&AuthConfig {
        admin_token_hash: None,
        api_keys: vec![key("a", hash("one")), key("b", hash("two"))],
    });
    assert_eq!(
        auth.authenticate(Some("two")).expect("stored"),
        Some("b".to_string())
    );
    let e = auth.authenticate(None).expect_err("missing");
    assert_eq!(e.status, 401);
    assert_eq!(e.code, "invalid_api_key");
    assert_eq!(auth.authenticate(Some("three")).expect_err("wrong").status, 401);
    // Disabled: everyone is let in, nameless.
    let mut open = Auth::from_config(&AuthConfig::default());
    assert_eq!(open.authenticate(None).expect("open"), None);
}

#[test]
fn keys_are_presented_in_either_header() {
    assert_eq!(
        presented_key(Some("Bearer k1"), Some("k2")).as_deref(),
        Some("k1")
    );
    assert_eq!(
        presented_key(Some("Basic zzz"), Some("k2")).as_deref(),
        Some("k2")
    );
    assert_eq!(presented_key(None, Some("k2")).as_deref(), Some("k2"));
    assert_eq!(presented_key(Some("bearer k1"), None), None);
}

#[test]
fn keys_are_hashed_for_the_configuration() {
    assert_eq!(key_of_line("s3cret\r\n"), "s3cret");
    assert_eq!(key_of_line(" s p \n\n"), " s p ");
    let phc = hash("s3cret");
    assert!(phc.starts_with("$argon2"), "{phc}");
    assert_eq!(hash("s3cret"), phc);
    assert_ne!(hash("other"), phc);
    assert_eq!(hash_key("", SALT), Err(HashKeyError::Empty));
    assert_eq!(hash_key("k", "!"), Err(HashKeyError::Hashing));
}

#[test]
fn hashes_with_too_many_lanes_match_nothing() {
    let stored = hash("s3cret");
    let mut api_keys = vec![];
    for lanes in ["p=16777216", "p=536870911", "p=536870912", "p=4294967295", "p=1,p=4294967295"] {
        let wide = stored.replace("p=1", lanes);
        assert_ne!(wide, stored);
        let mut auth = Auth::from_config(&AuthConfig {
            admin_token_hash: Some(wide.clone()),
            api_keys: vec![],
        });
        assert!(!auth.verify_admin("s3cret"));
        assert!(auth.authorize_admin(Some("s3cret")).is_err());
        api_keys.push(key("wide", wide));
    }
    // A key behind them is still found.
    api_keys.push(key("alice", stored));
    let mut auth = Auth::from_config(&AuthConfig {
        admin_token_hash: None,
        api_keys,
    });
    assert_eq!(auth.verify("s3cret").as_deref(), Some("alice"));
    assert_eq!(auth.verify("wrong"), None);
}
