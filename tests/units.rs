use ralph_api::auth::{from_config, AuthMeta, RequestMeta, TokenAuthenticator};
use ralph_api::config::{bind_addr_string, ApiConfig, AuthMode};
use ralph_api::idempotency::{IdempotencyCheck, InMemoryIdempotencyStore, StoredResponse};
use ralph_api::preflight::{config_source_label, normalize_checks, validate_checks, ConfigSource, HatsSource};

fn default_config() -> ApiConfig {
    ApiConfig::new(".".to_string())
}

#[test]
fn token_auth_allows_meta_token() {
    let meta = Some(RequestMeta {
        idempotency_key: None,
        auth: Some(AuthMeta { mode: "token".to_string(), token: Some("secret".to_string()) }),
        timeout_ms: None,
        request_ts: None,
    });
    let auth = TokenAuthenticator::new("secret".to_string());
    assert!(auth.authorize(None, &meta).is_ok());
}

#[test]
fn from_config_requires_token_for_token_mode() {
    let mut config = default_config();
    config.auth_mode = AuthMode::Token;
    config.token = None;

    let result = from_config(&config);
    assert!(result.is_err());
}

#[test]
fn defaults_are_localhost_and_trusted_local() {
    let config = default_config();
    assert_eq!(config.host, "127.0.0.1");
    assert_eq!(config.auth_mode, AuthMode::TrustedLocal);
    assert!(config.validate().is_ok());
}

#[test]
fn trusted_local_allows_ipv6_loopback() {
    let mut config = default_config();
    config.host = "::1".to_string();
    assert!(config.validate().is_ok(), "RALPH_API_HOST=::1 must be accepted by trusted_local");
}

#[test]
fn trusted_local_allows_bracketed_ipv6_loopback() {
    let mut config = default_config();
    config.host = "[::1]".to_string();
    assert!(config.validate().is_ok(), "RALPH_API_HOST=[::1] must be accepted by trusted_local");
}

#[test]
fn trusted_local_rejects_non_loopback_hosts() {
    let mut config = default_config();
    config.host = "0.0.0.0".to_string();
    assert!(config.validate().is_err());
}

#[test]
fn token_auth_allows_non_loopback_hosts() {
    let mut config = default_config();
    config.host = "0.0.0.0".to_string();
    config.auth_mode = AuthMode::Token;
    config.token = Some("secret-token".to_string());

    assert!(config.validate().is_ok());
}

#[test]
fn replays_same_method_key_and_params() {
    let mut store = InMemoryIdempotencyStore::new(60_000);
    let params = "{\"value\":1}";
    let response = StoredResponse { status: 200, envelope: "{\"ok\":true}".to_string() };

    assert!(matches!(store.check("task.create", "idem-1", params, 1_000), IdempotencyCheck::New));
    store.store("task.create", "idem-1", params, &response, 1_000);
    let replay = store.check("task.create", "idem-1", params, 2_000);
    match replay {
        IdempotencyCheck::Replay(actual) => assert_eq!(actual.envelope, response.envelope),
        _ => panic!("expected replay"),
    }
}

#[test]
fn detects_conflict_for_same_key_with_different_params() {
    let mut store = InMemoryIdempotencyStore::new(60_000);
    store.store(
        "task.create",
        "idem-2",
        "{\"value\":1}",
        &StoredResponse { status: 200, envelope: "{\"ok\":true}".to_string() },
        1_000,
    );

    assert!(matches!(
        store.check("task.create", "idem-2", "{\"value\":2}", 1_500),
        IdempotencyCheck::Conflict
    ));
}

#[test]
fn ipv4_loopback_formats_without_brackets() {
    assert_eq!(bind_addr_string("127.0.0.1", 3000), "127.0.0.1:3000");
}

#[test]
fn hostname_formats_without_brackets() {
    assert_eq!(bind_addr_string("localhost", 8080), "localhost:8080");
}

#[test]
fn ipv6_loopback_wraps_in_brackets() {
    assert_eq!(bind_addr_string("::1", 3000), "[::1]:3000");
}

#[test]
fn ipv6_any_wraps_in_brackets() {
    assert_eq!(bind_addr_string("::", 3000), "[::]:3000");
}

#[test]
fn ipv6_full_address_wraps_in_brackets() {
    assert_eq!(bind_addr_string("2001:db8::1", 443), "[2001:db8::1]:443");
}

#[test]
fn pre_bracketed_ipv6_does_not_double_wrap() {
    assert_eq!(bind_addr_string("[::1]", 3000), "[::1]:3000");
}

#[test]
fn normalize_checks_lowercases() {
    let checks = vec!["Config".to_string(), "BaCkEnD".to_string()];
    let normalized = normalize_checks(&checks);
    assert_eq!(normalized, vec!["config", "backend"]);
}

#[test]
fn config_source_label_handles_sources() {
    let file_label = config_source_label(&[ConfigSource::File("/tmp/ralph.yml".to_string())].to_vec(), None);
    assert_eq!(file_label, "/tmp/ralph.yml");

    let builtin_label = config_source_label(&vec![ConfigSource::Builtin("starter".to_string())], None);
    assert_eq!(builtin_label, "builtin:starter");

    let remote_label =
        config_source_label(&vec![ConfigSource::Remote("https://example.com/ralph.yml".to_string())], None);
    assert_eq!(remote_label, "https://example.com/ralph.yml");

    let override_label = config_source_label(
        &vec![ConfigSource::Override { key: "core.scratchpad".to_string(), value: "x".to_string() }],
        None,
    );
    assert_eq!(override_label, "ralph.yml");

    let with_hats_label = config_source_label(
        &vec![ConfigSource::File("ralph.yml".to_string())],
        Some(&HatsSource::Builtin("feature".to_string())),
    );
    assert_eq!(with_hats_label, "ralph.yml + hats:builtin:feature");
}

#[test]
fn check_names_match_without_case() {
    let available = vec!["config".to_string(), "backend".to_string(), "tools".to_string()];
    assert!(validate_checks(&available, &vec!["Config".to_string(), "BACKEND".to_string()]).is_ok());
    assert!(validate_checks(&available, &vec![]).is_ok());
}

#[test]
fn unknown_check_names_are_reported() {
    let available = vec!["config".to_string(), "backend".to_string()];
    let err = validate_checks(&available, &vec!["nope".to_string(), "config".to_string(), "zap".to_string()]).unwrap_err();
    assert_eq!(err, "Unknown check(s): nope, zap. Available checks: config, backend");
}

fn default_check_names() -> Vec<String> {
    vec!["config".to_string(), "backend".to_string(), "tools".to_string(), "specs".to_string()]
}

#[test]
fn validate_checks_accepts_known() {
    let checks = vec!["config".to_string(), "backend".to_string()];
    assert!(validate_checks(&default_check_names(), &checks).is_ok());
}

#[test]
fn validate_checks_rejects_unknown() {
    let checks = vec!["nope".to_string()];
    let err = validate_checks(&default_check_names(), &checks).unwrap_err();
    assert!(err.contains("Unknown check(s)"));
}
