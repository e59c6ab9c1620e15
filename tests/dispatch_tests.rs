use antigravity_proxy::config::{SecurityPolicy, ZaiConfig, ZaiDispatchMode};
use antigravity_proxy::dispatch::{
    authorize, classify_status, map_model, next_step, target_after_selection, DispatchAttempt, DispatchTarget, Outcome, Step,
    MAX_RETRIES,
};
use antigravity_proxy::pool::{Account, AccountPool, PoolError, Token};

fn account(id: &str) -> Account {
    Account {
        id: id.to_string(),
        email: String::new(),
        token: Token { access_token: "t".to_string(), refresh_token: "r".to_string(), expiry_timestamp: 0 },
        quota: None,
        enabled: true,
        disabled_reason: None,
        disabled_at: None,
    }
}

fn zai(enabled: bool, mode: ZaiDispatchMode) -> ZaiConfig {
    ZaiConfig { enabled, base_url: "u".to_string(), api_key: "k".to_string(), dispatch_mode: mode }
}

#[test]
fn status_classification() {
    assert_eq!(classify_status(200), Outcome::Success);
    assert_eq!(classify_status(301), Outcome::Success);
    assert_eq!(classify_status(401), Outcome::AuthFailure);
    assert_eq!(classify_status(403), Outcome::AuthFailure);
    assert_eq!(classify_status(429), Outcome::RateLimited);
    assert_eq!(classify_status(500), Outcome::UpstreamError);
    assert_eq!(classify_status(404), Outcome::UpstreamError);
}

#[test]
fn retry_decisions() {
    assert_eq!(next_step(Outcome::Success, 0), Step::Deliver);
    assert_eq!(next_step(Outcome::UpstreamError, 2), Step::Surface);
    assert_eq!(next_step(Outcome::NetworkError, 1), Step::RetryAnother);
    assert_eq!(next_step(Outcome::NetworkError, 0), Step::Surface);
    assert_eq!(next_step(Outcome::RateLimited, 2), Step::RetryAnother);
}

#[test]
fn attempt_penalises_and_excludes() {
    let mut pool = AccountPool::new();
    pool.load(vec![account("a"), account("b"), account("c")]);
    let mut attempt = DispatchAttempt::new();
    assert_eq!(attempt.retries_left(), MAX_RETRIES);
    assert_eq!(attempt.report(&mut pool, "a".to_string(), Outcome::AuthFailure, 9), Step::RetryAnother);
    assert!(!pool.is_eligible(&"a".to_string()));
    assert_eq!(pool.accounts()[0].disabled_reason.as_deref(), Some("upstream rejected credential"));
    assert_eq!(attempt.report(&mut pool, "b".to_string(), Outcome::RateLimited, 9), Step::RetryAnother);
    assert!(!pool.is_eligible(&"b".to_string()));
    assert_eq!(attempt.excluded(), &vec!["a".to_string(), "b".to_string()]);
    assert_eq!(attempt.select_retry(&mut pool), Ok("c".to_string()));
    assert_eq!(attempt.report(&mut pool, "c".to_string(), Outcome::NetworkError, 9), Step::Surface);
    assert!(pool.is_eligible(&"c".to_string()));
    assert_eq!(attempt.retries_left(), 0);
}

#[test]
fn retry_excludes_tried_accounts() {
    let mut pool = AccountPool::new();
    pool.load(vec![account("a")]);
    let mut attempt = DispatchAttempt::new();
    assert_eq!(attempt.report(&mut pool, "a".to_string(), Outcome::CredentialFailure, 0), Step::RetryAnother);
    assert_eq!(attempt.select_retry(&mut pool), Err(PoolError::NoEligibleAccount));
}

#[test]
fn model_mapping_first_match_wins() {
    let m = vec![
        ("a".to_string(), "x".to_string()),
        ("a".to_string(), "y".to_string()),
        ("b".to_string(), "z".to_string()),
    ];
    assert_eq!(map_model(&m, &"a".to_string()), "x");
    assert_eq!(map_model(&m, &"b".to_string()), "z");
    assert_eq!(map_model(&m, &"c".to_string()), "c");
    assert_eq!(map_model(&vec![], &"c".to_string()), "c");
}

#[test]
fn access_key_policy() {
    let open = SecurityPolicy { require_api_key: false, api_key: "sk-1".to_string() };
    let closed = SecurityPolicy { require_api_key: true, api_key: "sk-1".to_string() };
    assert!(authorize(&open, &None));
    assert!(!authorize(&closed, &None));
    assert!(!authorize(&closed, &Some("sk-2".to_string())));
    assert!(authorize(&closed, &Some("sk-1".to_string())));
}

#[test]
fn secondary_backend_targeting() {
    let exclusive = zai(true, ZaiDispatchMode::Exclusive);
    assert!(matches!(target_after_selection(&exclusive, Ok("a".to_string())), Ok(DispatchTarget::Secondary)));
    let fallback = zai(true, ZaiDispatchMode::Fallback);
    assert!(matches!(target_after_selection(&fallback, Ok("a".to_string())), Ok(DispatchTarget::Primary(ref id)) if id == "a"));
    assert!(matches!(target_after_selection(&fallback, Err(PoolError::NoEligibleAccount)), Ok(DispatchTarget::Secondary)));
    let off = zai(true, ZaiDispatchMode::Off);
    assert!(matches!(
        target_after_selection(&off, Err(PoolError::NoEligibleAccount)),
        Err(PoolError::NoEligibleAccount)
    ));
    let disabled = zai(false, ZaiDispatchMode::Exclusive);
    assert!(matches!(target_after_selection(&disabled, Ok("b".to_string())), Ok(DispatchTarget::Primary(_))));
}
