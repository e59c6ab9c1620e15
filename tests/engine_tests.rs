use antigravity_proxy::config::{ProxyConfig, SecurityPolicy, UpstreamProxyConfig, ZaiConfig, ZaiDispatchMode};
use antigravity_proxy::dispatch::{DispatchAttempt, Outcome, Step};
use antigravity_proxy::engine::{after_refresh, after_upstream, next_plan, AttemptPlan};
use antigravity_proxy::pool::{Account, RefreshOutcome, Token};
use antigravity_proxy::service::ProxyService;
use antigravity_proxy::sticky::StickySessionConfig;

fn account(id: &str, expiry: i64) -> Account {
    Account {
        id: id.to_string(),
        email: String::new(),
        token: Token { access_token: format!("at-{}", id), refresh_token: format!("rt-{}", id), expiry_timestamp: expiry },
        quota: None,
        enabled: true,
        disabled_reason: None,
        disabled_at: None,
    }
}

fn config(mode: ZaiDispatchMode) -> ProxyConfig {
    ProxyConfig {
        port: 1,
        allow_lan_access: true,
        custom_mapping: vec![],
        request_timeout: 30,
        upstream_proxy: UpstreamProxyConfig { enabled: false, url: String::new() },
        security: SecurityPolicy { require_api_key: false, api_key: String::new() },
        zai: ZaiConfig { enabled: true, base_url: "https://z".to_string(), api_key: "k".to_string(), dispatch_mode: mode },
        scheduling: StickySessionConfig { enabled: true, ttl_secs: 100, max_bindings: 4 },
        enable_logging: true,
    }
}

fn forward_account(p: &AttemptPlan) -> Option<String> {
    match p {
        AttemptPlan::Forward { account, .. } => Some(account.clone()),
        _ => None,
    }
}

#[test]
fn plan_forwards_with_fresh_token_then_retries_elsewhere() {
    let mut svc = ProxyService::new(10);
    svc.start(config(ZaiDispatchMode::Off), vec![account("a", 10_000), account("b", 10_000)]).unwrap();
    let mut attempt = DispatchAttempt::new();
    let session = Some("s1".to_string());
    let plan = next_plan(&mut svc, &mut attempt, &session, 0);
    match &plan {
        AttemptPlan::Forward { account, access_token } => {
            assert_eq!(account, "a");
            assert_eq!(access_token, "at-a");
        }
        _ => panic!("expected a forward plan"),
    }
    assert_eq!(after_upstream(&mut svc, &mut attempt, Some("a".to_string()), Outcome::RateLimited, 0), Step::RetryAnother);
    let retry = next_plan(&mut svc, &mut attempt, &session, 0);
    assert_eq!(forward_account(&retry), Some("b".to_string()));
    assert_eq!(after_upstream(&mut svc, &mut attempt, Some("b".to_string()), Outcome::UpstreamError, 0), Step::Surface);
}

#[test]
fn plan_asks_for_refresh_of_expiring_token() {
    let mut svc = ProxyService::new(10);
    svc.start(config(ZaiDispatchMode::Off), vec![account("a", 30)]).unwrap();
    let mut attempt = DispatchAttempt::new();
    let plan = next_plan(&mut svc, &mut attempt, &None, 0);
    let (acct, rt) = match plan {
        AttemptPlan::Refresh { account, refresh_token } => (account, refresh_token),
        _ => panic!("expected a refresh plan"),
    };
    assert_eq!(rt, "rt-a");
    let next = after_refresh(
        &mut svc,
        &mut attempt,
        &None,
        acct,
        RefreshOutcome::Refreshed { access_token: "new".to_string(), refresh_token: None, expires_in: 3600 },
        0,
    );
    match next {
        AttemptPlan::Forward { access_token, .. } => assert_eq!(access_token, "new"),
        _ => panic!("expected a forward plan"),
    }
}

#[test]
fn revoked_refresh_moves_to_next_account_or_gives_up() {
    let mut svc = ProxyService::new(10);
    svc.start(config(ZaiDispatchMode::Off), vec![account("a", 0), account("b", 10_000)]).unwrap();
    let mut attempt = DispatchAttempt::new();
    let plan = next_plan(&mut svc, &mut attempt, &None, 0);
    let acct = match plan {
        AttemptPlan::Refresh { account, .. } => account,
        _ => panic!("expected a refresh plan"),
    };
    let next = after_refresh(&mut svc, &mut attempt, &None, acct, RefreshOutcome::Revoked, 0);
    assert_eq!(forward_account(&next), Some("b".to_string()));
    assert_eq!(svc.status().active_accounts, 1);
}

#[test]
fn secondary_backend_plans() {
    let mut svc = ProxyService::new(10);
    svc.start(config(ZaiDispatchMode::Exclusive), vec![account("a", 10_000)]).unwrap();
    let mut attempt = DispatchAttempt::new();
    assert!(matches!(next_plan(&mut svc, &mut attempt, &None, 0), AttemptPlan::Secondary));
    assert_eq!(after_upstream(&mut svc, &mut attempt, None, Outcome::NetworkError, 0), Step::Surface);

    let mut fallback = ProxyService::new(10);
    fallback.start(config(ZaiDispatchMode::Fallback), vec![]).unwrap();
    let mut attempt = DispatchAttempt::new();
    assert!(matches!(next_plan(&mut fallback, &mut attempt, &None, 0), AttemptPlan::Secondary));
}

#[test]
fn stopped_service_is_unavailable() {
    let mut svc = ProxyService::new(10);
    let mut attempt = DispatchAttempt::new();
    assert!(matches!(next_plan(&mut svc, &mut attempt, &None, 0), AttemptPlan::Unavailable));
    assert!(attempt.is_started());
}
