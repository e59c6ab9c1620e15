use antigravity_proxy::config::{ProxyConfig, SecurityPolicy, UpstreamProxyConfig, ZaiConfig, ZaiDispatchMode};
use antigravity_proxy::monitor::RequestLog;
use antigravity_proxy::pool::{Account, PoolError, RefreshOutcome, Token};
use antigravity_proxy::service::{ProxyService, ServiceError};
use antigravity_proxy::sticky::StickySessionConfig;

fn account(id: &str, enabled: bool) -> Account {
    Account {
        id: id.to_string(),
        email: format!("{}@example.com", id),
        token: Token { access_token: "t".to_string(), refresh_token: "r".to_string(), expiry_timestamp: 0 },
        quota: None,
        enabled,
        disabled_reason: None,
        disabled_at: None,
    }
}

fn config(zai_mode: ZaiDispatchMode) -> ProxyConfig {
    ProxyConfig {
        port: 8045,
        allow_lan_access: false,
        custom_mapping: vec![("gpt-4".to_string(), "gemini-pro".to_string())],
        request_timeout: 120,
        upstream_proxy: UpstreamProxyConfig { enabled: false, url: String::new() },
        security: SecurityPolicy { require_api_key: false, api_key: String::new() },
        zai: ZaiConfig {
            enabled: true,
            base_url: "https://z.example".to_string(),
            api_key: "k".to_string(),
            dispatch_mode: zai_mode,
        },
        scheduling: StickySessionConfig { enabled: true, ttl_secs: 60, max_bindings: 8 },
        enable_logging: true,
    }
}

#[test]
fn second_start_fails_already_running() {
    let mut svc = ProxyService::new(10);
    assert_eq!(svc.start(config(ZaiDispatchMode::Off), vec![account("a", true)]), Ok(1));
    assert_eq!(
        svc.start(config(ZaiDispatchMode::Off), vec![account("a", true)]),
        Err(ServiceError::AlreadyRunning)
    );
    assert!(svc.is_running());
    assert_eq!(svc.stop(), Ok(()));
    assert_eq!(svc.stop(), Err(ServiceError::NotRunning));
    assert_eq!(svc.start(config(ZaiDispatchMode::Off), vec![account("a", true)]), Ok(1));
}

#[test]
fn start_without_accounts_needs_secondary_backend() {
    let mut svc = ProxyService::new(10);
    assert_eq!(
        svc.start(config(ZaiDispatchMode::Off), vec![account("a", false)]),
        Err(ServiceError::NoAccountsConfigured)
    );
    assert!(!svc.is_running());
    assert_eq!(svc.start(config(ZaiDispatchMode::Fallback), vec![]), Ok(0));
    assert!(svc.is_running());
}

#[test]
fn status_reflects_running_instance() {
    let mut svc = ProxyService::new(10);
    let s = svc.status();
    assert!(!s.running);
    assert_eq!((s.port, s.active_accounts), (0, 0));
    svc.start(config(ZaiDispatchMode::Off), vec![account("a", true), account("b", true), account("c", false)]).unwrap();
    let s = svc.status();
    assert!(s.running);
    assert_eq!((s.port, s.active_accounts), (8045, 2));
    assert_eq!(svc.reload_accounts(vec![account("a", true)]), Ok(1));
    assert_eq!(svc.status().active_accounts, 1);
}

#[test]
fn hot_reload_replaces_mapping_only() {
    let mut svc = ProxyService::new(10);
    assert_eq!(svc.update_mapping(vec![]), Err(ServiceError::NotRunning));
    svc.start(config(ZaiDispatchMode::Off), vec![account("a", true)]).unwrap();
    svc.update_mapping(vec![("m".to_string(), "n".to_string())]).unwrap();
    let live = svc.live_config().unwrap();
    assert_eq!(live.custom_mapping, vec![("m".to_string(), "n".to_string())]);
    assert_eq!(live.request_timeout, 120);
    svc.update_security(SecurityPolicy { require_api_key: true, api_key: "sk-1".to_string() }).unwrap();
    svc.update_proxy(UpstreamProxyConfig { enabled: true, url: "http://p".to_string() }).unwrap();
    svc.update_zai(ZaiConfig { enabled: false, base_url: String::new(), api_key: String::new(), dispatch_mode: ZaiDispatchMode::Off }).unwrap();
    let live = svc.live_config().unwrap();
    assert!(live.security.require_api_key);
    assert!(live.upstream_proxy.enabled);
    assert!(!live.zai.enabled);
    assert_eq!(live.custom_mapping.len(), 1);
}

#[test]
fn session_control_requires_running_service() {
    let mut svc = ProxyService::new(10);
    assert_eq!(svc.clear_all_sessions(), Err(ServiceError::NotRunning));
    assert_eq!(svc.get_sticky_config(), StickySessionConfig::default_policy());
    assert_eq!(svc.resolve_account(&Some("s".to_string()), 0), Err(PoolError::NoEligibleAccount));
    svc.start(config(ZaiDispatchMode::Off), vec![account("a", true), account("b", true)]).unwrap();
    assert_eq!(svc.get_sticky_config().ttl_secs, 60);
    assert_eq!(svc.resolve_account(&Some("s".to_string()), 0), Ok("a".to_string()));
    assert_eq!(svc.resolve_account(&Some("s".to_string()), 1), Ok("a".to_string()));
    assert_eq!(svc.clear_all_sessions(), Ok(()));
    assert_eq!(svc.resolve_account(&Some("s".to_string()), 2), Ok("b".to_string()));
    let p = StickySessionConfig { enabled: false, ttl_secs: 5, max_bindings: 1 };
    assert_eq!(svc.update_sticky_config(p), Ok(()));
    assert_eq!(svc.get_sticky_config(), p);
}

#[test]
fn telemetry_through_service() {
    let mut svc = ProxyService::new(2);
    for i in 0..3u64 {
        svc.record(RequestLog {
            id: i,
            timestamp: 0,
            account_id: None,
            model: Some("m".to_string()),
            status: 200,
            duration_ms: 1,
            request_bytes: 0,
            response_bytes: 0,
        });
    }
    assert_eq!(svc.get_logs(5).len(), 2);
    assert_eq!(svc.get_stats().total_requests, 3);
    svc.set_monitor_enabled(false);
    svc.clear_logs();
    assert_eq!(svc.get_stats().total_requests, 0);
    assert_eq!(config(ZaiDispatchMode::Off).get_bind_address(), "127.0.0.1");
}

#[test]
fn saved_config_applies_live_slices() {
    let mut svc = ProxyService::new(4);
    assert_eq!(svc.apply_live_config(config(ZaiDispatchMode::Off)), Err(ServiceError::NotRunning));
    svc.start(config(ZaiDispatchMode::Off), vec![account("a", true)]).unwrap();
    let mut next = config(ZaiDispatchMode::Exclusive);
    next.port = 1;
    next.custom_mapping = vec![];
    next.security.require_api_key = true;
    assert_eq!(svc.apply_live_config(next), Ok(()));
    let live = svc.live_config().unwrap();
    assert_eq!(live.port, 8045);
    assert!(live.custom_mapping.is_empty());
    assert!(live.security.require_api_key);
    assert_eq!(live.zai.dispatch_mode, ZaiDispatchMode::Exclusive);
}

#[test]
fn refused_start_still_sets_logging_flag() {
    let mut svc = ProxyService::new(4);
    assert!(svc.monitor_enabled());
    let mut cfg = config(ZaiDispatchMode::Off);
    cfg.enable_logging = false;
    assert_eq!(svc.start(cfg, vec![]), Err(ServiceError::NoAccountsConfigured));
    assert!(!svc.is_running());
    assert!(!svc.monitor_enabled());
}

#[test]
fn revoked_refresh_lowers_active_count() {
    let mut svc = ProxyService::new(4);
    svc.start(config(ZaiDispatchMode::Off), vec![account("a", true), account("b", true)]).unwrap();
    assert_eq!(svc.status().active_accounts, 2);
    assert_eq!(svc.apply_refresh(&"a".to_string(), RefreshOutcome::Revoked, 5), Err(PoolError::CredentialRevoked));
    assert_eq!(svc.status().active_accounts, 1);
    let a = svc.find_account(&"a".to_string()).unwrap();
    assert!(!a.enabled);
    assert_eq!(a.disabled_reason.as_deref(), Some("credential revoked"));
    assert!(svc.find_account(&"zz".to_string()).is_none());
    for t in 0..3 {
        assert_eq!(svc.resolve_account(&None, t), Ok("b".to_string()));
    }
}
