use antigravity_proxy::pool::{Account, AccountPool, PoolError, Token};
use antigravity_proxy::sticky::{StickyRouter, StickySessionConfig};

fn account(id: &str) -> Account {
    Account {
        id: id.to_string(),
        email: format!("{}@example.com", id),
        token: Token { access_token: "t".to_string(), refresh_token: "r".to_string(), expiry_timestamp: 0 },
        quota: None,
        enabled: true,
        disabled_reason: None,
        disabled_at: None,
    }
}

fn policy(ttl: u64, max: usize) -> StickySessionConfig {
    StickySessionConfig { enabled: true, ttl_secs: ttl, max_bindings: max }
}

fn key(s: &str) -> Option<String> {
    Some(s.to_string())
}

#[test]
fn session_key_keeps_its_account() {
    let mut pool = AccountPool::new();
    pool.load(vec![account("a"), account("b"), account("c")]);
    let mut router = StickyRouter::new(policy(100, 10));
    let first = router.resolve(&key("s1"), &mut pool, 0).unwrap();
    for t in 1..20 {
        assert_eq!(router.resolve(&key("s1"), &mut pool, t).unwrap(), first);
    }
    // other sessions still rotate
    let other = router.resolve(&key("s2"), &mut pool, 5).unwrap();
    assert_ne!(other, first);
}

#[test]
fn ineligible_bound_account_is_replaced() {
    let mut pool = AccountPool::new();
    pool.load(vec![account("a"), account("b")]);
    let mut router = StickyRouter::new(policy(100, 10));
    assert_eq!(router.resolve(&key("s1"), &mut pool, 0), Ok("a".to_string()));
    pool.mark_ineligible(&"a".to_string(), "auth".to_string(), 1);
    let next = router.resolve(&key("s1"), &mut pool, 2).unwrap();
    assert_eq!(next, "b");
    assert_eq!(router.bound_account(&"s1".to_string()), Some("b".to_string()));
    assert_eq!(router.resolve(&key("s1"), &mut pool, 3), Ok("b".to_string()));
}

#[test]
fn clear_all_sessions_rebinds_by_rotation() {
    let mut pool = AccountPool::new();
    pool.load(vec![account("a"), account("b")]);
    let mut router = StickyRouter::new(policy(100, 10));
    assert_eq!(router.resolve(&key("s1"), &mut pool, 0), Ok("a".to_string()));
    router.clear_all();
    assert_eq!(router.len(), 0);
    assert_eq!(router.resolve(&key("s1"), &mut pool, 1), Ok("b".to_string()));
}

#[test]
fn idle_binding_lapses_after_ttl() {
    let mut pool = AccountPool::new();
    pool.load(vec![account("a"), account("b")]);
    let mut router = StickyRouter::new(policy(10, 10));
    assert_eq!(router.resolve(&key("s1"), &mut pool, 0), Ok("a".to_string()));
    assert_eq!(router.resolve(&key("s1"), &mut pool, 10), Ok("a".to_string()));
    assert_eq!(router.resolve(&key("s1"), &mut pool, 21), Ok("b".to_string()));
}

#[test]
fn no_session_key_always_rotates() {
    let mut pool = AccountPool::new();
    pool.load(vec![account("a"), account("b")]);
    let mut router = StickyRouter::new(policy(10, 10));
    assert_eq!(router.resolve(&None, &mut pool, 0), Ok("a".to_string()));
    assert_eq!(router.resolve(&None, &mut pool, 0), Ok("b".to_string()));
    assert_eq!(router.len(), 0);
}

#[test]
fn disabled_stickiness_ignores_bindings() {
    let mut pool = AccountPool::new();
    pool.load(vec![account("a"), account("b")]);
    let mut router = StickyRouter::new(policy(100, 10));
    assert_eq!(router.resolve(&key("s1"), &mut pool, 0), Ok("a".to_string()));
    router.configure(StickySessionConfig { enabled: false, ttl_secs: 100, max_bindings: 10 });
    assert_eq!(router.resolve(&key("s1"), &mut pool, 1), Ok("b".to_string()));
    assert_eq!(router.resolve(&key("s1"), &mut pool, 2), Ok("a".to_string()));
}

#[test]
fn capacity_evicts_least_recently_used() {
    let mut pool = AccountPool::new();
    pool.load(vec![account("a"), account("b"), account("c")]);
    let mut router = StickyRouter::new(policy(1000, 2));
    router.resolve(&key("k1"), &mut pool, 0).unwrap();
    router.resolve(&key("k2"), &mut pool, 1).unwrap();
    router.resolve(&key("k1"), &mut pool, 2).unwrap();
    router.resolve(&key("k3"), &mut pool, 3).unwrap();
    assert_eq!(router.len(), 2);
    assert!(router.bound_account(&"k2".to_string()).is_none());
    assert!(router.bound_account(&"k1".to_string()).is_some());
    router.configure(policy(1000, 1));
    assert_eq!(router.len(), 1);
    assert!(router.bound_account(&"k3".to_string()).is_some());
}

#[test]
fn empty_pool_reports_no_eligible_account() {
    let mut pool = AccountPool::new();
    let mut router = StickyRouter::new(StickySessionConfig::default_policy());
    assert_eq!(router.resolve(&key("s"), &mut pool, 0), Err(PoolError::NoEligibleAccount));
    assert_eq!(router.get_config().ttl_secs, 3600);
}
