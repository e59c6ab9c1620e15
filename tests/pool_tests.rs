use antigravity_proxy::pool::{Account, AccountPool, PoolError, QuotaSnapshot, RefreshOutcome, Token, TokenCheck};

fn account(id: &str, enabled: bool, forbidden: bool) -> Account {
    Account {
        id: id.to_string(),
        email: format!("{}@example.com", id),
        token: Token {
            access_token: format!("access-{}", id),
            refresh_token: format!("refresh-{}", id),
            expiry_timestamp: 10_000,
        },
        quota: if forbidden { Some(QuotaSnapshot { used: 10, limit: 10, forbidden: true }) } else { None },
        enabled,
        disabled_reason: None,
        disabled_at: None,
    }
}

#[test]
fn disabled_account_is_never_selected() {
    let mut pool = AccountPool::new();
    let n = pool.load(vec![account("a", true, false), account("b", false, false)]);
    assert_eq!(n, 1);
    for _ in 0..5 {
        assert_eq!(pool.select_next(&vec![]), Ok("a".to_string()));
    }
    assert!(pool.mark_ineligible(&"a".to_string(), "manual".to_string(), 5));
    assert_eq!(pool.select_next(&vec![]), Err(PoolError::NoEligibleAccount));
}

#[test]
fn forbidden_and_excluded_accounts_are_skipped() {
    let mut pool = AccountPool::new();
    pool.load(vec![account("a", true, true), account("b", true, false), account("c", true, false)]);
    assert_eq!(pool.count(), 2);
    for _ in 0..4 {
        let picked = pool.select_next(&vec!["c".to_string()]).unwrap();
        assert_eq!(picked, "b");
    }
    assert_eq!(
        pool.select_next(&vec!["b".to_string(), "c".to_string()]),
        Err(PoolError::NoEligibleAccount)
    );
}

#[test]
fn selection_rotates_round_robin() {
    let mut pool = AccountPool::new();
    pool.load(vec![account("a", true, false), account("b", true, false), account("c", true, false)]);
    let picks: Vec<String> = (0..6).map(|_| pool.select_next(&vec![]).unwrap()).collect();
    assert_eq!(picks, vec!["a", "b", "c", "a", "b", "c"]);
}

#[test]
fn load_keeps_first_record_of_each_id() {
    let mut pool = AccountPool::new();
    let n = pool.load(vec![account("a", true, false), account("a", false, false), account("b", false, false)]);
    assert_eq!(n, 1);
    assert_eq!(pool.accounts().len(), 2);
    assert!(pool.accounts()[0].enabled);
    assert!(pool.is_eligible(&"a".to_string()));
    assert!(!pool.is_eligible(&"b".to_string()));
    assert!(!pool.is_eligible(&"zzz".to_string()));
}

#[test]
fn revoked_refresh_disables_account() {
    let mut pool = AccountPool::new();
    pool.load(vec![account("a", true, false), account("b", true, false)]);
    assert_eq!(pool.count(), 2);
    let r = pool.apply_refresh(&"a".to_string(), RefreshOutcome::Revoked, 77);
    assert_eq!(r, Err(PoolError::CredentialRevoked));
    assert_eq!(pool.count(), 1);
    let a = &pool.accounts()[0];
    assert!(!a.enabled);
    assert_eq!(a.disabled_reason.as_deref(), Some("credential revoked"));
    assert_eq!(a.disabled_at, Some(77));
    for _ in 0..3 {
        assert_eq!(pool.select_next(&vec![]), Ok("b".to_string()));
    }
}

#[test]
fn refresh_success_replaces_access_token_only() {
    let mut pool = AccountPool::new();
    pool.load(vec![account("a", true, false)]);
    let r = pool.apply_refresh(
        &"a".to_string(),
        RefreshOutcome::Refreshed { access_token: "new".to_string(), refresh_token: None, expires_in: 3600 },
        1000,
    );
    assert_eq!(r, Ok("new".to_string()));
    let t = &pool.accounts()[0].token;
    assert_eq!(t.access_token, "new");
    assert_eq!(t.refresh_token, "refresh-a");
    assert_eq!(t.expiry_timestamp, 4600);
    assert_eq!(pool.apply_refresh(&"a".to_string(), RefreshOutcome::Failed, 1000), Err(PoolError::RefreshFailed));
    assert_eq!(pool.apply_refresh(&"x".to_string(), RefreshOutcome::Failed, 1000), Err(PoolError::UnknownAccount));
}

#[test]
fn token_check_uses_sixty_second_margin() {
    let mut pool = AccountPool::new();
    pool.load(vec![account("a", true, false)]);
    match pool.token_check(&"a".to_string(), 9_939).unwrap() {
        TokenCheck::Fresh(t) => assert_eq!(t, "access-a"),
        TokenCheck::NeedsRefresh(_) => panic!("token should be fresh"),
    }
    match pool.token_check(&"a".to_string(), 9_940).unwrap() {
        TokenCheck::NeedsRefresh(t) => assert_eq!(t, "refresh-a"),
        TokenCheck::Fresh(_) => panic!("token should need a refresh"),
    }
    assert!(matches!(pool.token_check(&"b".to_string(), 0), Err(PoolError::UnknownAccount)));
}

#[test]
fn forbidden_quota_leaves_rotation() {
    let mut pool = AccountPool::new();
    pool.load(vec![account("a", true, false), account("b", true, false)]);
    assert!(pool.mark_forbidden(&"a".to_string()));
    assert_eq!(pool.count(), 1);
    assert_eq!(pool.accounts()[0].quota, Some(QuotaSnapshot { used: 0, limit: 0, forbidden: true }));
    assert!(pool.update_quota(&"a".to_string(), QuotaSnapshot { used: 1, limit: 5, forbidden: false }));
    assert_eq!(pool.count(), 2);
    assert!(pool.mark_ineligible(&"b".to_string(), "x".to_string(), 1));
    assert!(pool.mark_enabled(&"b".to_string()));
    assert_eq!(pool.count(), 2);
    assert!(!pool.mark_enabled(&"q".to_string()));
}
