use antigravity_proxy::cli::{parse_args, parse_port, str_eq};
use antigravity_proxy::control::needs_sync;
use antigravity_proxy::models::{extract_model_ids, model_list, normalize_model_ids, str_less, ModelItem, ModelsField, ModelsPayload};
use antigravity_proxy::oauth::{authorized_account, CallbackError};
use antigravity_proxy::pool::{Account, AccountPool, QuotaFetchOutcome, QuotaSnapshot, RefreshStats, Token};
use antigravity_proxy::version::update_info;

fn s(x: &str) -> String {
    x.to_string()
}

fn account(id: &str, enabled: bool, forbidden: bool) -> Account {
    Account {
        id: s(id),
        email: format!("{}@example.com", id),
        token: Token { access_token: s("t"), refresh_token: format!("r-{}", id), expiry_timestamp: 0 },
        quota: Some(QuotaSnapshot { used: 0, limit: 1, forbidden }),
        enabled,
        disabled_reason: None,
        disabled_at: None,
    }
}

#[test]
fn model_ids_from_object_payload() {
    let p = ModelsPayload::Object {
        data: Some(vec![
            ModelItem::Entry { id: Some(s("glm-4")), name: Some(s("ignored")) },
            ModelItem::Entry { id: None, name: Some(s("glm-3")) },
            ModelItem::Other,
            ModelItem::Text(s("raw")),
        ]),
        models: Some(ModelsField::Single(ModelItem::Text(s("single")))),
    };
    assert_eq!(extract_model_ids(&p), vec![s("glm-4"), s("glm-3"), s("raw"), s("single")]);
    let list = ModelsPayload::List(vec![ModelItem::Text(s("b")), ModelItem::Entry { id: None, name: None }]);
    assert_eq!(extract_model_ids(&list), vec![s("b")]);
    assert!(extract_model_ids(&ModelsPayload::Other).is_empty());
    let none = ModelsPayload::Object { data: None, models: Some(ModelsField::List(vec![ModelItem::Text(s("m"))])) };
    assert_eq!(extract_model_ids(&none), vec![s("m")]);
}

#[test]
fn model_list_sorted_unique_without_blanks() {
    let p = ModelsPayload::List(vec![
        ModelItem::Text(s("glm-4.5")),
        ModelItem::Text(s("  ")),
        ModelItem::Text(s("glm-4")),
        ModelItem::Text(s("glm-4.5")),
        ModelItem::Text(s("")),
        ModelItem::Text(s("Glm")),
    ]);
    assert_eq!(model_list(&p), vec![s("Glm"), s("glm-4"), s("glm-4.5")]);
    assert_eq!(normalize_model_ids(vec![s("b"), s("a"), s("b"), s("ab")]), vec![s("a"), s("ab"), s("b")]);
    assert!(str_less("a", "ab"));
    assert!(!str_less("b", "ab"));
    assert!(!str_less("x", "x"));
}

#[test]
fn cli_options() {
    let a = parse_args(&vec![s("--port"), s("9000"), s("-d"), s("/data"), s("--host"), s("127.0.0.1"), s("extra")]);
    assert_eq!(a.port, 9000);
    assert_eq!(a.host, "127.0.0.1");
    assert_eq!(a.static_dir, "./dist");
    assert_eq!(a.data_dir.as_deref(), Some("/data"));
    assert!(!a.show_help);
    let b = parse_args(&vec![s("-p"), s("99999"), s("-s"), s("./web")]);
    assert_eq!(b.port, 8765);
    assert_eq!(b.static_dir, "./web");
    let c = parse_args(&vec![s("--help"), s("--port"), s("1")]);
    assert!(c.show_help);
    assert_eq!(c.port, 8765);
    let d = parse_args(&vec![s("--host")]);
    assert_eq!(d.host, "0.0.0.0");
    assert_eq!(parse_port("+80"), Some(80));
    assert_eq!(parse_port("-1"), None);
    assert_eq!(parse_port("65536"), None);
    assert!(str_eq("ab", "ab"));
    assert!(!str_eq("ab", "abc"));
}

#[test]
fn update_info_fields() {
    let u = update_info("v3.4.0", "3.3.9", None);
    assert!(u.has_update);
    assert_eq!(u.latest_version, "v3.4.0");
    assert_eq!(u.current_version, "v3.3.9");
    assert_eq!(u.download_url, "https://github.com/lbjlaq/Antigravity-Manager/releases");
    let v = update_info("v3.3.9", "3.3.9", Some(s("https://example.com/r")));
    assert!(!v.has_update);
    assert_eq!(v.download_url, "https://example.com/r");
}

#[test]
fn account_after_authorization() {
    let a = authorized_account(s("id1"), s("e@x"), s("acc"), Some(s("ref")), 3600, 100).unwrap();
    assert_eq!(a.id, "id1");
    assert_eq!(a.token.refresh_token, "ref");
    assert_eq!(a.token.expiry_timestamp, 3700);
    assert!(a.enabled);
    assert!(matches!(
        authorized_account(s("id1"), s("e@x"), s("acc"), None, 3600, 100),
        Err(CallbackError::MissingRefreshToken)
    ));
    assert!(needs_sync(&None, &s("r")));
    assert!(!needs_sync(&Some(a), &s("ref")));
    assert!(needs_sync(&Some(account("q", true, false)), &s("other")));
}

#[test]
fn quota_refresh_targets_and_tally() {
    let mut pool = AccountPool::new();
    pool.load(vec![account("a", true, false), account("b", false, false), account("c", true, true), account("d", true, false)]);
    assert_eq!(pool.quota_refresh_targets(), vec![s("a"), s("d")]);
    let stats = RefreshStats::tally(vec![
        QuotaFetchOutcome::Stored,
        QuotaFetchOutcome::FetchFailed(s("a@x: timeout")),
        QuotaFetchOutcome::StoreFailed,
        QuotaFetchOutcome::Stored,
    ]);
    assert_eq!((stats.total, stats.success, stats.failed), (4, 2, 2));
    assert_eq!(stats.details, vec![s("a@x: timeout")]);
}

#[test]
fn proxy_status_toggle() {
    let mut pool = AccountPool::new();
    pool.load(vec![account("a", true, false), account("b", true, false)]);
    assert!(pool.set_proxy_status(&s("a"), false, None, 42));
    let a = &pool.accounts()[0];
    assert!(!a.enabled);
    assert_eq!(a.disabled_reason.as_deref(), Some("用户手动禁用"));
    assert_eq!(a.disabled_at, Some(42));
    assert!(pool.set_proxy_status(&s("a"), true, None, 43));
    assert!(pool.accounts()[0].enabled);
    assert_eq!(pool.accounts()[0].disabled_at, None);
    assert!(pool.toggle_proxy_status(&s("b"), false, Some(s("maintenance"))));
    assert_eq!(pool.accounts()[1].disabled_reason.as_deref(), Some("maintenance"));
    assert!(pool.accounts()[1].disabled_at.unwrap() > 1_600_000_000);
    assert!(!pool.toggle_proxy_status(&s("zz"), true, None));
}
