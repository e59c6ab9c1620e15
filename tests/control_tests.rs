use antigravity_proxy::config::{ZaiConfig, ZaiDispatchMode};
use antigravity_proxy::control::{
    api_key_from_hex, blank, effective_timeout_secs, generate_api_key, join_base_url, new_account_id, zai_models_url,
    ZaiRequestError,
};
use antigravity_proxy::events::{AppJson, SseEvent};
use antigravity_proxy::oauth::{parse_callback, port_text, CallbackError};
use antigravity_proxy::version::{compare_versions, parse_version, release_version_text};

#[test]
fn join_base_url_single_slash() {
    assert_eq!(join_base_url("https://api.z.ai/", "/v1/models"), "https://api.z.ai/v1/models");
    assert_eq!(join_base_url("https://api.z.ai///", "v1/models"), "https://api.z.ai/v1/models");
    assert_eq!(join_base_url("https://api.z.ai", "v1"), "https://api.z.ai/v1");
    assert_eq!(join_base_url("", ""), "/");
}

#[test]
fn api_key_shape() {
    let k = generate_api_key();
    assert_eq!(k.len(), 35);
    assert!(k.starts_with("sk-"));
    assert!(k[3..].chars().all(|c| c.is_ascii_hexdigit() && !c.is_ascii_uppercase()));
    assert_ne!(generate_api_key(), k);
    assert_eq!(api_key_from_hex("abc"), "sk-abc");
    let id = new_account_id();
    assert_eq!(id.len(), 36);
    assert_eq!(id.matches('-').count(), 4);
}

#[test]
fn zai_request_checks() {
    let mut z = ZaiConfig { enabled: true, base_url: "  ".to_string(), api_key: "k".to_string(), dispatch_mode: ZaiDispatchMode::Pooled };
    assert_eq!(zai_models_url(&z), Err(ZaiRequestError::EmptyBaseUrl));
    z.base_url = "https://z.example/api/".to_string();
    z.api_key = "\t".to_string();
    assert_eq!(zai_models_url(&z), Err(ZaiRequestError::MissingApiKey));
    z.api_key = "secret".to_string();
    assert_eq!(zai_models_url(&z), Ok("https://z.example/api/v1/models".to_string()));
    assert!(blank(""));
    assert!(blank(" \u{3000}\n"));
    assert!(!blank(" x "));
    assert_eq!(effective_timeout_secs(1), 5);
    assert_eq!(effective_timeout_secs(30), 30);
}

#[test]
fn callback_code_and_redirect() {
    let r = parse_callback("http://localhost:9004/callback?state=1&code=4%2Fabc&code=other");
    assert_eq!(r, Ok(("4/abc".to_string(), "http://localhost:9004/callback".to_string())));
    let r = parse_callback("https://example.com/cb?code=xyz");
    assert_eq!(r, Ok(("xyz".to_string(), "https://example.com/cb".to_string())));
    assert_eq!(parse_callback("http://localhost:9004/callback?state=1"), Err(CallbackError::MissingCode));
    assert_eq!(parse_callback("not a url"), Err(CallbackError::InvalidUrl));
    assert_eq!(port_text(0), "0");
    assert_eq!(port_text(65535), "65535");
}

#[test]
fn version_comparison() {
    assert!(compare_versions("3.3.10", "3.3.9"));
    assert!(!compare_versions("3.3.9", "3.3.10"));
    assert!(!compare_versions("1.2.3", "1.2.3"));
    assert!(compare_versions("2", "1.9.9"));
    assert!(!compare_versions("1.2", "1.2.0"));
    assert!(compare_versions("1.2.3.beta.4", "1.2.2"));
    assert!(!compare_versions("1.2.3.9", "1.2.3"));
    assert_eq!(parse_version("1.x.+7.99999999999"), vec![1, 7]);
    assert_eq!(parse_version(""), Vec::<u32>::new());
    assert_eq!(release_version_text("vv1.0"), "1.0");
    assert_eq!(release_version_text("1.0"), "1.0");
}

#[test]
fn event_tags_and_json_wrapper() {
    assert_eq!(SseEvent::ConfigUpdated.event_type(), "ConfigUpdated");
    assert_eq!(SseEvent::AccountSwitched.event_type(), "AccountSwitched");
    assert_eq!(AppJson(5u8).into_inner(), 5);
}
