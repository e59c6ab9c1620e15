//! Values the control plane builds around the proxy: upstream URLs, access
//! keys, and the checks made before a request to the secondary backend.

use vstd::prelude::*;
use crate::config::ZaiConfig;
use crate::pool::Account;

verus! {

/// `s` without its trailing `/` characters.
pub open spec fn trim_end_slashes(s: Seq<char>) -> Seq<char>
    decreases s.len(),
{
    if s.len() > 0 && s.last() == '/' {
        trim_end_slashes(s.drop_last())
    } else {
        s
    }
}

/// `base` and `path` joined by exactly the one `/` that `path` brings or is
/// given.
pub open spec fn joined_url(base: Seq<char>, path: Seq<char>) -> Seq<char> {
    trim_end_slashes(base) + if path.len() > 0 && path[0] == '/' { path } else { seq!['/'] + path }
}

/// `char::is_whitespace`: the Unicode White_Space property.
pub open spec fn is_space(c: char) -> bool {
    ('\u{9}' <= c && c <= '\u{d}') || c == ' ' || c == '\u{85}' || c == '\u{a0}' || c == '\u{1680}'
        || ('\u{2000}' <= c && c <= '\u{200a}') || c == '\u{2028}' || c == '\u{2029}' || c == '\u{202f}'
        || c == '\u{205f}' || c == '\u{3000}'
}

/// Empty once surrounding whitespace is trimmed.
pub open spec fn is_blank(s: Seq<char>) -> bool {
    forall|i: int| 0 <= i < s.len() ==> is_space(#[trigger] s[i])
}

pub open spec fn is_lower_hex(c: char) -> bool {
    ('0' <= c && c <= '9') || ('a' <= c && c <= 'f')
}

pub open spec fn api_key_spec(hex: Seq<char>) -> Seq<char> {
    "sk-"@ + hex
}

pub fn char_is_space(c: char) -> (r: bool)
    ensures
        r == is_space(c),
{
    ('\u{9}' <= c && c <= '\u{d}') || c == ' ' || c == '\u{85}' || c == '\u{a0}' || c == '\u{1680}'
        || ('\u{2000}' <= c && c <= '\u{200a}') || c == '\u{2028}' || c == '\u{2029}' || c == '\u{202f}'
        || c == '\u{205f}' || c == '\u{3000}'
}

/// Whether `s` holds nothing but whitespace.
pub fn blank(s: &str) -> (r: bool)
    ensures
        r == is_blank(s@),
{
    let n = s.unicode_len();
    let mut i: usize = 0;
    while i < n
        invariant
            n == s@.len(),
            i <= n,
            forall|j: int| 0 <= j < i ==> is_space(#[trigger] s@[j]),
        decreases n - i,
    {
        if !char_is_space(s.get_char(i)) {
            return false;
        }
        i = i + 1;
    }
    true
}

/// Joins a base URL and a path with a single `/` between them.
pub fn join_base_url(base: &str, path: &str) -> (r: String)
    ensures
        r@ == joined_url(base@, path@),
{
    let n = base.unicode_len();
    let mut k: usize = n;
    assert(base@.subrange(0, n as int) =~= base@);
    while k > 0 && base.get_char(k - 1) == '/'
        invariant
            n == base@.len(),
            k <= n,
            trim_end_slashes(base@.subrange(0, k as int)) == trim_end_slashes(base@),
        decreases k,
    {
        assert(base@.subrange(0, k as int).drop_last() =~= base@.subrange(0, k - 1));
        k = k - 1;
    }
    let ghost head = base@.subrange(0, k as int);
    assert(trim_end_slashes(head) == head);
    let mut out = String::from_str(base.substring_char(0, k));
    let leading = path.unicode_len() > 0 && path.get_char(0) == '/';
    if !leading {
        out.append("/");
        proof {
            reveal_strlit("/");
        }
    }
    out.append(path);
    assert(out@ =~= joined_url(base@, path@));
    out
}

/// The access key for the hexadecimal text `hex`.
pub fn api_key_from_hex(hex: &str) -> (r: String)
    ensures
        r@ == api_key_spec(hex@),
{
    let mut out = String::from_str("sk-");
    out.append(hex);
    out
}

/// Relies on `uuid::Uuid::new_v4` and its `simple()` form: 32 lowercase
/// hexadecimal digits of a random version-4 UUID.
#[verifier::external_body]
fn random_uuid_hex() -> (r: String)
    ensures
        r@.len() == 32,
        forall|i: int| 0 <= i < 32 ==> is_lower_hex(#[trigger] r@[i]),
{
    uuid::Uuid::new_v4().simple().to_string()
}

/// A fresh random access key: `sk-` and 32 lowercase hexadecimal digits.
pub fn generate_api_key() -> (r: String)
    ensures
        r@.len() == 35,
        r@.subrange(0, 3) == "sk-"@,
        forall|i: int| 3 <= i < 35 ==> is_lower_hex(#[trigger] r@[i]),
{
    let hex = random_uuid_hex();
    let r = api_key_from_hex(hex.as_str());
    proof {
        reveal_strlit("sk-");
        assert(r@.subrange(0, 3) =~= "sk-"@);
        assert forall|i: int| 3 <= i < 35 implies is_lower_hex(#[trigger] r@[i]) by {
            assert(r@[i] == hex@[i - 3]);
        }
    }
    r
}

/// The hyphen positions of a UUID's hyphenated text.
pub open spec fn uuid_hyphen_at(i: int) -> bool {
    i == 8 || i == 13 || i == 18 || i == 23
}

/// Relies on `uuid::Uuid::new_v4` in its hyphenated text form: a random
/// version-4 UUID as 8-4-4-4-12 lowercase hexadecimal digits.
#[verifier::external_body]
fn random_uuid_text() -> (r: String)
    ensures
        r@.len() == 36,
        forall|i: int| 0 <= i < 36 ==> if uuid_hyphen_at(i) { #[trigger] r@[i] == '-' } else { is_lower_hex(r@[i]) },
{
    uuid::Uuid::new_v4().to_string()
}

/// A fresh random account id.
pub fn new_account_id() -> (r: String)
    ensures
        r@.len() == 36,
        forall|i: int| 0 <= i < 36 ==> if uuid_hyphen_at(i) { #[trigger] r@[i] == '-' } else { is_lower_hex(r@[i]) },
{
    random_uuid_text()
}

#[derive(Clone, Copy, Debug, PartialEq, Eq, Structural)]
pub enum ZaiRequestError {
    EmptyBaseUrl,
    MissingApiKey,
}

pub open spec fn models_path() -> Seq<char> {
    "/v1/models"@
}

/// The model-list URL of the secondary backend, refused when its base URL
/// or its key is blank.
pub fn zai_models_url(zai: &ZaiConfig) -> (r: Result<String, ZaiRequestError>)
    ensures
        is_blank(zai.base_url@) ==> r == Err::<String, ZaiRequestError>(ZaiRequestError::EmptyBaseUrl),
        !is_blank(zai.base_url@) && is_blank(zai.api_key@) ==> r == Err::<String, ZaiRequestError>(ZaiRequestError::MissingApiKey),
        !is_blank(zai.base_url@) && !is_blank(zai.api_key@) ==> r is Ok && r->Ok_0@ == joined_url(zai.base_url@, models_path()),
{
    if blank(zai.base_url.as_str()) {
        return Err(ZaiRequestError::EmptyBaseUrl);
    }
    if blank(zai.api_key.as_str()) {
        return Err(ZaiRequestError::MissingApiKey);
    }
    Ok(join_base_url(zai.base_url.as_str(), "/v1/models"))
}

/// Upstream timeout in seconds: the configured one, at least 5.
pub fn effective_timeout_secs(request_timeout: u64) -> (r: u64)
    ensures
        r == if request_timeout < 5 { 5 } else { request_timeout },
{
    if request_timeout < 5 {
        5
    } else {
        request_timeout
    }
}


/// Whether the account stored by the desktop client must be imported again:
/// there is no current account, or its refresh token differs.
pub fn needs_sync(current: &Option<Account>, stored_refresh_token: &String) -> (r: bool)
    ensures
        r == !(current matches Some(a) && a.token.refresh_token@ == stored_refresh_token@),
{
    match current {
        Some(a) => !(a.token.refresh_token == *stored_refresh_token),
        None => true,
    }
}

} // verus!
