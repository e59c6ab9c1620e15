//! Reading a pasted authorization callback URL: the authorization code and
//! the redirect URI it was issued for.

use vstd::prelude::*;
use crate::pool::{Account, Token, saturating_add_i64};

verus! {

/// The parts of a parsed URL that a callback needs.
pub struct UrlParts {
    pub scheme: String,
    pub host: Option<String>,
    pub port: Option<u16>,
    pub path: String,
    /// Decoded query pairs, in order.
    pub query: Vec<(String, String)>,
}

pub type UrlPartsView = (Seq<char>, Option<Seq<char>>, Option<u16>, Seq<char>, Seq<(Seq<char>, Seq<char>)>);

pub open spec fn opt_view(o: Option<String>) -> Option<Seq<char>> {
    match o {
        Some(s) => Some(s@),
        None => None,
    }
}

pub open spec fn pairs_view(q: Seq<(String, String)>) -> Seq<(Seq<char>, Seq<char>)> {
    q.map_values(|p: (String, String)| (p.0@, p.1@))
}

pub open spec fn parts_view(p: UrlParts) -> UrlPartsView {
    (p.scheme@, opt_view(p.host), p.port, p.path@, pairs_view(p.query@))
}

/// What `url::Url::parse` makes of a text: `None` when it is refused, else
/// scheme, host, explicit non-default port, path and decoded query pairs.
pub uninterp spec fn parsed_url(s: Seq<char>) -> Option<UrlPartsView>;

/// Relies on `url::Url::parse` and the accessors `scheme`, `host_str`,
/// `port`, `path` and `query_pairs` of the parsed value.
#[verifier::external_body]
fn parse_url(s: &str) -> (r: Option<UrlParts>)
    ensures
        r is Some <==> parsed_url(s@) is Some,
        r matches Some(p) ==> parts_view(p) == parsed_url(s@)->0,
{
    let u = url::Url::parse(s).ok()?;
    Some(UrlParts {
        scheme: u.scheme().to_string(),
        host: u.host_str().map(|h| h.to_string()),
        port: u.port(),
        path: u.path().to_string(),
        query: u.query_pairs().map(|(k, v)| (k.into_owned(), v.into_owned())).collect(),
    })
}

#[derive(Clone, Copy, Debug, PartialEq, Eq, Structural)]
pub enum CallbackError {
    InvalidUrl,
    MissingCode,
    /// The authorization server issued no refresh token.
    MissingRefreshToken,
}

/// The value of the first query pair named `code`.
pub open spec fn first_code(q: Seq<(Seq<char>, Seq<char>)>) -> Option<Seq<char>>
    decreases q.len(),
{
    if q.len() == 0 {
        None
    } else if q[0].0 == "code"@ {
        Some(q[0].1)
    } else {
        first_code(q.drop_first())
    }
}

pub open spec fn digit_char(d: nat) -> char {
    if d == 0 { '0' } else if d == 1 { '1' } else if d == 2 { '2' } else if d == 3 { '3' } else if d == 4 { '4' }
    else if d == 5 { '5' } else if d == 6 { '6' } else if d == 7 { '7' } else if d == 8 { '8' } else { '9' }
}

/// Decimal text of `n`, without leading zeros.
pub open spec fn decimal(n: nat) -> Seq<char>
    decreases n,
{
    if n < 10 {
        seq![digit_char(n)]
    } else {
        decimal(n / 10).push(digit_char(n % 10))
    }
}

/// `scheme://host[:port]path`, with `localhost` for a missing host.
pub open spec fn redirect_of(p: UrlPartsView) -> Seq<char> {
    let host = match p.1 {
        Some(h) => h,
        None => "localhost"@,
    };
    let port = match p.2 {
        Some(n) => seq![':'] + decimal(n as nat),
        None => Seq::<char>::empty(),
    };
    p.0 + "://"@ + host + port + p.3
}

/// Code and redirect URI of a parsed callback URL.
pub open spec fn callback_fields(p: UrlPartsView) -> Result<(Seq<char>, Seq<char>), CallbackError> {
    match first_code(p.4) {
        Some(code) => Ok((code, redirect_of(p))),
        None => Err(CallbackError::MissingCode),
    }
}

fn digit_str(d: u16) -> (r: &'static str)
    requires
        d < 10,
    ensures
        r@ == seq![digit_char(d as nat)],
{
    proof {
        reveal_strlit("0");
        reveal_strlit("1");
        reveal_strlit("2");
        reveal_strlit("3");
        reveal_strlit("4");
        reveal_strlit("5");
        reveal_strlit("6");
        reveal_strlit("7");
        reveal_strlit("8");
        reveal_strlit("9");
    }
    let r = if d == 0 { "0" } else if d == 1 { "1" } else if d == 2 { "2" } else if d == 3 { "3" } else if d == 4 { "4" }
    else if d == 5 { "5" } else if d == 6 { "6" } else if d == 7 { "7" } else if d == 8 { "8" } else { "9" };
    assert(r@ =~= seq![digit_char(d as nat)]);
    r
}

/// Appends the decimal text of `n` to `out`.
fn append_decimal(out: &mut String, n: u16)
    ensures
        final(out)@ == old(out)@ + decimal(n as nat),
    decreases n,
{
    if n >= 10 {
        append_decimal(out, n / 10);
    }
    out.append(digit_str(n % 10));
    assert(final(out)@ =~= old(out)@ + decimal(n as nat));
}

/// The decimal text of a port number.
pub fn port_text(n: u16) -> (r: String)
    ensures
        r@ == decimal(n as nat),
{
    let mut out = String::new();
    append_decimal(&mut out, n);
    assert(out@ =~= decimal(n as nat));
    out
}

/// Code and redirect URI read from already-parsed URL parts.
pub fn callback_from_parts(p: &UrlParts) -> (r: Result<(String, String), CallbackError>)
    ensures
        match callback_fields(parts_view(*p)) {
            Ok((code, redirect)) => r matches Ok((c, u)) && c@ == code && u@ == redirect,
            Err(e) => r == Err::<(String, String), CallbackError>(e),
        },
{
    let ghost q = pairs_view(p.query@);
    let mut code: Option<String> = None;
    let mut i: usize = 0;
    proof {
        reveal_strlit("code");
        assert(q.subrange(0, q.len() as int) =~= q);
    }
    while i < p.query.len()
        invariant
            i <= p.query@.len(),
            q == pairs_view(p.query@),
            q.len() == p.query@.len(),
            code is None ==> first_code(q) == first_code(q.subrange(i as int, q.len() as int)),
            code matches Some(c) ==> first_code(q) == Some(c@),
        decreases p.query@.len() - i,
    {
        if code.is_none() {
            let ghost rest = q.subrange(i as int, q.len() as int);
            assert(rest.drop_first() =~= q.subrange(i + 1, q.len() as int));
            assert(rest[0] == (p.query@[i as int].0@, p.query@[i as int].1@));
            let key = p.query[i].0.as_str();
            proof {
                reveal_strlit("code");
            }
            if key.unicode_len() == 4 && key.get_char(0) == 'c' && key.get_char(1) == 'o' && key.get_char(2) == 'd'
                && key.get_char(3) == 'e' {
                assert(key@ =~= "code"@);
                code = Some(p.query[i].1.clone());
            } else {
                assert(key@ != "code"@) by {
                    if key@ == "code"@ {
                        assert(key@.len() == 4 && key@[0] == 'c' && key@[1] == 'o' && key@[2] == 'd' && key@[3] == 'e');
                    }
                }
            }
        }
        i = i + 1;
    }
    assert(q.subrange(i as int, q.len() as int) =~= Seq::<(Seq<char>, Seq<char>)>::empty());
    let code = match code {
        Some(c) => c,
        None => return Err(CallbackError::MissingCode),
    };
    let mut redirect = p.scheme.clone();
    redirect.append("://");
    match &p.host {
        Some(h) => redirect.append(h.as_str()),
        None => redirect.append("localhost"),
    }
    if let Some(n) = p.port {
        redirect.append(":");
        let t = port_text(n);
        redirect.append(t.as_str());
        proof {
            reveal_strlit(":");
        }
    }
    redirect.append(p.path.as_str());
    proof {
        let v = parts_view(*p);
        let host = match v.1 {
            Some(h) => h,
            None => "localhost"@,
        };
        let port = match v.2 {
            Some(n) => seq![':'] + decimal(n as nat),
            None => Seq::<char>::empty(),
        };
        assert(redirect@ =~= v.0 + "://"@ + host + port + v.3);
    }
    Ok((code, redirect))
}

/// Code and redirect URI of a pasted callback URL.
pub fn parse_callback(callback_url: &str) -> (r: Result<(String, String), CallbackError>)
    ensures
        parsed_url(callback_url@) is None ==> r == Err::<(String, String), CallbackError>(CallbackError::InvalidUrl),
        parsed_url(callback_url@) matches Some(p) ==> match callback_fields(p) {
            Ok((code, redirect)) => r matches Ok((c, u)) && c@ == code && u@ == redirect,
            Err(e) => r == Err::<(String, String), CallbackError>(e),
        },
{
    match parse_url(callback_url) {
        Some(p) => callback_from_parts(&p),
        None => Err(CallbackError::InvalidUrl),
    }
}


/// The account record for a completed authorization: enabled, without a
/// quota yet, its token valid for `expires_in` seconds from `now`. Refused
/// when no refresh token was issued.
pub fn authorized_account(
    id: String,
    email: String,
    access_token: String,
    refresh_token: Option<String>,
    expires_in: i64,
    now: i64,
) -> (r: Result<Account, CallbackError>)
    ensures
        refresh_token is None ==> r == Err::<Account, CallbackError>(CallbackError::MissingRefreshToken),
        refresh_token matches Some(t) ==> r == Ok::<Account, CallbackError>(Account {
            id,
            email,
            token: Token { access_token, refresh_token: t, expiry_timestamp: saturating_add_i64(now, expires_in) },
            quota: None,
            enabled: true,
            disabled_reason: None,
            disabled_at: None,
        }),
{
    let refresh = match refresh_token {
        Some(t) => t,
        None => return Err(CallbackError::MissingRefreshToken),
    };
    let expiry: i64 = if (now as i128) + (expires_in as i128) > i64::MAX as i128 {
        i64::MAX
    } else if (now as i128) + (expires_in as i128) < i64::MIN as i128 {
        i64::MIN
    } else {
        now + expires_in
    };
    Ok(Account {
        id,
        email,
        token: Token { access_token, refresh_token: refresh, expiry_timestamp: expiry },
        quota: None,
        enabled: true,
        disabled_reason: None,
        disabled_at: None,
    })
}

} // verus!
