//! Per-request dispatch decisions: where a request goes, how an upstream
//! outcome is classified, and whether another account is tried.

use vstd::prelude::*;
use crate::config::{ProxyConfig, SecurityPolicy, ZaiConfig, ZaiDispatchMode, zai_active};
use crate::pool::{Account, AccountPool, PoolError, has_id, index_of, with_enabled, with_forbidden};

verus! {

/// Retries after the first attempt of one request.
pub const MAX_RETRIES: u32 = 2;

/// How an upstream exchange ended.
#[derive(Clone, Copy, Debug, PartialEq, Eq, Structural)]
pub enum Outcome {
    Success,
    /// 401 or 403: the credential was refused.
    AuthFailure,
    /// 429: the account's quota is exhausted.
    RateLimited,
    /// Any other error status; passed to the client as it is.
    UpstreamError,
    /// Timeout or connection failure.
    NetworkError,
    /// The account's token could not be refreshed.
    CredentialFailure,
}

/// What the dispatcher does next.
#[derive(Clone, Copy, Debug, PartialEq, Eq, Structural)]
pub enum Step {
    Deliver,
    RetryAnother,
    Surface,
}

/// Where one request is sent.
pub enum DispatchTarget {
    Primary(String),
    Secondary,
}

pub open spec fn classify_spec(status: u16) -> Outcome {
    if status == 401 || status == 403 {
        Outcome::AuthFailure
    } else if status == 429 {
        Outcome::RateLimited
    } else if 200 <= status && status < 400 {
        Outcome::Success
    } else {
        Outcome::UpstreamError
    }
}

pub open spec fn retryable(o: Outcome) -> bool {
    o == Outcome::AuthFailure || o == Outcome::RateLimited || o == Outcome::NetworkError || o == Outcome::CredentialFailure
}

pub open spec fn next_step_spec(o: Outcome, retries_left: u32) -> Step {
    if o == Outcome::Success {
        Step::Deliver
    } else if retryable(o) && retries_left > 0 {
        Step::RetryAnother
    } else {
        Step::Surface
    }
}

/// Upstream model name for a requested one: the first mapping entry whose
/// key is `model`, else `model` itself.
pub open spec fn mapped_model(m: Seq<(String, String)>, model: Seq<char>) -> Seq<char>
    decreases m.len(),
{
    if m.len() == 0 {
        model
    } else if m[0].0@ == model {
        m[0].1@
    } else {
        mapped_model(m.drop_first(), model)
    }
}

pub open spec fn authorized(p: SecurityPolicy, provided: Option<String>) -> bool {
    !p.require_api_key || (provided matches Some(k) && k@ == p.api_key@)
}

pub open spec fn secondary_mandatory_spec(z: ZaiConfig) -> bool {
    zai_active(z) && z.dispatch_mode == ZaiDispatchMode::Exclusive
}

pub open spec fn rejected_reason() -> Seq<char> {
    "upstream rejected credential"@
}

/// How reporting `outcome` for account `id` at `now` turns the pool `s`
/// into `t`: a refused credential disables the account, a rate limit marks
/// its quota forbidden, anything else changes nothing.
pub open spec fn report_effect(s: Seq<Account>, id: Seq<char>, outcome: Outcome, now: i64, t: Seq<Account>) -> bool {
    if outcome == Outcome::AuthFailure && has_id(s, id) {
        let k = index_of(s, id);
        t == s.update(k, t[k])
        && t[k] == with_enabled(s[k], false, t[k].disabled_reason, Some(now))
        && (t[k].disabled_reason matches Some(why) && why@ == rejected_reason())
    } else if outcome == Outcome::RateLimited && has_id(s, id) {
        t == s.update(index_of(s, id), with_forbidden(s[index_of(s, id)]))
    } else {
        t == s
    }
}

pub fn classify_status(status: u16) -> (r: Outcome)
    ensures
        r == classify_spec(status),
{
    if status == 401 || status == 403 {
        Outcome::AuthFailure
    } else if status == 429 {
        Outcome::RateLimited
    } else if 200 <= status && status < 400 {
        Outcome::Success
    } else {
        Outcome::UpstreamError
    }
}

pub fn next_step(o: Outcome, retries_left: u32) -> (r: Step)
    ensures
        r == next_step_spec(o, retries_left),
{
    match o {
        Outcome::Success => Step::Deliver,
        Outcome::UpstreamError => Step::Surface,
        _ => if retries_left > 0 {
            Step::RetryAnother
        } else {
            Step::Surface
        },
    }
}

pub fn map_model(mapping: &Vec<(String, String)>, model: &String) -> (r: String)
    ensures
        r@ == mapped_model(mapping@, model@),
{
    let mut i: usize = 0;
    assert(mapping@.subrange(0, mapping@.len() as int) =~= mapping@);
    while i < mapping.len()
        invariant
            i <= mapping@.len(),
            mapped_model(mapping@, model@) == mapped_model(mapping@.subrange(i as int, mapping@.len() as int), model@),
        decreases mapping@.len() - i,
    {
        let ghost rest = mapping@.subrange(i as int, mapping@.len() as int);
        assert(rest.drop_first() =~= mapping@.subrange(i + 1, mapping@.len() as int));
        if mapping[i].0 == *model {
            return mapping[i].1.clone();
        }
        i = i + 1;
    }
    assert(mapping@.subrange(i as int, mapping@.len() as int) =~= Seq::<(String, String)>::empty());
    model.clone()
}

/// The model name a request is forwarded with, read from one configuration
/// snapshot.
pub fn rewrite_model(config: &ProxyConfig, model: &String) -> (r: String)
    ensures
        r@ == mapped_model(config.custom_mapping@, model@),
{
    map_model(&config.custom_mapping, model)
}

/// Whether a request presenting `provided` may use the proxy.
pub fn authorize(policy: &SecurityPolicy, provided: &Option<String>) -> (r: bool)
    ensures
        r == authorized(*policy, *provided),
{
    if !policy.require_api_key {
        return true;
    }
    match provided {
        Some(k) => *k == policy.api_key,
        None => false,
    }
}

/// The secondary backend takes every request, without a pool account.
pub fn secondary_mandatory(zai: &ZaiConfig) -> (r: bool)
    ensures
        r == secondary_mandatory_spec(*zai),
{
    zai.is_active() && matches!(zai.dispatch_mode, ZaiDispatchMode::Exclusive)
}

/// The target once the pool has answered: its account, else the secondary
/// backend when that is active, else the pool's error.
pub fn target_after_selection(zai: &ZaiConfig, selection: Result<String, PoolError>) -> (r: Result<DispatchTarget, PoolError>)
    ensures
        secondary_mandatory_spec(*zai) ==> r matches Ok(DispatchTarget::Secondary),
        !secondary_mandatory_spec(*zai) ==> match selection {
            Ok(id) => r == Ok::<DispatchTarget, PoolError>(DispatchTarget::Primary(id)),
            Err(e) => if zai_active(*zai) {
                r matches Ok(DispatchTarget::Secondary)
            } else {
                r == Err::<DispatchTarget, PoolError>(e)
            },
        },
{
    if secondary_mandatory(zai) {
        return Ok(DispatchTarget::Secondary);
    }
    match selection {
        Ok(id) => Ok(DispatchTarget::Primary(id)),
        Err(e) => if zai.is_active() {
            Ok(DispatchTarget::Secondary)
        } else {
            Err(e)
        },
    }
}

/// Retry bookkeeping of one request: the accounts already tried and the
/// retries left.
pub struct DispatchAttempt {
    excluded: Vec<String>,
    retries_left: u32,
    started: bool,
}

impl DispatchAttempt {
    pub closed spec fn excluded_spec(&self) -> Seq<String> {
        self.excluded@
    }

    pub closed spec fn retries_spec(&self) -> u32 {
        self.retries_left
    }

    /// An account or backend has been chosen for this request.
    pub closed spec fn started_spec(&self) -> bool {
        self.started
    }

    pub fn is_started(&self) -> (r: bool)
        ensures
            r == self.started_spec(),
    {
        self.started
    }

    pub fn mark_started(&mut self)
        ensures
            final(self).started_spec(),
            final(self).excluded_spec() == old(self).excluded_spec(),
            final(self).retries_spec() == old(self).retries_spec(),
    {
        self.started = true;
    }

    pub fn new() -> (r: DispatchAttempt)
        ensures
            r.excluded_spec() == Seq::<String>::empty(),
            r.retries_spec() == MAX_RETRIES,
            !r.started_spec(),
    {
        DispatchAttempt { excluded: Vec::new(), retries_left: MAX_RETRIES, started: false }
    }

    pub fn retries_left(&self) -> (r: u32)
        ensures
            r == self.retries_spec(),
    {
        self.retries_left
    }

    pub fn excluded(&self) -> (r: &Vec<String>)
        ensures
            r@ == self.excluded_spec(),
    {
        &self.excluded
    }

    /// Another account for a retry, none of those already tried.
    pub fn select_retry(&self, pool: &mut AccountPool) -> (r: Result<String, PoolError>)
        requires
            old(pool).wf(),
        ensures
            final(pool).wf(),
            final(pool).accounts_spec() == old(pool).accounts_spec(),
            r matches Ok(id) ==> exists|i: int| 0 <= i < old(pool).accounts_spec().len()
                && (#[trigger] old(pool).accounts_spec()[i]).id@ == id@
                && crate::pool::selectable(old(pool).accounts_spec()[i], self.excluded_spec()),
            r is Err <==> forall|i: int| 0 <= i < old(pool).accounts_spec().len()
                ==> !crate::pool::selectable(#[trigger] old(pool).accounts_spec()[i], self.excluded_spec()),
    {
        pool.select_next(&self.excluded)
    }

    /// Applies the outcome of trying account `id`: a refused credential
    /// disables the account, a rate limit marks its quota forbidden; a
    /// retryable failure with retries left excludes it and spends a retry.
    pub fn report(&mut self, pool: &mut AccountPool, id: String, outcome: Outcome, now: i64) -> (r: Step)
        requires
            old(pool).wf(),
        ensures
            final(pool).wf(),
            final(pool).cursor_spec() == old(pool).cursor_spec(),
            r == next_step_spec(outcome, old(self).retries_spec()),
            final(self).started_spec() == old(self).started_spec(),
            r == Step::RetryAnother ==> final(self).excluded_spec() == old(self).excluded_spec().push(id)
                && final(self).retries_spec() == old(self).retries_spec() - 1,
            r != Step::RetryAnother ==> final(self).excluded_spec() == old(self).excluded_spec()
                && final(self).retries_spec() == old(self).retries_spec(),
            report_effect(old(pool).accounts_spec(), id@, outcome, now, final(pool).accounts_spec()),
    {
        match outcome {
            Outcome::AuthFailure => {
                let reason = String::from_str("upstream rejected credential");
                pool.mark_ineligible(&id, reason, now);
            },
            Outcome::RateLimited => {
                pool.mark_forbidden(&id);
            },
            _ => {},
        }
        let step = next_step(outcome, self.retries_left);
        if let Step::RetryAnother = step {
            self.excluded.push(id);
            self.retries_left = self.retries_left - 1;
        }
        step
    }
}

} // verus!
