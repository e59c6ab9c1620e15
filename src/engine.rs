//! The per-request dispatch loop as decisions: which account or backend to
//! try next, what to do after a token refresh, and whether an upstream
//! outcome ends the request. The caller performs each network action.

use vstd::prelude::*;
use crate::config::zai_active;
use crate::dispatch::{DispatchAttempt, Outcome, Step, next_step, next_step_spec, secondary_mandatory, secondary_mandatory_spec};
use crate::pool::{PoolError, RefreshOutcome, TokenCheck, Account, contains_id, eligible, has_id, index_of, selectable, token_expiring, rotation_pick, refresh_result};
use crate::sticky::{sticky_hit, key_index};
use crate::service::{ProxyService, lemma_running_pool_wf};

verus! {

/// The next action of a request.
pub enum AttemptPlan {
    /// Forward to the secondary backend.
    Secondary,
    /// Forward with this account's access token.
    Forward { account: String, access_token: String },
    /// Exchange this account's refresh token first.
    Refresh { account: String, refresh_token: String },
    /// No account can serve and the secondary backend is off.
    Unavailable,
    /// The retry budget is spent.
    Exhausted,
}

/// What a plan promises about the pool `accts` it was made from, given the
/// accounts `excluded` from it and the secondary backend settings.
pub open spec fn plan_sound(p: AttemptPlan, accts: Seq<Account>, excluded: Seq<String>, zai: crate::config::ZaiConfig, now: i64) -> bool {
    match p {
        AttemptPlan::Secondary => zai_active(zai) && (secondary_mandatory_spec(zai) || none_selectable(accts, excluded)),
        AttemptPlan::Forward { account, access_token } => has_id(accts, account@) && {
            let a = accts[index_of(accts, account@)];
            eligible(a) && !contains_id(excluded, account@) && access_token == a.token.access_token && !token_expiring(a.token, now)
        },
        AttemptPlan::Refresh { account, refresh_token } => has_id(accts, account@) && {
            let a = accts[index_of(accts, account@)];
            eligible(a) && !contains_id(excluded, account@) && refresh_token == a.token.refresh_token && token_expiring(a.token, now)
        },
        AttemptPlan::Unavailable => !zai_active(zai) && none_selectable(accts, excluded),
        AttemptPlan::Exhausted => false,
    }
}

pub open spec fn none_selectable(accts: Seq<Account>, excluded: Seq<String>) -> bool {
    forall|k: int| 0 <= k < accts.len() ==> !selectable(#[trigger] accts[k], excluded)
}

/// The account a plan uses, if any.
pub open spec fn plan_account(p: AttemptPlan) -> Option<Seq<char>> {
    match p {
        AttemptPlan::Forward { account, .. } => Some(account@),
        AttemptPlan::Refresh { account, .. } => Some(account@),
        _ => None,
    }
}

/// The error a failed refresh answer gives for account `id` of pool `s`.
pub open spec fn final_refresh_error(s: Seq<Account>, id: Seq<char>, outcome: RefreshOutcome) -> PoolError {
    if !has_id(s, id) {
        PoolError::UnknownAccount
    } else {
        match outcome {
            RefreshOutcome::Revoked => PoolError::CredentialRevoked,
            _ => PoolError::RefreshFailed,
        }
    }
}

/// What `next_plan` promises over the pool `accts` and the accounts
/// `excluded` from it: a sound plan, the secondary backend when it takes
/// every request, and an account whenever one is selectable.
pub open spec fn plan_chosen(p: AttemptPlan, accts: Seq<Account>, excluded: Seq<String>, zai: crate::config::ZaiConfig, now: i64) -> bool {
    &&& plan_sound(p, accts, excluded, zai, now)
    &&& secondary_mandatory_spec(zai) ==> p is Secondary
    &&& (!secondary_mandatory_spec(zai) && !none_selectable(accts, excluded)) ==> (p is Forward || p is Refresh)
}

/// Chooses where the request goes next: the secondary backend when it takes
/// every request; else, first, the session's account (sticky or rotated),
/// later an account not yet tried; the secondary backend when no account
/// is left and it is active.
pub fn next_plan(svc: &mut ProxyService, attempt: &mut DispatchAttempt, session: &Option<String>, now: i64) -> (r: AttemptPlan)
    requires
        old(svc).wf(),
    ensures
        final(svc).wf(),
        final(svc).running_spec() == old(svc).running_spec(),
        final(svc).monitor_spec() == old(svc).monitor_spec(),
        final(attempt).started_spec(),
        final(attempt).excluded_spec() == old(attempt).excluded_spec(),
        final(attempt).retries_spec() == old(attempt).retries_spec(),
        !old(svc).running_spec() ==> r is Unavailable,
        old(svc).running_spec() ==> {
            let i = old(svc).instance_spec()->0;
            let fresh = !old(attempt).started_spec() && old(attempt).excluded_spec().len() == 0;
            let hit = session matches Some(k) && sticky_hit(i.router.config_spec(), i.router.bindings_spec(), i.pool.accounts_spec(), k@, now);
            &&& final(svc).instance_spec()->0.config == i.config
            &&& final(svc).instance_spec()->0.pool.accounts_spec() == i.pool.accounts_spec()
            &&& plan_chosen(r, i.pool.accounts_spec(), old(attempt).excluded_spec(), i.config.zai, now)
            &&& (fresh && !secondary_mandatory_spec(i.config.zai) && hit) ==> plan_account(r)
                == Some(i.router.bindings_spec()[key_index(i.router.bindings_spec(), session->0@)].account_id@)
            &&& (fresh && !secondary_mandatory_spec(i.config.zai) && !hit) ==> match rotation_pick(i.pool.accounts_spec(), i.pool.cursor_spec(), Seq::<String>::empty()) {
                Some(j) => plan_account(r) == Some(i.pool.accounts_spec()[j].id@),
                None => plan_account(r) is None,
            }
        },
{
    let (mandatory, active) = match svc.live_config() {
        Some(c) => (secondary_mandatory(&c.zai), c.zai.is_active()),
        None => {
            attempt.mark_started();
            return AttemptPlan::Unavailable;
        },
    };
    let ghost inst = svc.instance_spec()->0;
    let ghost accts = inst.pool.accounts_spec();
    let ghost excluded = attempt.excluded_spec();
    if mandatory {
        attempt.mark_started();
        return AttemptPlan::Secondary;
    }
    let fresh_request = !attempt.is_started() && attempt.excluded().len() == 0;
    proof {
        crate::pool::lemma_rotation_pick(accts, inst.pool.cursor_spec(), Seq::<String>::empty());
        if fresh_request {
            assert(excluded =~= Seq::<String>::empty());
        }
    }
    let selection = if fresh_request {
        svc.resolve_account(session, now)
    } else {
        svc.select_retry(attempt)
    };
    attempt.mark_started();
    proof {
        lemma_running_pool_wf(svc);
    }
    match selection {
        Err(_) => if active {
            AttemptPlan::Secondary
        } else {
            AttemptPlan::Unavailable
        },
        Ok(id) => {
            proof {
                let k = choose|k: int| 0 <= k < accts.len() && (#[trigger] accts[k]).id@ == id@ && eligible(accts[k])
                    && (!fresh_request ==> selectable(accts[k], excluded));
                svc.instance_spec()->0.pool.lemma_index_of_own_id(k);
            }
            match svc.token_check(&id, now) {
                Ok(TokenCheck::Fresh(t)) => AttemptPlan::Forward { account: id, access_token: t },
                Ok(TokenCheck::NeedsRefresh(t)) => AttemptPlan::Refresh { account: id, refresh_token: t },
                Err(_) => AttemptPlan::Unavailable,
            }
        },
    }
}

/// After the refresh of `account`'s token: forward with the new token, or,
/// when the refresh failed, try another account while retries are left.
pub fn after_refresh(
    svc: &mut ProxyService,
    attempt: &mut DispatchAttempt,
    session: &Option<String>,
    account: String,
    outcome: RefreshOutcome,
    now: i64,
) -> (r: AttemptPlan)
    requires
        old(svc).wf(),
    ensures
        final(svc).wf(),
        final(svc).running_spec() == old(svc).running_spec(),
        final(svc).monitor_spec() == old(svc).monitor_spec(),
        !old(svc).running_spec() ==> r is Unavailable || r is Exhausted,
        old(svc).running_spec() ==> {
            let i = old(svc).instance_spec()->0;
            let s = i.pool.accounts_spec();
            let t = final(svc).instance_spec()->0.pool.accounts_spec();
            let ok = has_id(s, account@) && (outcome is Refreshed);
            &&& final(svc).instance_spec()->0.config == i.config
            &&& refresh_result(s, account@, outcome, now, t, if ok {
                Ok::<String, PoolError>(outcome->access_token)
            } else {
                Err::<String, PoolError>(final_refresh_error(s, account@, outcome))
            })
            &&& ok ==> r == (AttemptPlan::Forward { account: account, access_token: outcome->access_token })
                && *final(attempt) == *old(attempt)
            &&& (!ok && old(attempt).retries_spec() > 0) ==> final(attempt).excluded_spec() == old(attempt).excluded_spec().push(account)
                && final(attempt).retries_spec() == old(attempt).retries_spec() - 1
                && final(attempt).started_spec()
                && plan_chosen(r, t, final(attempt).excluded_spec(), i.config.zai, now)
            &&& (!ok && old(attempt).retries_spec() == 0) ==> r is Exhausted
                && final(attempt).excluded_spec() == old(attempt).excluded_spec()
                && final(attempt).retries_spec() == 0
        },
{
    let tried = account.clone();
    match svc.apply_refresh(&account, outcome, now) {
        Ok(t) => AttemptPlan::Forward { account, access_token: t },
        Err(_) => {
            let step = svc.report(attempt, tried, Outcome::CredentialFailure, now);
            if let Step::RetryAnother = step {
                next_plan(svc, attempt, session, now)
            } else {
                AttemptPlan::Exhausted
            }
        },
    }
}

/// Whether the request ends with this upstream outcome or tries again; a
/// failure of the secondary backend is not retried.
pub fn after_upstream(svc: &mut ProxyService, attempt: &mut DispatchAttempt, account: Option<String>, outcome: Outcome, now: i64) -> (r: Step)
    requires
        old(svc).wf(),
    ensures
        final(svc).wf(),
        final(svc).running_spec() == old(svc).running_spec(),
        final(svc).monitor_spec() == old(svc).monitor_spec(),
        account is None ==> r == next_step_spec(outcome, 0) && *final(attempt) == *old(attempt)
            && *final(svc) == *old(svc),
        (account is Some && old(svc).running_spec()) ==> {
            let i = old(svc).instance_spec()->0;
            let id = account->0;
            &&& r == next_step_spec(outcome, old(attempt).retries_spec())
            &&& final(svc).instance_spec()->0.config == i.config
            &&& crate::dispatch::report_effect(i.pool.accounts_spec(), id@, outcome, now, final(svc).instance_spec()->0.pool.accounts_spec())
            &&& r == Step::RetryAnother ==> final(attempt).excluded_spec() == old(attempt).excluded_spec().push(id)
                && final(attempt).retries_spec() == old(attempt).retries_spec() - 1
            &&& r != Step::RetryAnother ==> final(attempt).excluded_spec() == old(attempt).excluded_spec()
                && final(attempt).retries_spec() == old(attempt).retries_spec()
        },
{
    match account {
        Some(id) => svc.report(attempt, id, outcome, now),
        None => next_step(outcome, 0),
    }
}

} // verus!
