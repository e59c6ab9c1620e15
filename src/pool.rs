//! The account pool: which credentials may serve requests, in what rotation,
//! and how refresh, quota and disable events change that.

use vstd::prelude::*;

verus! {

/// Seconds before expiry at which an access token is treated as expired.
pub const REFRESH_MARGIN_SECS: i64 = 60;

/// Bearer credential of one account.
pub struct Token {
    pub access_token: String,
    pub refresh_token: String,
    /// Unix seconds at which the access token expires.
    pub expiry_timestamp: i64,
}

/// Last known usage state of an account.
#[derive(Clone, Copy, Debug, PartialEq, Eq, Structural)]
pub struct QuotaSnapshot {
    pub used: u64,
    pub limit: u64,
    pub forbidden: bool,
}

/// One upstream credential identity.
pub struct Account {
    pub id: String,
    pub email: String,
    pub token: Token,
    pub quota: Option<QuotaSnapshot>,
    pub enabled: bool,
    pub disabled_reason: Option<String>,
    pub disabled_at: Option<i64>,
}

#[derive(Clone, Copy, Debug, PartialEq, Eq, Structural)]
pub enum PoolError {
    NoEligibleAccount,
    UnknownAccount,
    CredentialRevoked,
    RefreshFailed,
}

/// What the authorization collaborator answered to a refresh request.
pub enum RefreshOutcome {
    Refreshed { access_token: String, refresh_token: Option<String>, expires_in: i64 },
    Revoked,
    Failed,
}

/// What a request must do about an account's token before using it.
pub enum TokenCheck {
    Fresh(String),
    NeedsRefresh(String),
}

/// Enabled and not quota-forbidden.
pub open spec fn eligible(a: Account) -> bool {
    a.enabled && !(a.quota matches Some(q) && q.forbidden)
}

pub open spec fn contains_id(ids: Seq<String>, id: Seq<char>) -> bool {
    exists|j: int| 0 <= j < ids.len() && (#[trigger] ids[j])@ == id
}

pub open spec fn selectable(a: Account, exclude: Seq<String>) -> bool {
    eligible(a) && !contains_id(exclude, a.id@)
}

pub open spec fn count_eligible(s: Seq<Account>) -> nat
    decreases s.len(),
{
    if s.len() == 0 {
        0
    } else {
        count_eligible(s.drop_last()) + if eligible(s.last()) { 1nat } else { 0nat }
    }
}

pub open spec fn has_id(s: Seq<Account>, id: Seq<char>) -> bool {
    exists|i: int| 0 <= i < s.len() && (#[trigger] s[i]).id@ == id
}

/// The index of the account with `id`, where ids are unique.
pub open spec fn index_of(s: Seq<Account>, id: Seq<char>) -> int {
    choose|i: int| 0 <= i < s.len() && (#[trigger] s[i]).id@ == id
}

pub open spec fn unique_ids(s: Seq<Account>) -> bool {
    forall|i: int, j: int| 0 <= i < s.len() && 0 <= j < s.len() && i != j ==> (#[trigger] s[i]).id@ != (#[trigger] s[j]).id@
}

/// The records of `s`, keeping only the first one for each id.
pub open spec fn first_of_each_id(s: Seq<Account>) -> Seq<Account>
    decreases s.len(),
{
    if s.len() == 0 {
        Seq::empty()
    } else {
        let prev = first_of_each_id(s.drop_last());
        if has_id(prev, s.last().id@) { prev } else { prev.push(s.last()) }
    }
}

/// Round-robin choice: the first selectable account at offsets `k..n` from
/// `cursor`.
pub open spec fn pick_from(s: Seq<Account>, cursor: int, exclude: Seq<String>, k: int) -> Option<int>
    decreases s.len() - k,
{
    if k >= s.len() || k < 0 {
        None
    } else if selectable(s[(cursor + k) % (s.len() as int)], exclude) {
        Some((cursor + k) % (s.len() as int))
    } else {
        pick_from(s, cursor, exclude, k + 1)
    }
}

pub open spec fn rotation_pick(s: Seq<Account>, cursor: nat, exclude: Seq<String>) -> Option<int> {
    pick_from(s, cursor as int, exclude, 0)
}

pub open spec fn with_enabled(a: Account, enabled: bool, reason: Option<String>, at: Option<i64>) -> Account {
    Account { enabled, disabled_reason: reason, disabled_at: at, ..a }
}

pub open spec fn with_forbidden(a: Account) -> Account {
    Account {
        quota: Some(
            match a.quota {
                Some(q) => QuotaSnapshot { forbidden: true, ..q },
                None => QuotaSnapshot { used: 0, limit: 0, forbidden: true },
            },
        ),
        ..a
    }
}

pub open spec fn token_expiring(t: Token, now: i64) -> bool {
    t.expiry_timestamp - now <= REFRESH_MARGIN_SECS
}

/// What a request must do about the token of account `id` at `now`.
pub open spec fn token_check_spec(s: Seq<Account>, id: Seq<char>, now: i64) -> Result<TokenCheck, PoolError> {
    if !has_id(s, id) {
        Err(PoolError::UnknownAccount)
    } else {
        let a = s[index_of(s, id)];
        if token_expiring(a.token, now) {
            Ok(TokenCheck::NeedsRefresh(a.token.refresh_token))
        } else {
            Ok(TokenCheck::Fresh(a.token.access_token))
        }
    }
}

pub open spec fn saturating_add_i64(a: i64, b: i64) -> i64 {
    if a + b > i64::MAX {
        i64::MAX
    } else if a + b < i64::MIN {
        i64::MIN
    } else {
        (a + b) as i64
    }
}

pub open spec fn revoked_reason() -> Seq<char> {
    "credential revoked"@
}

fn copy_opt_string(o: &Option<String>) -> (r: Option<String>)
    ensures
        r == *o,
{
    match o {
        Some(s) => Some(s.clone()),
        None => None,
    }
}

impl Token {
    pub fn duplicate(&self) -> (r: Token)
        ensures
            r == *self,
    {
        Token {
            access_token: self.access_token.clone(),
            refresh_token: self.refresh_token.clone(),
            expiry_timestamp: self.expiry_timestamp,
        }
    }
}

impl Account {
    pub fn duplicate(&self) -> (r: Account)
        ensures
            r == *self,
    {
        Account {
            id: self.id.clone(),
            email: self.email.clone(),
            token: self.token.duplicate(),
            quota: self.quota,
            enabled: self.enabled,
            disabled_reason: copy_opt_string(&self.disabled_reason),
            disabled_at: self.disabled_at,
        }
    }

    pub fn is_eligible(&self) -> (r: bool)
        ensures
            r == eligible(*self),
    {
        self.enabled && !(match self.quota {
            Some(q) => q.forbidden,
            None => false,
        })
    }
}

fn vec_contains_id(ids: &Vec<String>, id: &String) -> (r: bool)
    ensures
        r == contains_id(ids@, id@),
{
    let mut i: usize = 0;
    while i < ids.len()
        invariant
            i <= ids@.len(),
            forall|j: int| 0 <= j < i ==> (#[trigger] ids@[j])@ != id@,
        decreases ids@.len() - i,
    {
        if ids[i] == *id {
            return true;
        }
        i = i + 1;
    }
    false
}

proof fn lemma_count_update(s: Seq<Account>, i: int, a: Account)
    requires
        0 <= i < s.len(),
    ensures
        count_eligible(s.update(i, a)) + (if eligible(s[i]) { 1nat } else { 0nat })
            == count_eligible(s) + (if eligible(a) { 1nat } else { 0nat }),
    decreases s.len(),
{
    if i < s.len() - 1 {
        lemma_count_update(s.drop_last(), i, a);
        assert(s.update(i, a).drop_last() =~= s.drop_last().update(i, a));
    } else {
        assert(s.update(i, a).drop_last() =~= s.drop_last());
    }
}

proof fn lemma_pick_from_sound(s: Seq<Account>, cursor: int, exclude: Seq<String>, k: int)
    requires
        s.len() > 0,
        0 <= k,
    ensures
        pick_from(s, cursor, exclude, k) matches Some(i) ==> 0 <= i < s.len() && selectable(s[i], exclude),
        pick_from(s, cursor, exclude, k) is None ==> forall|m: int| k <= m < s.len() ==> !selectable(#[trigger] s[(cursor + m) % (s.len() as int)], exclude),
    decreases s.len() - k,
{
    if k < s.len() {
        lemma_pick_from_sound(s, cursor, exclude, k + 1);
    }
}

/// The round-robin choice is selectable, and it is absent only when no
/// account is.
pub proof fn lemma_rotation_pick(s: Seq<Account>, cursor: nat, exclude: Seq<String>)
    ensures
        rotation_pick(s, cursor, exclude) matches Some(i) ==> 0 <= i < s.len() && selectable(s[i], exclude),
        rotation_pick(s, cursor, exclude) is None <==> forall|i: int| 0 <= i < s.len() ==> !selectable(#[trigger] s[i], exclude),
{
    if s.len() > 0 {
        lemma_pick_from_sound(s, cursor as int, exclude, 0);
        if rotation_pick(s, cursor, exclude) is None {
            assert forall|i: int| 0 <= i < s.len() implies !selectable(#[trigger] s[i], exclude) by {
                let n = s.len() as int;
                let cursor = cursor as int;
                let c = cursor % n;
                vstd::arithmetic::div_mod::lemma_mod_pos_bound(cursor, n);
                let m = if i >= c { i - c } else { i - c + n };
                vstd::arithmetic::div_mod::lemma_small_mod(m as nat, n as nat);
                vstd::arithmetic::div_mod::lemma_add_mod_noop(cursor, m, n);
                if i >= c {
                    vstd::arithmetic::div_mod::lemma_small_mod(i as nat, n as nat);
                    assert(c + m == i);
                } else {
                    vstd::arithmetic::div_mod::lemma_mod_add_multiples_vanish(i, n);
                    vstd::arithmetic::div_mod::lemma_small_mod(i as nat, n as nat);
                    assert(c + m == n + i);
                }
                assert((cursor + m) % n == i);
                assert(!selectable(s[(cursor + m) % n], exclude));
            }
        }
    }
}

/// The accounts the dispatcher may use, with a round-robin cursor.
pub struct AccountPool {
    accounts: Vec<Account>,
    cursor: usize,
}

impl AccountPool {
    pub closed spec fn accounts_spec(&self) -> Seq<Account> {
        self.accounts@
    }

    pub closed spec fn cursor_spec(&self) -> nat {
        self.cursor as nat
    }

    pub closed spec fn wf(&self) -> bool {
        unique_ids(self.accounts@)
    }

    pub fn new() -> (r: AccountPool)
        ensures
            r.wf(),
            r.accounts_spec() == Seq::<Account>::empty(),
            r.cursor_spec() == 0,
    {
        AccountPool { accounts: Vec::new(), cursor: 0 }
    }

    /// All records, eligible or not, for administrative listing.
    pub fn accounts(&self) -> (r: &Vec<Account>)
        ensures
            r@ == self.accounts_spec(),
    {
        &self.accounts
    }

    /// Replaces the pool with `records` (the first record of each id kept),
    /// resets the rotation, and returns how many are eligible.
    pub fn load(&mut self, records: Vec<Account>) -> (r: usize)
        ensures
            final(self).wf(),
            final(self).accounts_spec() == first_of_each_id(records@),
            final(self).cursor_spec() == 0,
            r == count_eligible(final(self).accounts_spec()),
    {
        let mut out: Vec<Account> = Vec::new();
        let mut count: usize = 0;
        let mut i: usize = 0;
        while i < records.len()
            invariant
                i <= records@.len(),
                out@ == first_of_each_id(records@.subrange(0, i as int)),
                unique_ids(out@),
                out@.len() <= i,
                count == count_eligible(out@),
                count <= out@.len(),
            decreases records@.len() - i,
        {
            let ghost pre = records@.subrange(0, i as int);
            assert(records@.subrange(0, i + 1).drop_last() =~= pre);
            let mut found = false;
            let mut j: usize = 0;
            while j < out.len()
                invariant
                    j <= out@.len(),
                    i < records@.len(),
                    !found ==> forall|k: int| 0 <= k < j ==> (#[trigger] out@[k]).id@ != records@[i as int].id@,
                    found ==> has_id(out@, records@[i as int].id@),
                decreases out@.len() - j,
            {
                if out[j].id == records[i].id {
                    found = true;
                }
                j = j + 1;
            }
            if !found {
                let a = records[i].duplicate();
                let ghost before = out@;
                let e = a.is_eligible();
                out.push(a);
                assert(out@.drop_last() =~= before);
                if e {
                    count = count + 1;
                }
            }
            i = i + 1;
        }
        assert(records@.subrange(0, records@.len() as int) =~= records@);
        self.accounts = out;
        self.cursor = 0;
        count
    }

    /// Number of currently eligible accounts.
    pub fn count(&self) -> (r: usize)
        ensures
            r == count_eligible(self.accounts_spec()),
    {
        let mut c: usize = 0;
        let mut i: usize = 0;
        while i < self.accounts.len()
            invariant
                i <= self.accounts@.len(),
                c == count_eligible(self.accounts@.subrange(0, i as int)),
                c <= i,
            decreases self.accounts@.len() - i,
        {
            assert(self.accounts@.subrange(0, i + 1).drop_last() =~= self.accounts@.subrange(0, i as int));
            if self.accounts[i].is_eligible() {
                c = c + 1;
            }
            i = i + 1;
        }
        assert(self.accounts@.subrange(0, self.accounts@.len() as int) =~= self.accounts@);
        c
    }

    /// Position of the account with `id`.
    pub fn position(&self, id: &String) -> (r: Option<usize>)
        requires
            self.wf(),
        ensures
            r is Some <==> has_id(self.accounts_spec(), id@),
            r matches Some(i) ==> i == index_of(self.accounts_spec(), id@) && self.accounts_spec()[i as int].id@ == id@,
    {
        let mut i: usize = 0;
        while i < self.accounts.len()
            invariant
                i <= self.accounts@.len(),
                unique_ids(self.accounts@),
                forall|k: int| 0 <= k < i ==> (#[trigger] self.accounts@[k]).id@ != id@,
            decreases self.accounts@.len() - i,
        {
            if self.accounts[i].id == *id {
                proof {
                    assert(has_id(self.accounts@, id@));
                    let c = index_of(self.accounts@, id@);
                    assert(0 <= c < self.accounts@.len() && self.accounts@[c].id@ == id@);
                    if c != i as int {
                        assert(self.accounts@[c].id@ != self.accounts@[i as int].id@);
                    }
                }
                return Some(i);
            }
            i = i + 1;
        }
        None
    }

    /// Whether the account with `id` exists and may serve requests.
    pub fn is_eligible(&self, id: &String) -> (r: bool)
        requires
            self.wf(),
        ensures
            r == (has_id(self.accounts_spec(), id@) && eligible(self.accounts_spec()[index_of(self.accounts_spec(), id@)])),
    {
        match self.position(id) {
            Some(i) => self.accounts[i].is_eligible(),
            None => false,
        }
    }

    /// The next eligible account not in `exclude`, in round-robin order from
    /// the cursor; the cursor then moves past it.
    pub fn select_next(&mut self, exclude: &Vec<String>) -> (r: Result<String, PoolError>)
        requires
            old(self).wf(),
        ensures
            final(self).wf(),
            final(self).accounts_spec() == old(self).accounts_spec(),
            match rotation_pick(old(self).accounts_spec(), old(self).cursor_spec(), exclude@) {
                Some(i) => r matches Ok(id) && id@ == old(self).accounts_spec()[i].id@
                    && final(self).cursor_spec() == (i + 1) % (old(self).accounts_spec().len() as int),
                None => r == Err::<String, PoolError>(PoolError::NoEligibleAccount)
                    && final(self).cursor_spec() == old(self).cursor_spec(),
            },
            r matches Ok(id) ==> exists|i: int| 0 <= i < old(self).accounts_spec().len()
                && (#[trigger] old(self).accounts_spec()[i]).id@ == id@
                && selectable(old(self).accounts_spec()[i], exclude@),
            r is Err <==> forall|i: int| 0 <= i < old(self).accounts_spec().len() ==> !selectable(#[trigger] old(self).accounts_spec()[i], exclude@),
    {
        proof {
            lemma_rotation_pick(self.accounts@, self.cursor as nat, exclude@);
        }
        let n = self.accounts.len();
        let mut k: usize = 0;
        while k < n
            invariant
                n == self.accounts@.len(),
                k <= n,
                self.accounts@ == old(self).accounts@,
                self.cursor == old(self).cursor,
                unique_ids(self.accounts@),
                rotation_pick(self.accounts@, self.cursor as nat, exclude@) == pick_from(self.accounts@, self.cursor as int, exclude@, k as int),
            decreases n - k,
        {
            let idx = ((self.cursor as u128 + k as u128) % (n as u128)) as usize;
            let a = &self.accounts[idx];
            if a.is_eligible() && !vec_contains_id(exclude, &a.id) {
                let id = a.id.clone();
                self.cursor = if idx + 1 < n { idx + 1 } else { 0 };
                proof {
                    if idx + 1 < n {
                        vstd::arithmetic::div_mod::lemma_small_mod((idx + 1) as nat, n as nat);
                    } else {
                        vstd::arithmetic::div_mod::lemma_mod_self_0(n as int);
                    }
                }
                return Ok(id);
            }
            k = k + 1;
        }
        Err(PoolError::NoEligibleAccount)
    }

    /// Takes the account out of the selectable set, keeping its record.
    /// Returns whether an account with `id` exists.
    pub fn mark_ineligible(&mut self, id: &String, reason: String, now: i64) -> (r: bool)
        requires
            old(self).wf(),
        ensures
            final(self).wf(),
            final(self).cursor_spec() == old(self).cursor_spec(),
            r == has_id(old(self).accounts_spec(), id@),
            r ==> final(self).accounts_spec() == old(self).accounts_spec().update(
                index_of(old(self).accounts_spec(), id@),
                with_enabled(old(self).accounts_spec()[index_of(old(self).accounts_spec(), id@)], false, Some(reason), Some(now)),
            ),
            !r ==> final(self).accounts_spec() == old(self).accounts_spec(),
    {
        match self.position(id) {
            Some(i) => {
                let ghost before = self.accounts@;
                self.accounts[i].enabled = false;
                self.accounts[i].disabled_reason = Some(reason);
                self.accounts[i].disabled_at = Some(now);
                assert(self.accounts@ =~= before.update(i as int, with_enabled(before[i as int], false, Some(reason), Some(now))));
                assert forall|p: int, q: int| 0 <= p < self.accounts@.len() && 0 <= q < self.accounts@.len() && p != q implies
                    (#[trigger] self.accounts@[p]).id@ != (#[trigger] self.accounts@[q]).id@ by {
                    assert(before[p].id@ != before[q].id@);
                }
                true
            },
            None => false,
        }
    }

    /// Puts the account back into the selectable set (if its quota allows).
    pub fn mark_enabled(&mut self, id: &String) -> (r: bool)
        requires
            old(self).wf(),
        ensures
            final(self).wf(),
            final(self).cursor_spec() == old(self).cursor_spec(),
            r == has_id(old(self).accounts_spec(), id@),
            r ==> final(self).accounts_spec() == old(self).accounts_spec().update(
                index_of(old(self).accounts_spec(), id@),
                with_enabled(old(self).accounts_spec()[index_of(old(self).accounts_spec(), id@)], true, None, None),
            ),
            !r ==> final(self).accounts_spec() == old(self).accounts_spec(),
    {
        match self.position(id) {
            Some(i) => {
                let ghost before = self.accounts@;
                self.accounts[i].enabled = true;
                self.accounts[i].disabled_reason = None;
                self.accounts[i].disabled_at = None;
                assert(self.accounts@ =~= before.update(i as int, with_enabled(before[i as int], true, None, None)));
                assert forall|p: int, q: int| 0 <= p < self.accounts@.len() && 0 <= q < self.accounts@.len() && p != q implies
                    (#[trigger] self.accounts@[p]).id@ != (#[trigger] self.accounts@[q]).id@ by {
                    assert(before[p].id@ != before[q].id@);
                }
                true
            },
            None => false,
        }
    }

    /// Marks the account's quota forbidden (the upstream rate-limited it).
    pub fn mark_forbidden(&mut self, id: &String) -> (r: bool)
        requires
            old(self).wf(),
        ensures
            final(self).wf(),
            final(self).cursor_spec() == old(self).cursor_spec(),
            r == has_id(old(self).accounts_spec(), id@),
            r ==> final(self).accounts_spec() == old(self).accounts_spec().update(
                index_of(old(self).accounts_spec(), id@),
                with_forbidden(old(self).accounts_spec()[index_of(old(self).accounts_spec(), id@)]),
            ),
            !r ==> final(self).accounts_spec() == old(self).accounts_spec(),
    {
        match self.position(id) {
            Some(i) => {
                let ghost before = self.accounts@;
                let q = match self.accounts[i].quota {
                    Some(q) => QuotaSnapshot { forbidden: true, ..q },
                    None => QuotaSnapshot { used: 0, limit: 0, forbidden: true },
                };
                self.accounts[i].quota = Some(q);
                assert(self.accounts@ =~= before.update(i as int, with_forbidden(before[i as int])));
                assert forall|p: int, q: int| 0 <= p < self.accounts@.len() && 0 <= q < self.accounts@.len() && p != q implies
                    (#[trigger] self.accounts@[p]).id@ != (#[trigger] self.accounts@[q]).id@ by {
                    assert(before[p].id@ != before[q].id@);
                }
                true
            },
            None => false,
        }
    }

    /// Stores a fetched quota snapshot for the account.
    pub fn update_quota(&mut self, id: &String, quota: QuotaSnapshot) -> (r: bool)
        requires
            old(self).wf(),
        ensures
            final(self).wf(),
            final(self).cursor_spec() == old(self).cursor_spec(),
            r == has_id(old(self).accounts_spec(), id@),
            r ==> final(self).accounts_spec() == old(self).accounts_spec().update(
                index_of(old(self).accounts_spec(), id@),
                Account { quota: Some(quota), ..old(self).accounts_spec()[index_of(old(self).accounts_spec(), id@)] },
            ),
            !r ==> final(self).accounts_spec() == old(self).accounts_spec(),
    {
        match self.position(id) {
            Some(i) => {
                let ghost before = self.accounts@;
                self.accounts[i].quota = Some(quota);
                assert(self.accounts@ =~= before.update(i as int, Account { quota: Some(quota), ..before[i as int] }));
                assert forall|p: int, q: int| 0 <= p < self.accounts@.len() && 0 <= q < self.accounts@.len() && p != q implies
                    (#[trigger] self.accounts@[p]).id@ != (#[trigger] self.accounts@[q]).id@ by {
                    assert(before[p].id@ != before[q].id@);
                }
                true
            },
            None => false,
        }
    }
}


/// The account after a successful refresh: new access token and expiry, the
/// refresh token replaced only when a new one was issued.
pub open spec fn refreshed(a: Account, access: String, reissued: Option<String>, expires_in: i64, now: i64) -> Account {
    Account {
        token: Token {
            access_token: access,
            refresh_token: match reissued {
                Some(t) => t,
                None => a.token.refresh_token,
            },
            expiry_timestamp: saturating_add_i64(now, expires_in),
        },
        ..a
    }
}

/// How the pool `s` becomes `t`, and what is answered, when the answer
/// `outcome` to a refresh of account `id` is applied at `now`.
pub open spec fn refresh_result(
    s: Seq<Account>,
    id: Seq<char>,
    outcome: RefreshOutcome,
    now: i64,
    t: Seq<Account>,
    r: Result<String, PoolError>,
) -> bool {
    if !has_id(s, id) {
        r == Err::<String, PoolError>(PoolError::UnknownAccount) && t == s
    } else {
        let k = index_of(s, id);
        let a = s[k];
        match outcome {
            RefreshOutcome::Refreshed { access_token, refresh_token, expires_in } =>
                r == Ok::<String, PoolError>(access_token)
                && t == s.update(k, refreshed(a, access_token, refresh_token, expires_in, now)),
            RefreshOutcome::Revoked =>
                r == Err::<String, PoolError>(PoolError::CredentialRevoked)
                && t == s.update(k, t[k])
                && t[k] == with_enabled(a, false, t[k].disabled_reason, Some(now))
                && (t[k].disabled_reason matches Some(why) && why@ == revoked_reason()),
            RefreshOutcome::Failed =>
                r == Err::<String, PoolError>(PoolError::RefreshFailed) && t == s,
        }
    }
}

impl AccountPool {
    /// Whether the account's access token can be used as it is, or its refresh
    /// token must first be exchanged.
    pub fn token_check(&self, id: &String, now: i64) -> (r: Result<TokenCheck, PoolError>)
        requires
            self.wf(),
        ensures
            r == token_check_spec(self.accounts_spec(), id@, now),
    {
        match self.position(id) {
            None => Err(PoolError::UnknownAccount),
            Some(i) => {
                let t = &self.accounts[i].token;
                if (t.expiry_timestamp as i128) - (now as i128) <= REFRESH_MARGIN_SECS as i128 {
                    Ok(TokenCheck::NeedsRefresh(t.refresh_token.clone()))
                } else {
                    Ok(TokenCheck::Fresh(t.access_token.clone()))
                }
            },
        }
    }

    /// Applies the answer to a refresh request. A revoked grant disables the
    /// account with reason "credential revoked"; any other failure leaves the
    /// pool as it was.
    pub fn apply_refresh(&mut self, id: &String, outcome: RefreshOutcome, now: i64) -> (r: Result<String, PoolError>)
        requires
            old(self).wf(),
        ensures
            final(self).wf(),
            final(self).cursor_spec() == old(self).cursor_spec(),
            refresh_result(old(self).accounts_spec(), id@, outcome, now, final(self).accounts_spec(), r),
    {
        let pos = self.position(id);
        if pos.is_none() {
            return Err(PoolError::UnknownAccount);
        }
        let i = pos.unwrap();
        match outcome {
            RefreshOutcome::Refreshed { access_token, refresh_token, expires_in } => {
                let ghost before = self.accounts@;
                let ghost reissued = refresh_token;
                let ghost access = access_token;
                let expiry: i64 = if (now as i128) + (expires_in as i128) > i64::MAX as i128 {
                    i64::MAX
                } else if (now as i128) + (expires_in as i128) < i64::MIN as i128 {
                    i64::MIN
                } else {
                    now + expires_in
                };
                let result = access_token.clone();
                self.accounts[i].token.access_token = access_token;
                match refresh_token {
                    Some(t) => {
                        self.accounts[i].token.refresh_token = t;
                    },
                    None => {},
                }
                self.accounts[i].token.expiry_timestamp = expiry;
                proof {
                    assert(self.accounts@ =~= before.update(i as int, refreshed(before[i as int], access, reissued, expires_in, now)));
                    assert forall|p: int, q: int| 0 <= p < self.accounts@.len() && 0 <= q < self.accounts@.len() && p != q implies
                        (#[trigger] self.accounts@[p]).id@ != (#[trigger] self.accounts@[q]).id@ by {
                        assert(before[p].id@ != before[q].id@);
                    }
                }
                Ok(result)
            },
            RefreshOutcome::Revoked => {
                let reason = String::from_str("credential revoked");
                self.mark_ineligible(id, reason, now);
                Err(PoolError::CredentialRevoked)
            },
            RefreshOutcome::Failed => Err(PoolError::RefreshFailed),
        }
    }
}

/// An eligible account that is taken out of the selectable set lowers the
/// eligible count by one and is never chosen by the rotation afterwards.
pub proof fn lemma_disable_leaves_rotation(
    s: Seq<Account>,
    i: int,
    reason: Option<String>,
    at: Option<i64>,
    cursor: nat,
    exclude: Seq<String>,
)
    requires
        0 <= i < s.len(),
        eligible(s[i]),
    ensures
        count_eligible(s.update(i, with_enabled(s[i], false, reason, at))) + 1 == count_eligible(s),
        rotation_pick(s.update(i, with_enabled(s[i], false, reason, at)), cursor, exclude) != Some(i),
{
    let t = s.update(i, with_enabled(s[i], false, reason, at));
    lemma_count_update(s, i, with_enabled(s[i], false, reason, at));
    lemma_rotation_pick(t, cursor, exclude);
}


/// Ids of the eligible accounts, in pool order.
pub open spec fn eligible_ids(s: Seq<Account>) -> Seq<Seq<char>>
    decreases s.len(),
{
    if s.len() == 0 {
        Seq::empty()
    } else {
        eligible_ids(s.drop_last()) + if eligible(s.last()) { seq![s.last().id@] } else { Seq::empty() }
    }
}

pub open spec fn default_disable_reason() -> Seq<char> {
    "用户手动禁用"@
}

/// Relies on `chrono::Utc::now` and `timestamp`: the current Unix time in
/// seconds.
#[verifier::external_body]
fn unix_now() -> (r: i64) {
    chrono::Utc::now().timestamp()
}

impl AccountPool {
    /// The accounts whose quota is worth fetching: the eligible ones.
    pub fn quota_refresh_targets(&self) -> (r: Vec<String>)
        ensures
            r@.map_values(|s: String| s@) == eligible_ids(self.accounts_spec()),
    {
        let mut out: Vec<String> = Vec::new();
        let mut i: usize = 0;
        while i < self.accounts.len()
            invariant
                i <= self.accounts@.len(),
                out@.map_values(|s: String| s@) == eligible_ids(self.accounts@.subrange(0, i as int)),
            decreases self.accounts@.len() - i,
        {
            let ghost before = out@;
            assert(self.accounts@.subrange(0, i + 1).drop_last() =~= self.accounts@.subrange(0, i as int));
            if self.accounts[i].is_eligible() {
                out.push(self.accounts[i].id.clone());
            }
            assert(out@.map_values(|s: String| s@) =~= eligible_ids(self.accounts@.subrange(0, i + 1)));
            i = i + 1;
        }
        assert(self.accounts@.subrange(0, self.accounts@.len() as int) =~= self.accounts@);
        out
    }

    /// Enables the account for the proxy, or disables it with `reason` (a
    /// default reason when none is given) as of `now`.
    pub fn set_proxy_status(&mut self, id: &String, enable: bool, reason: Option<String>, now: i64) -> (r: bool)
        requires
            old(self).wf(),
        ensures
            final(self).wf(),
            final(self).cursor_spec() == old(self).cursor_spec(),
            r == has_id(old(self).accounts_spec(), id@),
            !r ==> final(self).accounts_spec() == old(self).accounts_spec(),
            r ==> {
                let k = index_of(old(self).accounts_spec(), id@);
                let a = old(self).accounts_spec()[k];
                final(self).accounts_spec() == old(self).accounts_spec().update(k, final(self).accounts_spec()[k])
                && if enable {
                    final(self).accounts_spec()[k] == with_enabled(a, true, None, None)
                } else {
                    final(self).accounts_spec()[k] == with_enabled(a, false, final(self).accounts_spec()[k].disabled_reason, Some(now))
                    && (final(self).accounts_spec()[k].disabled_reason matches Some(why) && why@ == match reason {
                        Some(given) => given@,
                        None => default_disable_reason(),
                    })
                }
            },
    {
        if enable {
            self.mark_enabled(id)
        } else {
            let why = match reason {
                Some(given) => given,
                None => String::from_str("用户手动禁用"),
            };
            self.mark_ineligible(id, why, now)
        }
    }

    /// `set_proxy_status` as of the current time.
    pub fn toggle_proxy_status(&mut self, id: &String, enable: bool, reason: Option<String>) -> (r: bool)
        requires
            old(self).wf(),
        ensures
            final(self).wf(),
            final(self).cursor_spec() == old(self).cursor_spec(),
            r == has_id(old(self).accounts_spec(), id@),
            !r ==> final(self).accounts_spec() == old(self).accounts_spec(),
            r ==> {
                let k = index_of(old(self).accounts_spec(), id@);
                let a = old(self).accounts_spec()[k];
                final(self).accounts_spec() == old(self).accounts_spec().update(k, final(self).accounts_spec()[k])
                && if enable {
                    final(self).accounts_spec()[k] == with_enabled(a, true, None, None)
                } else {
                    final(self).accounts_spec()[k] == with_enabled(a, false, final(self).accounts_spec()[k].disabled_reason, final(self).accounts_spec()[k].disabled_at)
                    && final(self).accounts_spec()[k].disabled_at is Some
                    && (final(self).accounts_spec()[k].disabled_reason matches Some(why) && why@ == match reason {
                        Some(given) => given@,
                        None => default_disable_reason(),
                    })
                }
            },
    {
        let now = unix_now();
        self.set_proxy_status(id, enable, reason, now)
    }
}

/// How fetching one account's quota went.
pub enum QuotaFetchOutcome {
    Stored,
    StoreFailed,
    FetchFailed(String),
}

/// Summary of a quota refresh over several accounts.
pub struct RefreshStats {
    pub total: usize,
    pub success: usize,
    pub failed: usize,
    /// The messages of failed fetches, in order.
    pub details: Vec<String>,
}

pub open spec fn count_stored(s: Seq<QuotaFetchOutcome>) -> nat
    decreases s.len(),
{
    if s.len() == 0 {
        0
    } else {
        count_stored(s.drop_last()) + if s.last() is Stored { 1nat } else { 0nat }
    }
}

pub open spec fn fetch_messages(s: Seq<QuotaFetchOutcome>) -> Seq<Seq<char>>
    decreases s.len(),
{
    if s.len() == 0 {
        Seq::empty()
    } else {
        fetch_messages(s.drop_last()) + match s.last() {
            QuotaFetchOutcome::FetchFailed(m) => seq![m@],
            _ => Seq::empty(),
        }
    }
}

impl RefreshStats {
    /// Counts the outcomes: stored ones succeed, the rest fail.
    pub fn tally(outcomes: Vec<QuotaFetchOutcome>) -> (r: RefreshStats)
        ensures
            r.success == count_stored(outcomes@),
            r.failed == outcomes@.len() - count_stored(outcomes@),
            r.total == outcomes@.len(),
            r.details@.map_values(|s: String| s@) == fetch_messages(outcomes@),
    {
        let mut success: usize = 0;
        let mut failed: usize = 0;
        let mut details: Vec<String> = Vec::new();
        let mut i: usize = 0;
        while i < outcomes.len()
            invariant
                i <= outcomes@.len(),
                success == count_stored(outcomes@.subrange(0, i as int)),
                success + failed == i,
                details@.map_values(|s: String| s@) == fetch_messages(outcomes@.subrange(0, i as int)),
            decreases outcomes@.len() - i,
        {
            assert(outcomes@.subrange(0, i + 1).drop_last() =~= outcomes@.subrange(0, i as int));
            match &outcomes[i] {
                QuotaFetchOutcome::Stored => {
                    success = success + 1;
                },
                QuotaFetchOutcome::StoreFailed => {
                    failed = failed + 1;
                },
                QuotaFetchOutcome::FetchFailed(m) => {
                    failed = failed + 1;
                    details.push(m.clone());
                },
            }
            assert(details@.map_values(|s: String| s@) =~= fetch_messages(outcomes@.subrange(0, i + 1)));
            i = i + 1;
        }
        assert(outcomes@.subrange(0, outcomes@.len() as int) =~= outcomes@);
        RefreshStats { total: success + failed, success, failed, details }
    }
}


impl AccountPool {
    /// In a well-formed pool an account's id leads back to it.
    pub proof fn lemma_index_of_own_id(&self, k: int)
        requires
            self.wf(),
            0 <= k < self.accounts_spec().len(),
        ensures
            has_id(self.accounts_spec(), self.accounts_spec()[k].id@),
            index_of(self.accounts_spec(), self.accounts_spec()[k].id@) == k,
    {
        let s = self.accounts@;
        assert(has_id(s, s[k].id@));
        let c = index_of(s, s[k].id@);
        if c != k {
            assert(s[c].id@ != s[k].id@);
        }
    }
}

} // verus!
