//! Session affinity: a session key keeps routing to the account it was first
//! given while that account stays eligible and the binding stays fresh.

use vstd::prelude::*;
use crate::pool::{AccountPool, PoolError, Account, eligible, has_id, index_of, rotation_pick};

verus! {

/// Stickiness policy.
#[derive(Clone, Copy, Debug, PartialEq, Eq, Structural)]
pub struct StickySessionConfig {
    pub enabled: bool,
    /// Seconds a binding may stay unused before it lapses.
    pub ttl_secs: u64,
    /// Most bindings kept; beyond it the least recently used one goes.
    pub max_bindings: usize,
}

impl StickySessionConfig {
    pub fn default_policy() -> (r: StickySessionConfig)
        ensures
            r.enabled && r.ttl_secs == 3600 && r.max_bindings == 1024,
    {
        StickySessionConfig { enabled: true, ttl_secs: 3600, max_bindings: 1024 }
    }
}

/// Affinity of one session key to one account.
pub struct SessionBinding {
    pub key: String,
    pub account_id: String,
    pub created_at: i64,
    pub last_used: i64,
}

pub open spec fn unique_keys(bs: Seq<SessionBinding>) -> bool {
    forall|i: int, j: int| 0 <= i < bs.len() && 0 <= j < bs.len() && i != j ==> (#[trigger] bs[i]).key@ != (#[trigger] bs[j]).key@
}

pub open spec fn has_key(bs: Seq<SessionBinding>, key: Seq<char>) -> bool {
    exists|i: int| 0 <= i < bs.len() && (#[trigger] bs[i]).key@ == key
}

pub open spec fn key_index(bs: Seq<SessionBinding>, key: Seq<char>) -> int {
    choose|i: int| 0 <= i < bs.len() && (#[trigger] bs[i]).key@ == key
}

/// `bs[b]` was used no later than any other binding.
pub open spec fn least_recent(bs: Seq<SessionBinding>, b: int) -> bool {
    forall|k: int| 0 <= k < bs.len() ==> bs[b].last_used <= (#[trigger] bs[k]).last_used
}

pub open spec fn holds_binding(bs: Seq<SessionBinding>, x: SessionBinding) -> bool {
    exists|m: int| 0 <= m < bs.len() && bs[m] == x
}

/// A binding last used at `last_used` is still fresh at `now`.
pub open spec fn fresh(last_used: i64, now: i64, ttl: u64) -> bool {
    now - last_used <= ttl
}

/// The binding of `key` decides the request: stickiness is on, the binding
/// is fresh, and its account exists and is eligible.
pub open spec fn sticky_hit(cfg: StickySessionConfig, bs: Seq<SessionBinding>, accts: Seq<Account>, key: Seq<char>, now: i64) -> bool {
    cfg.enabled && has_key(bs, key) && {
        let b = bs[key_index(bs, key)];
        fresh(b.last_used, now, cfg.ttl_secs) && has_id(accts, b.account_id@) && eligible(accts[index_of(accts, b.account_id@)])
    }
}

/// `key` is bound to `id`, last used at `at`.
pub open spec fn binds(bs: Seq<SessionBinding>, key: Seq<char>, id: Seq<char>, at: i64) -> bool {
    has_key(bs, key) && bs[key_index(bs, key)].account_id@ == id && bs[key_index(bs, key)].last_used == at
}

pub struct StickyRouter {
    config: StickySessionConfig,
    bindings: Vec<SessionBinding>,
}

proof fn lemma_key_index(bs: Seq<SessionBinding>, i: int)
    requires
        unique_keys(bs),
        0 <= i < bs.len(),
    ensures
        has_key(bs, bs[i].key@),
        key_index(bs, bs[i].key@) == i,
{
    assert(has_key(bs, bs[i].key@));
    let c = key_index(bs, bs[i].key@);
    if c != i {
        assert(bs[c].key@ != bs[i].key@);
    }
}

proof fn lemma_unique_remove(bs: Seq<SessionBinding>, i: int)
    requires
        unique_keys(bs),
        0 <= i < bs.len(),
    ensures
        unique_keys(bs.remove(i)),
        !has_key(bs.remove(i), bs[i].key@),
        forall|k: Seq<char>| k != bs[i].key@ ==> has_key(bs.remove(i), k) == has_key(bs, k),
{
    let r = bs.remove(i);
    assert forall|p: int, q: int| 0 <= p < r.len() && 0 <= q < r.len() && p != q implies (#[trigger] r[p]).key@ != (#[trigger] r[q]).key@ by {
        let pp = if p < i { p } else { p + 1 };
        let qq = if q < i { q } else { q + 1 };
        assert(r[p] == bs[pp] && r[q] == bs[qq]);
    }
    if has_key(r, bs[i].key@) {
        let c = choose|c: int| 0 <= c < r.len() && (#[trigger] r[c]).key@ == bs[i].key@;
        let cc = if c < i { c } else { c + 1 };
        assert(r[c] == bs[cc]);
    }
    assert forall|k: Seq<char>| k != bs[i].key@ implies has_key(r, k) == has_key(bs, k) by {
        if has_key(bs, k) {
            let c = choose|c: int| 0 <= c < bs.len() && (#[trigger] bs[c]).key@ == k;
            let cc = if c < i { c } else { c - 1 };
            assert(r[cc] == bs[c]);
        }
        if has_key(r, k) {
            let c = choose|c: int| 0 <= c < r.len() && (#[trigger] r[c]).key@ == k;
            let cc = if c < i { c } else { c + 1 };
            assert(r[c] == bs[cc]);
        }
    }
}

impl StickyRouter {
    pub closed spec fn config_spec(&self) -> StickySessionConfig {
        self.config
    }

    pub closed spec fn bindings_spec(&self) -> Seq<SessionBinding> {
        self.bindings@
    }

    pub closed spec fn wf(&self) -> bool {
        unique_keys(self.bindings@) && self.bindings@.len() <= self.config.max_bindings
    }

    pub fn new(config: StickySessionConfig) -> (r: StickyRouter)
        ensures
            r.wf(),
            r.config_spec() == config,
            r.bindings_spec() == Seq::<SessionBinding>::empty(),
    {
        StickyRouter { config, bindings: Vec::new() }
    }

    pub fn get_config(&self) -> (r: StickySessionConfig)
        ensures
            r == self.config_spec(),
    {
        self.config
    }

    pub fn len(&self) -> (r: usize)
        ensures
            r == self.bindings_spec().len(),
    {
        self.bindings.len()
    }

    fn find(&self, key: &String) -> (r: Option<usize>)
        requires
            unique_keys(self.bindings@),
        ensures
            r is Some <==> has_key(self.bindings@, key@),
            r matches Some(i) ==> i == key_index(self.bindings@, key@) && i < self.bindings@.len(),
    {
        let mut i: usize = 0;
        while i < self.bindings.len()
            invariant
                i <= self.bindings@.len(),
                unique_keys(self.bindings@),
                forall|k: int| 0 <= k < i ==> (#[trigger] self.bindings@[k]).key@ != key@,
            decreases self.bindings@.len() - i,
        {
            if self.bindings[i].key == *key {
                proof {
                    lemma_key_index(self.bindings@, i as int);
                }
                return Some(i);
            }
            i = i + 1;
        }
        None
    }

    /// The account bound to `key`, if any.
    pub fn bound_account(&self, key: &String) -> (r: Option<String>)
        requires
            self.wf(),
        ensures
            r is Some <==> has_key(self.bindings_spec(), key@),
            r matches Some(id) ==> id == self.bindings_spec()[key_index(self.bindings_spec(), key@)].account_id,
    {
        match self.find(key) {
            Some(i) => Some(self.bindings[i].account_id.clone()),
            None => None,
        }
    }

    /// Removes the least recently used binding.
    fn evict_lru(&mut self)
        requires
            unique_keys(old(self).bindings@),
            old(self).bindings@.len() > 0,
        ensures
            unique_keys(final(self).bindings@),
            final(self).bindings@.len() == old(self).bindings@.len() - 1,
            final(self).config == old(self).config,
            forall|k: Seq<char>| has_key(final(self).bindings@, k) ==> has_key(old(self).bindings@, k),
            exists|b: int| 0 <= b < old(self).bindings@.len() && final(self).bindings@ == old(self).bindings@.remove(b)
                && least_recent(old(self).bindings@, b),
    {
        let mut best: usize = 0;
        let mut i: usize = 1;
        while i < self.bindings.len()
            invariant
                1 <= i <= self.bindings@.len(),
                best < self.bindings@.len(),
                forall|k: int| 0 <= k < i ==> self.bindings@[best as int].last_used <= (#[trigger] self.bindings@[k]).last_used,
            decreases self.bindings@.len() - i,
        {
            if self.bindings[i].last_used < self.bindings[best].last_used {
                best = i;
            }
            i = i + 1;
        }
        proof {
            lemma_unique_remove(self.bindings@, best as int);
        }
        let ghost before = self.bindings@;
        self.bindings.remove(best);
        assert(self.bindings@ == before.remove(best as int) && least_recent(before, best as int));
    }

    /// Binds `key` to `id` as of `now`, replacing an earlier binding of the
    /// key and making room by evicting the least recently used one.
    fn bind(&mut self, key: &String, id: String, now: i64)
        requires
            old(self).wf(),
        ensures
            final(self).wf(),
            final(self).config == old(self).config,
            old(self).config.max_bindings > 0 ==> binds(final(self).bindings@, key@, id@, now),
            has_key(old(self).bindings@, key@) ==> final(self).bindings@ == old(self).bindings@.update(
                key_index(old(self).bindings@, key@), (SessionBinding { key: *key, account_id: id, created_at: now, last_used: now })),
            (!has_key(old(self).bindings@, key@) && old(self).config.max_bindings == 0) ==> final(self).bindings@ == old(self).bindings@,
            (!has_key(old(self).bindings@, key@) && 0 < old(self).config.max_bindings && old(self).bindings@.len() < old(self).config.max_bindings)
                ==> final(self).bindings@ == old(self).bindings@.push((SessionBinding { key: *key, account_id: id, created_at: now, last_used: now })),
            (!has_key(old(self).bindings@, key@) && 0 < old(self).config.max_bindings && old(self).bindings@.len() >= old(self).config.max_bindings)
                ==> exists|b: int| 0 <= b < old(self).bindings@.len() && least_recent(old(self).bindings@, b)
                    && final(self).bindings@ == old(self).bindings@.remove(b).push((SessionBinding { key: *key, account_id: id, created_at: now, last_used: now })),
    {
        match self.find(key) {
            Some(i) => {
                let ghost before = self.bindings@;
                self.bindings.set(i, SessionBinding { key: key.clone(), account_id: id, created_at: now, last_used: now });
                proof {
                    assert forall|p: int, q: int| 0 <= p < self.bindings@.len() && 0 <= q < self.bindings@.len() && p != q implies
                        (#[trigger] self.bindings@[p]).key@ != (#[trigger] self.bindings@[q]).key@ by {
                        assert(before[p].key@ != before[q].key@);
                    }
                    lemma_key_index(self.bindings@, i as int);
                }
            },
            None => {
                if self.config.max_bindings == 0 {
                    return;
                }
                if self.bindings.len() >= self.config.max_bindings {
                    self.evict_lru();
                }
                let ghost before = self.bindings@;
                self.bindings.push(SessionBinding { key: key.clone(), account_id: id, created_at: now, last_used: now });
                proof {
                    assert forall|p: int, q: int| 0 <= p < self.bindings@.len() && 0 <= q < self.bindings@.len() && p != q implies
                        (#[trigger] self.bindings@[p]).key@ != (#[trigger] self.bindings@[q]).key@ by {
                        if p < before.len() && q < before.len() {
                            assert(before[p].key@ != before[q].key@);
                        } else if p < before.len() {
                            assert(self.bindings@[p] == before[p]);
                            assert(before[p].key@ != key@);
                        } else {
                            assert(self.bindings@[q] == before[q]);
                            assert(before[q].key@ != key@);
                        }
                    }
                    lemma_key_index(self.bindings@, before.len() as int);
                }
            },
        }
    }
}


impl StickyRouter {
    /// The account for a request with session key `key`: the bound account on
    /// a sticky hit (its binding then marked used at `now`), else the pool's
    /// next round-robin choice, which `key` is then bound to.
    pub fn resolve(&mut self, key: &Option<String>, pool: &mut AccountPool, now: i64) -> (r: Result<String, PoolError>)
        requires
            old(self).wf(),
            old(pool).wf(),
        ensures
            final(self).wf(),
            final(pool).wf(),
            final(self).config_spec() == old(self).config_spec(),
            final(pool).accounts_spec() == old(pool).accounts_spec(),
            (key matches Some(k) && sticky_hit(old(self).config_spec(), old(self).bindings_spec(), old(pool).accounts_spec(), k@, now))
                ==> r == Ok::<String, PoolError>(old(self).bindings_spec()[key_index(old(self).bindings_spec(), key->0@)].account_id)
                    && final(pool).cursor_spec() == old(pool).cursor_spec(),
            !(key matches Some(k) && sticky_hit(old(self).config_spec(), old(self).bindings_spec(), old(pool).accounts_spec(), k@, now))
                ==> match rotation_pick(old(pool).accounts_spec(), old(pool).cursor_spec(), Seq::<String>::empty()) {
                    Some(i) => r matches Ok(id) && id@ == old(pool).accounts_spec()[i].id@
                        && final(pool).cursor_spec() == (i + 1) % (old(pool).accounts_spec().len() as int),
                    None => r == Err::<String, PoolError>(PoolError::NoEligibleAccount)
                        && final(pool).cursor_spec() == old(pool).cursor_spec(),
                },
            (r matches Ok(id) && key matches Some(k) && old(self).config_spec().enabled && old(self).config_spec().max_bindings > 0)
                ==> binds(final(self).bindings_spec(), key->0@, r->Ok_0@, now),
    {
        if self.config.enabled {
            if let Some(k) = key {
                if let Some(i) = self.find(k) {
                    let last = self.bindings[i].last_used;
                    let id = self.bindings[i].account_id.clone();
                    if (now as i128) - (last as i128) <= self.config.ttl_secs as i128 && pool.is_eligible(&id) {
                        let ghost before = self.bindings@;
                        self.bindings[i].last_used = now;
                        proof {
                            assert forall|p: int, q: int| 0 <= p < self.bindings@.len() && 0 <= q < self.bindings@.len() && p != q implies
                                (#[trigger] self.bindings@[p]).key@ != (#[trigger] self.bindings@[q]).key@ by {
                                assert(before[p].key@ != before[q].key@);
                            }
                            lemma_key_index(self.bindings@, i as int);
                        }
                        return Ok(id);
                    }
                }
            }
        }
        let none: Vec<String> = Vec::new();
        let picked = pool.select_next(&none);
        assert(none@ =~= Seq::<String>::empty());
        if let Ok(id) = &picked {
            if self.config.enabled {
                if let Some(k) = key {
                    self.bind(k, id.clone(), now);
                }
            }
        }
        picked
    }

    /// Drops every binding.
    pub fn clear_all(&mut self)
        requires
            old(self).wf(),
        ensures
            final(self).wf(),
            final(self).config_spec() == old(self).config_spec(),
            final(self).bindings_spec() == Seq::<SessionBinding>::empty(),
    {
        self.bindings = Vec::new();
    }

    /// Installs a new policy, evicting least recently used bindings beyond its
    /// capacity.
    pub fn configure(&mut self, config: StickySessionConfig)
        requires
            old(self).wf(),
        ensures
            final(self).wf(),
            final(self).config_spec() == config,
            final(self).bindings_spec().len() == if old(self).bindings_spec().len() <= config.max_bindings {
                old(self).bindings_spec().len()
            } else {
                config.max_bindings as nat
            },
            forall|j: int| 0 <= j < final(self).bindings_spec().len() ==> holds_binding(old(self).bindings_spec(), #[trigger] final(self).bindings_spec()[j]),
            forall|i: int, j: int| 0 <= i < old(self).bindings_spec().len() && !has_key(final(self).bindings_spec(), old(self).bindings_spec()[i].key@)
                && 0 <= j < final(self).bindings_spec().len()
                ==> (#[trigger] old(self).bindings_spec()[i]).last_used <= (#[trigger] final(self).bindings_spec()[j]).last_used,
    {
        self.config = config;
        let ghost orig = self.bindings@;
        while self.bindings.len() > self.config.max_bindings
            invariant
                unique_keys(self.bindings@),
                unique_keys(orig),
                orig == old(self).bindings@,
                self.config == config,
                forall|j: int| 0 <= j < self.bindings@.len() ==> holds_binding(orig, #[trigger] self.bindings@[j]),
                forall|i: int, j: int| 0 <= i < orig.len() && !has_key(self.bindings@, orig[i].key@) && 0 <= j < self.bindings@.len()
                    ==> (#[trigger] orig[i]).last_used <= (#[trigger] self.bindings@[j]).last_used,
                old(self).bindings@.len() > config.max_bindings ==> self.bindings@.len() >= config.max_bindings,
                old(self).bindings@.len() <= config.max_bindings ==> self.bindings@ == old(self).bindings@,
            decreases self.bindings@.len(),
        {
            let ghost cur = self.bindings@;
            self.evict_lru();
            proof {
                let b = choose|b: int| 0 <= b < cur.len() && self.bindings@ == cur.remove(b) && least_recent(cur, b);
                lemma_unique_remove(cur, b);
                let now_b = self.bindings@;
                assert forall|j: int| 0 <= j < now_b.len() implies holds_binding(orig, #[trigger] now_b[j]) by {
                    let jj = if j < b { j } else { j + 1 };
                    assert(now_b[j] == cur[jj]);
                    assert(holds_binding(orig, cur[jj]));
                }
                assert forall|i: int, j: int| 0 <= i < orig.len() && !has_key(now_b, orig[i].key@) && 0 <= j < now_b.len()
                    implies (#[trigger] orig[i]).last_used <= (#[trigger] now_b[j]).last_used by {
                    let jj = if j < b { j } else { j + 1 };
                    assert(now_b[j] == cur[jj]);
                    if has_key(cur, orig[i].key@) {
                        assert(orig[i].key@ == cur[b].key@);
                        assert(holds_binding(orig, cur[b]));
                        let m = choose|m: int| 0 <= m < orig.len() && orig[m] == cur[b];
                        if m != i {
                            assert(orig[m].key@ != orig[i].key@);
                        }
                        assert(cur[b].last_used <= cur[jj].last_used);
                    } else {
                        assert(orig[i].last_used <= cur[jj].last_used);
                    }
                }
            }
        }
    }
}

/// With an unchanged eligible set, a key bound to `id` at `t1` resolves to
/// `id` again at any `t2` within the idle limit.
pub proof fn lemma_sticky_repeat(
    cfg: StickySessionConfig,
    bs: Seq<SessionBinding>,
    accts: Seq<Account>,
    key: Seq<char>,
    id: Seq<char>,
    t1: i64,
    t2: i64,
)
    requires
        cfg.enabled,
        binds(bs, key, id, t1),
        has_id(accts, id),
        eligible(accts[index_of(accts, id)]),
        t1 <= t2,
        t2 - t1 <= cfg.ttl_secs,
    ensures
        sticky_hit(cfg, bs, accts, key, t2),
        bs[key_index(bs, key)].account_id@ == id,
{
}

/// After every binding is dropped no key has a sticky hit, so the next
/// resolution is the pool's round-robin choice.
pub proof fn lemma_cleared_uses_rotation(cfg: StickySessionConfig, accts: Seq<Account>, key: Seq<char>, now: i64)
    ensures
        !sticky_hit(cfg, Seq::<SessionBinding>::empty(), accts, key, now),
{
}

} // verus!
