//! Proxy service lifecycle: at most one running instance, owning the pool,
//! the session router and the live configuration, with hot-reload entry
//! points and the telemetry monitor.

use vstd::prelude::*;
use crate::config::{ProxyConfig, SecurityPolicy, UpstreamProxyConfig, ZaiConfig, zai_active};
use crate::monitor::ProxyMonitor;
use crate::pool::{Account, AccountPool, PoolError, RefreshOutcome, TokenCheck, count_eligible, first_of_each_id};
use crate::dispatch::{DispatchAttempt, Outcome, Step, next_step_spec};
use crate::sticky::{StickyRouter, StickySessionConfig, SessionBinding, sticky_hit, key_index};
use crate::pool::rotation_pick;

verus! {

#[derive(Clone, Copy, Debug, PartialEq, Eq, Structural)]
pub enum ServiceError {
    AlreadyRunning,
    NotRunning,
    NoAccountsConfigured,
}

/// Snapshot of the service state.
#[derive(Clone, Copy, Debug, PartialEq, Eq, Structural)]
pub struct ProxyStatus {
    pub running: bool,
    pub port: u16,
    pub active_accounts: usize,
}

/// What `start` answers, given whether the service runs, how many accounts
/// the loaded pool makes eligible, and whether the secondary backend is on.
pub open spec fn start_outcome(running: bool, eligible: nat, secondary: bool) -> Result<(), ServiceError> {
    if running {
        Err(ServiceError::AlreadyRunning)
    } else if eligible == 0 && !secondary {
        Err(ServiceError::NoAccountsConfigured)
    } else {
        Ok(())
    }
}

pub open spec fn stop_outcome(running: bool) -> Result<(), ServiceError> {
    if running { Ok(()) } else { Err(ServiceError::NotRunning) }
}

/// The parts of a running service.
pub struct ProxyServiceInstance {
    pub config: ProxyConfig,
    pub pool: AccountPool,
    pub router: StickyRouter,
}

pub open spec fn instance_wf(i: ProxyServiceInstance) -> bool {
    i.pool.wf() && i.router.wf()
}

pub struct ProxyService {
    instance: Option<ProxyServiceInstance>,
    monitor: ProxyMonitor,
}

impl ProxyService {
    pub closed spec fn instance_spec(&self) -> Option<ProxyServiceInstance> {
        self.instance
    }

    pub closed spec fn monitor_spec(&self) -> ProxyMonitor {
        self.monitor
    }

    pub open spec fn running_spec(&self) -> bool {
        self.instance_spec() is Some
    }

    pub closed spec fn wf(&self) -> bool {
        self.monitor.wf() && (self.instance matches Some(i) ==> instance_wf(i))
    }

    /// A stopped service whose monitor keeps up to `log_capacity` entries.
    pub fn new(log_capacity: usize) -> (r: ProxyService)
        ensures
            r.wf(),
            !r.running_spec(),
            r.monitor_spec().entries() == Seq::<crate::monitor::RequestLog>::empty(),
            r.monitor_spec().capacity_spec() == log_capacity,
            r.monitor_spec().enabled_spec(),
            r.monitor_spec().stats_spec() == crate::monitor::zero_stats(),
    {
        ProxyService { instance: None, monitor: ProxyMonitor::new(log_capacity) }
    }

    pub fn is_running(&self) -> (r: bool)
        ensures
            r == self.running_spec(),
    {
        self.instance.is_some()
    }

    /// Loads `records` into a fresh pool and starts serving with `config`.
    /// Refused while running, and when no account is eligible and the
    /// secondary backend is off. On success returns the eligible count; the
    /// caller then binds the listener (and calls `stop` if that fails).
    pub fn start(&mut self, config: ProxyConfig, records: Vec<Account>) -> (r: Result<usize, ServiceError>)
        requires
            old(self).wf(),
        ensures
            final(self).wf(),
            r is Ok <==> start_outcome(old(self).running_spec(), count_eligible(first_of_each_id(records@)), zai_active(config.zai)) is Ok,
            r matches Err(e) ==> start_outcome(old(self).running_spec(), count_eligible(first_of_each_id(records@)), zai_active(config.zai)) == Err::<(), ServiceError>(e),
            r == Err::<usize, ServiceError>(ServiceError::AlreadyRunning) ==> *final(self) == *old(self),
            r == Err::<usize, ServiceError>(ServiceError::NoAccountsConfigured) ==> final(self).instance_spec() == old(self).instance_spec()
                && final(self).monitor_spec().enabled_spec() == config.enable_logging
                && final(self).monitor_spec().entries() == old(self).monitor_spec().entries()
                && final(self).monitor_spec().stats_spec() == old(self).monitor_spec().stats_spec()
                && final(self).monitor_spec().capacity_spec() == old(self).monitor_spec().capacity_spec(),
            r matches Ok(n) ==> n == count_eligible(first_of_each_id(records@))
                && final(self).monitor_spec().stats_spec() == old(self).monitor_spec().stats_spec()
                && final(self).monitor_spec().capacity_spec() == old(self).monitor_spec().capacity_spec()
                && final(self).monitor_spec().enabled_spec() == config.enable_logging
                && final(self).monitor_spec().entries() == old(self).monitor_spec().entries()
                && (final(self).instance_spec() matches Some(i)
                && i.config == config
                && i.pool.accounts_spec() == first_of_each_id(records@)
                && i.router.config_spec() == config.scheduling
                && i.router.bindings_spec() == Seq::<SessionBinding>::empty()),
    {
        if self.instance.is_some() {
            return Err(ServiceError::AlreadyRunning);
        }
        self.monitor.set_enabled(config.enable_logging);
        let mut pool = AccountPool::new();
        let active = pool.load(records);
        if active == 0 && !config.zai.is_active() {
            return Err(ServiceError::NoAccountsConfigured);
        }
        let router = StickyRouter::new(config.scheduling);
        self.instance = Some(ProxyServiceInstance { config, pool, router });
        Ok(active)
    }

    /// Stops serving; the listener is the caller's to close.
    pub fn stop(&mut self) -> (r: Result<(), ServiceError>)
        requires
            old(self).wf(),
        ensures
            final(self).wf(),
            r == stop_outcome(old(self).running_spec()),
            !final(self).running_spec(),
            final(self).monitor_spec() == old(self).monitor_spec(),
    {
        if self.instance.is_none() {
            return Err(ServiceError::NotRunning);
        }
        self.instance = None;
        Ok(())
    }

    pub fn status(&self) -> (r: ProxyStatus)
        requires
            self.wf(),
        ensures
            r.running == self.running_spec(),
            match self.instance_spec() {
                Some(i) => r.port == i.config.port && r.active_accounts == count_eligible(i.pool.accounts_spec()),
                None => r.port == 0 && r.active_accounts == 0,
            },
    {
        match &self.instance {
            Some(i) => ProxyStatus { running: true, port: i.config.port, active_accounts: i.pool.count() },
            None => ProxyStatus { running: false, port: 0, active_accounts: 0 },
        }
    }

    /// The configuration requests are dispatched with.
    pub fn live_config(&self) -> (r: Option<&ProxyConfig>)
        ensures
            match self.instance_spec() {
                Some(i) => r == Some(&i.config),
                None => r is None,
            },
    {
        match &self.instance {
            Some(i) => Some(&i.config),
            None => None,
        }
    }
}


impl ProxyService {
    /// Replaces the live model mapping; other settings are kept.
    pub fn update_mapping(&mut self, mapping: Vec<(String, String)>) -> (r: Result<(), ServiceError>)
        requires
            old(self).wf(),
        ensures
            final(self).wf(),
            r == stop_outcome(old(self).running_spec()),
            final(self).monitor_spec() == old(self).monitor_spec(),
            match old(self).instance_spec() {
                Some(i) => final(self).instance_spec() == Some(ProxyServiceInstance {
                    config: ProxyConfig { custom_mapping: mapping, ..i.config },
                    ..i
                }),
                None => final(self).instance_spec() is None,
            },
    {
        match &mut self.instance {
            Some(i) => {
                i.config.custom_mapping = mapping;
                Ok(())
            },
            None => Err(ServiceError::NotRunning),
        }
    }

    /// Replaces the live upstream proxy settings.
    pub fn update_proxy(&mut self, upstream: UpstreamProxyConfig) -> (r: Result<(), ServiceError>)
        requires
            old(self).wf(),
        ensures
            final(self).wf(),
            r == stop_outcome(old(self).running_spec()),
            final(self).monitor_spec() == old(self).monitor_spec(),
            match old(self).instance_spec() {
                Some(i) => final(self).instance_spec() == Some(ProxyServiceInstance {
                    config: ProxyConfig { upstream_proxy: upstream, ..i.config },
                    ..i
                }),
                None => final(self).instance_spec() is None,
            },
    {
        match &mut self.instance {
            Some(i) => {
                i.config.upstream_proxy = upstream;
                Ok(())
            },
            None => Err(ServiceError::NotRunning),
        }
    }

    /// Replaces the live security policy.
    pub fn update_security(&mut self, security: SecurityPolicy) -> (r: Result<(), ServiceError>)
        requires
            old(self).wf(),
        ensures
            final(self).wf(),
            r == stop_outcome(old(self).running_spec()),
            final(self).monitor_spec() == old(self).monitor_spec(),
            match old(self).instance_spec() {
                Some(i) => final(self).instance_spec() == Some(ProxyServiceInstance {
                    config: ProxyConfig { security: security, ..i.config },
                    ..i
                }),
                None => final(self).instance_spec() is None,
            },
    {
        match &mut self.instance {
            Some(i) => {
                i.config.security = security;
                Ok(())
            },
            None => Err(ServiceError::NotRunning),
        }
    }

    /// Replaces the live secondary backend settings.
    pub fn update_zai(&mut self, zai: ZaiConfig) -> (r: Result<(), ServiceError>)
        requires
            old(self).wf(),
        ensures
            final(self).wf(),
            r == stop_outcome(old(self).running_spec()),
            final(self).monitor_spec() == old(self).monitor_spec(),
            match old(self).instance_spec() {
                Some(i) => final(self).instance_spec() == Some(ProxyServiceInstance {
                    config: ProxyConfig { zai: zai, ..i.config },
                    ..i
                }),
                None => final(self).instance_spec() is None,
            },
    {
        match &mut self.instance {
            Some(i) => {
                i.config.zai = zai;
                Ok(())
            },
            None => Err(ServiceError::NotRunning),
        }
    }

    /// Reloads the running pool from `records`; returns the eligible count.
    pub fn reload_accounts(&mut self, records: Vec<Account>) -> (r: Result<usize, ServiceError>)
        requires
            old(self).wf(),
        ensures
            final(self).wf(),
            final(self).monitor_spec() == old(self).monitor_spec(),
            final(self).running_spec() == old(self).running_spec(),
            !old(self).running_spec() ==> r == Err::<usize, ServiceError>(ServiceError::NotRunning),
            old(self).running_spec() ==> r is Ok && r->Ok_0 == count_eligible(first_of_each_id(records@))
                && final(self).instance_spec()->0.pool.accounts_spec() == first_of_each_id(records@)
                && final(self).instance_spec()->0.config == old(self).instance_spec()->0.config
                && final(self).instance_spec()->0.router == old(self).instance_spec()->0.router,
    {
        match &mut self.instance {
            Some(i) => Ok(i.pool.load(records)),
            None => Err(ServiceError::NotRunning),
        }
    }

    /// The live stickiness policy; the default one while stopped.
    pub fn get_sticky_config(&self) -> (r: StickySessionConfig)
        ensures
            match self.instance_spec() {
                Some(i) => r == i.router.config_spec(),
                None => r.enabled && r.ttl_secs == 3600 && r.max_bindings == 1024,
            },
    {
        match &self.instance {
            Some(i) => i.router.get_config(),
            None => StickySessionConfig::default_policy(),
        }
    }

    pub fn update_sticky_config(&mut self, policy: StickySessionConfig) -> (r: Result<(), ServiceError>)
        requires
            old(self).wf(),
        ensures
            final(self).wf(),
            r == stop_outcome(old(self).running_spec()),
            final(self).running_spec() == old(self).running_spec(),
            final(self).monitor_spec() == old(self).monitor_spec(),
            old(self).running_spec() ==> final(self).instance_spec()->0.router.config_spec() == policy
                && final(self).instance_spec()->0.pool == old(self).instance_spec()->0.pool,
    {
        match &mut self.instance {
            Some(i) => {
                i.router.configure(policy);
                Ok(())
            },
            None => Err(ServiceError::NotRunning),
        }
    }

    /// Drops every session binding of the running service.
    pub fn clear_all_sessions(&mut self) -> (r: Result<(), ServiceError>)
        requires
            old(self).wf(),
        ensures
            final(self).wf(),
            r == stop_outcome(old(self).running_spec()),
            final(self).running_spec() == old(self).running_spec(),
            final(self).monitor_spec() == old(self).monitor_spec(),
            old(self).running_spec() ==> final(self).instance_spec()->0.router.bindings_spec() == Seq::<SessionBinding>::empty()
                && final(self).instance_spec()->0.router.config_spec() == old(self).instance_spec()->0.router.config_spec()
                && final(self).instance_spec()->0.pool == old(self).instance_spec()->0.pool,
    {
        match &mut self.instance {
            Some(i) => {
                i.router.clear_all();
                Ok(())
            },
            None => Err(ServiceError::NotRunning),
        }
    }

    /// The account for a request carrying session key `key`.
    pub fn resolve_account(&mut self, key: &Option<String>, now: i64) -> (r: Result<String, PoolError>)
        requires
            old(self).wf(),
        ensures
            final(self).wf(),
            final(self).running_spec() == old(self).running_spec(),
            final(self).monitor_spec() == old(self).monitor_spec(),
            !old(self).running_spec() ==> r == Err::<String, PoolError>(PoolError::NoEligibleAccount),
            old(self).running_spec() ==> {
                let i = old(self).instance_spec()->0;
                let hit = key matches Some(k) && sticky_hit(i.router.config_spec(), i.router.bindings_spec(), i.pool.accounts_spec(), k@, now);
                &&& final(self).instance_spec()->0.config == i.config
                &&& final(self).instance_spec()->0.pool.accounts_spec() == i.pool.accounts_spec()
                &&& final(self).instance_spec()->0.router.config_spec() == i.router.config_spec()
                &&& (r matches Ok(id) && key is Some && i.router.config_spec().enabled && i.router.config_spec().max_bindings > 0)
                    ==> crate::sticky::binds(final(self).instance_spec()->0.router.bindings_spec(), key->0@, r->Ok_0@, now)
                &&& hit ==> r == Ok::<String, PoolError>(i.router.bindings_spec()[key_index(i.router.bindings_spec(), key->0@)].account_id)
                &&& !hit ==> match rotation_pick(i.pool.accounts_spec(), i.pool.cursor_spec(), Seq::<String>::empty()) {
                    Some(j) => r matches Ok(id) && id@ == i.pool.accounts_spec()[j].id@,
                    None => r == Err::<String, PoolError>(PoolError::NoEligibleAccount),
                }
            },
            r matches Ok(id) ==> exists|k: int| 0 <= k < old(self).instance_spec()->0.pool.accounts_spec().len()
                && (#[trigger] old(self).instance_spec()->0.pool.accounts_spec()[k]).id@ == id@
                && crate::pool::eligible(old(self).instance_spec()->0.pool.accounts_spec()[k]),
    {
        match &mut self.instance {
            Some(i) => {
                let ghost accts = i.pool.accounts_spec();
                let ghost cur = i.pool.cursor_spec();
                proof {
                    crate::pool::lemma_rotation_pick(accts, cur, Seq::<String>::empty());
                }
                i.router.resolve(key, &mut i.pool, now)
            },
            None => Err(PoolError::NoEligibleAccount),
        }
    }

    /// Records one request outcome in the monitor.
    pub fn record(&mut self, entry: crate::monitor::RequestLog)
        requires
            old(self).wf(),
        ensures
            final(self).wf(),
            final(self).instance_spec() == old(self).instance_spec(),
            old(self).monitor_spec().enabled_spec() ==> final(self).monitor_spec().entries()
                == crate::monitor::buffer_after(old(self).monitor_spec().entries(), entry, old(self).monitor_spec().capacity_spec()),
            !old(self).monitor_spec().enabled_spec() ==> final(self).monitor_spec().entries() == old(self).monitor_spec().entries(),
            old(self).monitor_spec().enabled_spec() ==> final(self).monitor_spec().stats_spec()
                == crate::monitor::stats_after(old(self).monitor_spec().stats_spec(), entry.status),
            !old(self).monitor_spec().enabled_spec() ==> final(self).monitor_spec().stats_spec() == old(self).monitor_spec().stats_spec(),
    {
        self.monitor.record(entry);
    }

    pub fn get_logs(&self, limit: usize) -> (r: Vec<crate::monitor::RequestLog>)
        requires
            self.wf(),
        ensures
            r@ == crate::monitor::newest_first(self.monitor_spec().entries(), limit as nat),
            self.monitor_spec().entries().len() <= self.monitor_spec().capacity_spec(),
    {
        self.monitor.get_logs(limit)
    }

    pub fn monitor_enabled(&self) -> (r: bool)
        ensures
            r == self.monitor_spec().enabled_spec(),
    {
        self.monitor.is_enabled()
    }

    pub fn get_stats(&self) -> (r: crate::monitor::ProxyStats)
        ensures
            r == self.monitor_spec().stats_spec(),
    {
        self.monitor.get_stats()
    }

    pub fn clear_logs(&mut self)
        requires
            old(self).wf(),
        ensures
            final(self).wf(),
            final(self).instance_spec() == old(self).instance_spec(),
            final(self).monitor_spec().entries() == Seq::<crate::monitor::RequestLog>::empty(),
            final(self).monitor_spec().stats_spec() == crate::monitor::zero_stats(),
    {
        self.monitor.clear();
    }

    pub fn set_monitor_enabled(&mut self, enabled: bool)
        requires
            old(self).wf(),
        ensures
            final(self).wf(),
            final(self).instance_spec() == old(self).instance_spec(),
            final(self).monitor_spec().enabled_spec() == enabled,
            final(self).monitor_spec().entries() == old(self).monitor_spec().entries(),
    {
        self.monitor.set_enabled(enabled);
    }
}

/// A second `start` without a `stop` in between is refused with
/// `AlreadyRunning`, whatever it is given; `stop` on a stopped service is
/// refused with `NotRunning`.
pub proof fn lemma_single_instance(s: ProxyService, eligible: nat, secondary: bool)
    ensures
        s.running_spec() ==> start_outcome(s.running_spec(), eligible, secondary) == Err::<(), ServiceError>(ServiceError::AlreadyRunning),
        !s.running_spec() ==> stop_outcome(s.running_spec()) == Err::<(), ServiceError>(ServiceError::NotRunning),
{
}


impl ProxyService {
    /// Applies a saved configuration to the running service: its mapping,
    /// upstream proxy, security and secondary backend settings replace the
    /// live ones; port, pool and sessions stay.
    pub fn apply_live_config(&mut self, config: ProxyConfig) -> (r: Result<(), ServiceError>)
        requires
            old(self).wf(),
        ensures
            final(self).wf(),
            r == stop_outcome(old(self).running_spec()),
            final(self).monitor_spec() == old(self).monitor_spec(),
            match old(self).instance_spec() {
                Some(i) => final(self).instance_spec() == Some(ProxyServiceInstance {
                    config: ProxyConfig {
                        custom_mapping: config.custom_mapping,
                        upstream_proxy: config.upstream_proxy,
                        security: config.security,
                        zai: config.zai,
                        ..i.config
                    },
                    ..i
                }),
                None => final(self).instance_spec() is None,
            },
    {
        match &mut self.instance {
            Some(i) => {
                i.config.custom_mapping = config.custom_mapping;
                i.config.upstream_proxy = config.upstream_proxy;
                i.config.security = config.security;
                i.config.zai = config.zai;
                Ok(())
            },
            None => Err(ServiceError::NotRunning),
        }
    }
}


impl ProxyService {
    /// A retry account for `attempt` from the running pool.
    pub fn select_retry(&mut self, attempt: &DispatchAttempt) -> (r: Result<String, PoolError>)
        requires
            old(self).wf(),
        ensures
            final(self).wf(),
            final(self).running_spec() == old(self).running_spec(),
            final(self).monitor_spec() == old(self).monitor_spec(),
            !old(self).running_spec() ==> r == Err::<String, PoolError>(PoolError::NoEligibleAccount),
            old(self).running_spec() ==> final(self).instance_spec()->0.pool.accounts_spec() == old(self).instance_spec()->0.pool.accounts_spec(),
            r matches Ok(id) ==> exists|i: int| 0 <= i < old(self).instance_spec()->0.pool.accounts_spec().len()
                && (#[trigger] old(self).instance_spec()->0.pool.accounts_spec()[i]).id@ == id@
                && crate::pool::selectable(old(self).instance_spec()->0.pool.accounts_spec()[i], attempt.excluded_spec()),
            old(self).running_spec() ==> (r is Err <==> forall|i: int| 0 <= i < old(self).instance_spec()->0.pool.accounts_spec().len()
                ==> !crate::pool::selectable(#[trigger] old(self).instance_spec()->0.pool.accounts_spec()[i], attempt.excluded_spec())),
            old(self).running_spec() ==> final(self).instance_spec()->0.config == old(self).instance_spec()->0.config,
    {
        match &mut self.instance {
            Some(i) => attempt.select_retry(&mut i.pool),
            None => Err(PoolError::NoEligibleAccount),
        }
    }

    /// Reports the outcome of using account `id` for `attempt` to the
    /// running pool; while stopped nothing is retried.
    pub fn report(&mut self, attempt: &mut DispatchAttempt, id: String, outcome: Outcome, now: i64) -> (r: Step)
        requires
            old(self).wf(),
        ensures
            final(self).wf(),
            final(self).running_spec() == old(self).running_spec(),
            final(self).monitor_spec() == old(self).monitor_spec(),
            old(self).running_spec() ==> r == next_step_spec(outcome, old(attempt).retries_spec()),
            final(attempt).started_spec() == old(attempt).started_spec(),
            old(self).running_spec() ==> crate::dispatch::report_effect(old(self).instance_spec()->0.pool.accounts_spec(), id@, outcome, now,
                final(self).instance_spec()->0.pool.accounts_spec()),
            old(self).running_spec() && r == Step::RetryAnother ==> final(attempt).excluded_spec() == old(attempt).excluded_spec().push(id)
                && final(attempt).retries_spec() == old(attempt).retries_spec() - 1,
            r != Step::RetryAnother ==> final(attempt).excluded_spec() == old(attempt).excluded_spec()
                && final(attempt).retries_spec() == old(attempt).retries_spec(),
            old(self).running_spec() ==> final(self).instance_spec()->0.config == old(self).instance_spec()->0.config,
            !old(self).running_spec() ==> *final(attempt) == *old(attempt),
            !old(self).running_spec() ==> r == (if outcome == Outcome::Success { Step::Deliver } else { Step::Surface }),
    {
        match &mut self.instance {
            Some(i) => attempt.report(&mut i.pool, id, outcome, now),
            None => if let Outcome::Success = outcome {
                Step::Deliver
            } else {
                Step::Surface
            },
        }
    }

    /// The token state of account `id` in the running pool.
    pub fn token_check(&self, id: &String, now: i64) -> (r: Result<TokenCheck, PoolError>)
        requires
            self.wf(),
        ensures
            !self.running_spec() ==> r == Err::<TokenCheck, PoolError>(PoolError::UnknownAccount),
            self.running_spec() ==> r == crate::pool::token_check_spec(self.instance_spec()->0.pool.accounts_spec(), id@, now),
    {
        match &self.instance {
            Some(i) => i.pool.token_check(id, now),
            None => Err(PoolError::UnknownAccount),
        }
    }

    /// Applies a refresh answer for account `id` to the running pool.
    pub fn apply_refresh(&mut self, id: &String, outcome: RefreshOutcome, now: i64) -> (r: Result<String, PoolError>)
        requires
            old(self).wf(),
        ensures
            final(self).wf(),
            final(self).running_spec() == old(self).running_spec(),
            final(self).monitor_spec() == old(self).monitor_spec(),
            !old(self).running_spec() ==> r == Err::<String, PoolError>(PoolError::UnknownAccount),
            old(self).running_spec() ==> final(self).instance_spec()->0.config == old(self).instance_spec()->0.config
                && final(self).instance_spec()->0.router == old(self).instance_spec()->0.router
                && crate::pool::refresh_result(old(self).instance_spec()->0.pool.accounts_spec(), id@, outcome, now,
                    final(self).instance_spec()->0.pool.accounts_spec(), r),
    {
        match &mut self.instance {
            Some(i) => i.pool.apply_refresh(id, outcome, now),
            None => Err(PoolError::UnknownAccount),
        }
    }
}


impl ProxyService {
    /// A copy of the running pool's record of account `id`.
    pub fn find_account(&self, id: &String) -> (r: Option<Account>)
        requires
            self.wf(),
        ensures
            !self.running_spec() ==> r is None,
            self.running_spec() ==> {
                let s = self.instance_spec()->0.pool.accounts_spec();
                &&& (r is Some <==> crate::pool::has_id(s, id@))
                &&& (r matches Some(a) ==> a == s[crate::pool::index_of(s, id@)])
            },
    {
        match &self.instance {
            Some(i) => match i.pool.position(id) {
                Some(k) => Some(i.pool.accounts()[k].duplicate()),
                None => None,
            },
            None => None,
        }
    }
}

/// The log buffer of a well-formed service never exceeds its capacity.
pub proof fn lemma_logs_within_capacity(s: &ProxyService)
    requires
        s.wf(),
    ensures
        s.monitor_spec().entries().len() <= s.monitor_spec().capacity_spec(),
{
    crate::monitor::lemma_within_capacity(&s.monitor);
}

/// The pool of a well-formed running service is well formed.
pub proof fn lemma_running_pool_wf(s: &ProxyService)
    requires
        s.wf(),
        s.running_spec(),
    ensures
        s.instance_spec()->0.pool.wf(),
{
}

} // verus!
