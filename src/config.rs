//! The routing and security policy of a running proxy.

use vstd::prelude::*;
use crate::sticky::StickySessionConfig;

verus! {

/// How the secondary backend takes part in dispatch.
#[derive(Clone, Copy, Debug, PartialEq, Eq, Structural)]
pub enum ZaiDispatchMode {
    Off,
    /// Every request goes to the secondary backend.
    Exclusive,
    /// The secondary backend serves when no pool account is eligible.
    Pooled,
    /// Same precedence as `Pooled`: used only as a fallback.
    Fallback,
}

/// Secondary backend settings.
pub struct ZaiConfig {
    pub enabled: bool,
    pub base_url: String,
    pub api_key: String,
    pub dispatch_mode: ZaiDispatchMode,
}

/// Outbound proxy for upstream calls.
pub struct UpstreamProxyConfig {
    pub enabled: bool,
    pub url: String,
}

/// Who may use the proxy.
pub struct SecurityPolicy {
    pub require_api_key: bool,
    pub api_key: String,
}

/// Effective routing and security policy.
pub struct ProxyConfig {
    pub port: u16,
    pub allow_lan_access: bool,
    /// Requested model name to upstream model name, first match wins.
    pub custom_mapping: Vec<(String, String)>,
    pub request_timeout: u64,
    pub upstream_proxy: UpstreamProxyConfig,
    pub security: SecurityPolicy,
    pub zai: ZaiConfig,
    pub scheduling: StickySessionConfig,
    pub enable_logging: bool,
}

/// The secondary backend is in use.
pub open spec fn zai_active(z: ZaiConfig) -> bool {
    z.enabled && z.dispatch_mode != ZaiDispatchMode::Off
}

pub open spec fn bind_address_spec(allow_lan_access: bool) -> Seq<char> {
    if allow_lan_access { "0.0.0.0"@ } else { "127.0.0.1"@ }
}

impl ZaiConfig {
    pub fn is_active(&self) -> (r: bool)
        ensures
            r == zai_active(*self),
    {
        self.enabled && !matches!(self.dispatch_mode, ZaiDispatchMode::Off)
    }
}

impl ProxyConfig {
    /// Listening address: every interface when LAN access is allowed, else
    /// loopback only.
    pub fn get_bind_address(&self) -> (r: &'static str)
        ensures
            r@ == bind_address_spec(self.allow_lan_access),
    {
        if self.allow_lan_access {
            "0.0.0.0"
        } else {
            "127.0.0.1"
        }
    }
}

} // verus!
