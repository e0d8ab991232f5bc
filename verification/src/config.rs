//! The settings that decide how calls are handled.

use vstd::prelude::*;

verus! {

/// Which calls have their media relayed.
#[derive(Clone, Copy, Debug, PartialEq, Eq, Structural)]
pub enum MediaProxyMode {
    /// No call.
    Off,
    /// The calls whose session description names a private address.
    NatOnly,
    /// Every call.
    All,
}

/// The settings of the media relay.
#[derive(Clone, Copy, Debug, PartialEq, Eq, Structural)]
pub struct MediaProxyConfig {
    pub mode: MediaProxyMode,
}

/// The settings of the proxy.
#[derive(Clone, Copy, Debug, PartialEq, Eq)]
pub struct ProxyConfig {
    pub media_proxy: MediaProxyConfig,
    /// Whether requests for other realms may be passed on. They may not where nothing is said.
    pub enable_forwarding: Option<bool>,
}

} // verus!
