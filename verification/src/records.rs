//! The proxy settings that a takeover saves before it changes them.
use vstd::prelude::*;

verus! {

/// The proxy settings of one macOS network service.
#[derive(Debug, Clone)]
pub struct MacServiceRecord {
    pub name: String,
    pub auto_enabled: bool,
    pub auto_url: String,
    pub socks_enabled: bool,
    pub socks_host: String,
    pub socks_port: u16,
}

/// The Windows Internet Settings proxy values, as `reg query` shows them.
#[derive(Debug, Clone)]
pub struct WinProxyRecord {
    pub proxy_enable: String,
    pub proxy_server: String,
    pub proxy_override: String,
}

/// The GNOME proxy settings, as `gsettings get` prints them.
#[derive(Debug, Clone)]
pub struct LinuxProxyRecord {
    pub mode: String,
    pub socks_host: String,
    pub socks_port: String,
}

/// What is persisted before the system proxy is taken over: the settings of the
/// platform the takeover ran on, and when it happened.
#[derive(Debug, Clone)]
pub struct ProxyTakeoverRecord {
    pub version: u32,
    pub taken_at: u64,
    pub macos: Option<Vec<MacServiceRecord>>,
    pub windows: Option<WinProxyRecord>,
    pub linux: Option<LinuxProxyRecord>,
}

} // verus!
