//! The tunnel: its configuration, its status, and what starting and stopping it does.
use vstd::prelude::*;
use crate::command::{SystemCommand, command, owned, strings_view};
use crate::takeover::Platform;

verus! {

/// What the activation server grants: the VLESS/REALITY endpoint and the routing plan.
#[derive(Debug, Clone)]
pub struct TunnelConfig {
    pub server: String,
    pub server_port: u16,
    pub uuid: String,
    pub flow: String,
    pub server_name: String,
    pub public_key: String,
    pub short_id: String,
    pub route_domains: Vec<String>,
    pub plan: String,
}

} // verus!

verus! {

/// The plan is `pro`.
pub fn is_pro(plan: &String) -> (b: bool)
    ensures
        b == (plan@ == "pro"@),
{
    crate::text::str_eq(plan.as_str(), "pro")
}

} // verus!

verus! {

/// Whether the tunnel runs, and on which port and in which mode.
#[derive(Debug, Clone)]
pub enum TunnelStatus {
    Stopped,
    Running { port: u16, mode: String },
}

/// The SOCKS port of the tunnel: the macOS daemon listens on 18081, the sing-box that
/// Windows and Linux start listens on 1083.
pub open spec fn shell_port_of(platform: Platform) -> u16 {
    match platform {
        Platform::MacOs => 18081,
        _ => 1083,
    }
}

/// The SOCKS port of the tunnel on `platform`.
pub fn shell_port(platform: Platform) -> (p: u16)
    ensures
        p == shell_port_of(platform),
{
    match platform {
        Platform::MacOs => 18081,
        _ => 1083,
    }
}

/// The mode shown while the tunnel runs: `全平台Pro` for the `pro` plan, `ChatGPT` otherwise.
pub open spec fn mode_label_of(plan: Seq<char>) -> Seq<char> {
    if plan == "pro"@ { "全平台Pro"@ } else { "ChatGPT"@ }
}

/// The mode shown while the tunnel runs.
pub fn mode_label(plan: &String) -> (s: String)
    ensures
        s@ == mode_label_of(plan@),
{
    if is_pro(plan) { owned("全平台Pro") } else { owned("ChatGPT") }
}

/// A copy of a status.
pub fn copy_status(s: &TunnelStatus) -> (r: TunnelStatus)
    ensures
        r == *s,
{
    match s {
        TunnelStatus::Stopped => TunnelStatus::Stopped,
        TunnelStatus::Running { port, mode } => TunnelStatus::Running { port: *port, mode: mode.clone() },
    }
}

fn copy_strings(v: &Vec<String>) -> (r: Vec<String>)
    ensures
        r@ == v@,
{
    let mut r: Vec<String> = Vec::new();
    let mut i: usize = 0;
    while i < v.len()
        invariant
            i <= v.len(),
            r@ == v@.take(i as int),
        decreases v.len() - i,
    {
        r.push(v[i].clone());
        assert(v@.take(i + 1) =~= v@.take(i as int).push(v@[i as int]));
        i = i + 1;
    }
    assert(v@.take(v.len() as int) =~= v@);
    r
}

/// Two configurations hold the same values.
pub open spec fn same_config(a: TunnelConfig, b: TunnelConfig) -> bool {
    &&& a.server@ == b.server@ && a.server_port == b.server_port && a.uuid@ == b.uuid@
    &&& a.flow@ == b.flow@ && a.server_name@ == b.server_name@ && a.public_key@ == b.public_key@
    &&& a.short_id@ == b.short_id@ && a.route_domains@ == b.route_domains@ && a.plan@ == b.plan@
}

/// A copy of a configuration.
pub fn copy_config(c: &TunnelConfig) -> (r: TunnelConfig)
    ensures
        same_config(r, *c),
{
    let r = TunnelConfig {
        server: c.server.clone(),
        server_port: c.server_port,
        uuid: c.uuid.clone(),
        flow: c.flow.clone(),
        server_name: c.server_name.clone(),
        public_key: c.public_key.clone(),
        short_id: c.short_id.clone(),
        route_domains: copy_strings(&c.route_domains),
        plan: c.plan.clone(),
    };
    r
}

/// The state of the tunnel that the application keeps: its status and the configuration
/// it was started with.
#[derive(Debug)]
pub struct TunnelState {
    pub status: TunnelStatus,
    pub config: Option<TunnelConfig>,
}

/// The message when the macOS daemon does not listen.
pub open spec fn daemon_down_message() -> Seq<char> {
    "隧道daemon未运行，请先启动统一隧道daemon"@
}

impl TunnelState {
    /// Stopped, with no configuration.
    pub fn new() -> (s: TunnelState)
        ensures
            s.status == TunnelStatus::Stopped,
            s.config is None,
    {
        TunnelState { status: TunnelStatus::Stopped, config: None }
    }

    /// The macOS daemon was probed: when it listens, the tunnel runs on the daemon's port
    /// in the plan's mode with `config`; otherwise the tunnel is stopped, the configuration
    /// is kept, and the error tells the user to start the daemon.
    pub fn daemon_probed(&mut self, listening: bool, config: TunnelConfig) -> (res: Result<u16, String>)
        ensures
            listening ==> res == Ok::<u16, String>(18081)
                && final(self).status == (TunnelStatus::Running { port: 18081, mode: final(self).status->mode })
                && final(self).status->mode@ == mode_label_of(config.plan@)
                && final(self).config == Some(config),
            !listening ==> (res matches Err(e) && e@ == daemon_down_message())
                && final(self).status == TunnelStatus::Stopped
                && final(self).config == old(self).config,
    {
        if listening {
            let mode = mode_label(&config.plan);
            self.status = TunnelStatus::Running { port: 18081, mode };
            self.config = Some(config);
            Ok(18081)
        } else {
            self.status = TunnelStatus::Stopped;
            Err(owned("隧道daemon未运行，请先启动统一隧道daemon"))
        }
    }

    /// sing-box was started for `config`: the tunnel runs on `port` in the plan's mode.
    pub fn spawned(&mut self, port: u16, config: TunnelConfig)
        ensures
            final(self).status == (TunnelStatus::Running { port, mode: final(self).status->mode }),
            final(self).status->mode@ == mode_label_of(config.plan@),
            final(self).config == Some(config),
    {
        let mode = mode_label(&config.plan);
        self.status = TunnelStatus::Running { port, mode };
        self.config = Some(config);
    }

    /// sing-box exited right after it was started, or the tunnel was stopped: stopped,
    /// with no configuration.
    pub fn stopped(&mut self)
        ensures
            final(self).status == TunnelStatus::Stopped,
            final(self).config is None,
    {
        self.status = TunnelStatus::Stopped;
        self.config = None;
    }

    /// The current status.
    pub fn current_status(&self) -> (s: TunnelStatus)
        ensures
            s == self.status,
    {
        copy_status(&self.status)
    }

    /// The configuration to connect with: the one the tunnel was activated with, or the
    /// error `未激活` when there is none.
    pub fn activated_config(&self) -> (res: Result<TunnelConfig, String>)
        ensures
            match self.config {
                Some(c) => res matches Ok(r) && same_config(r, c),
                None => res matches Err(e) && e@ == "未激活"@,
            },
    {
        match &self.config {
            Some(c) => Ok(copy_config(c)),
            None => Err(owned("未激活")),
        }
    }
}

/// The page opened once connected: Google for the `pro` plan, ChatGPT otherwise.
pub open spec fn browser_url_of(plan: Seq<char>) -> Seq<char> {
    if plan == "pro"@ { "https://www.google.com/"@ } else { "https://chatgpt.com/"@ }
}

/// The page opened once connected.
pub fn browser_url(plan: &String) -> (s: String)
    ensures
        s@ == browser_url_of(plan@),
{
    if is_pro(plan) { owned("https://www.google.com/") } else { owned("https://chatgpt.com/") }
}

/// The command that opens `url`: Safari on macOS, the default browser elsewhere.
pub fn browser_command(platform: Platform, url: String) -> (c: SystemCommand)
    ensures
        platform == Platform::MacOs ==> c.is("open"@, seq!["-a"@, "Safari"@, url@]),
        platform == Platform::Windows ==> c.is("cmd"@, seq!["/C"@, "start"@, ""@, url@]),
        platform == Platform::Linux ==> c.is("xdg-open"@, seq![url@]),
{
    let mut args: Vec<String> = Vec::new();
    match platform {
        Platform::MacOs => {
            args.push(owned("-a"));
            args.push(owned("Safari"));
            args.push(url);
            let c = command("open", args);
            assert(strings_view(c.args@) =~= seq!["-a"@, "Safari"@, c.args@[2]@]);
            c
        },
        Platform::Windows => {
            args.push(owned("/C"));
            args.push(owned("start"));
            args.push(owned(""));
            args.push(url);
            let c = command("cmd", args);
            assert(strings_view(c.args@) =~= seq!["/C"@, "start"@, ""@, c.args@[3]@]);
            c
        },
        Platform::Linux => {
            args.push(url);
            let c = command("xdg-open", args);
            assert(strings_view(c.args@) =~= seq![c.args@[0]@]);
            c
        },
    }
}

/// The message once connected: the mode (`全平台Pro模式` or `ChatGPT模式`) and the browser
/// that was opened (Safari on macOS).
pub open spec fn connect_message_of(platform: Platform, plan: Seq<char>) -> Seq<char> {
    "隧道已启动 · "@ + (if plan == "pro"@ { "全平台Pro模式"@ } else { "ChatGPT模式"@ })
        + (if platform == Platform::MacOs { " · Safari已打开"@ } else { " · 浏览器已打开"@ })
}

/// The message once connected.
pub fn connect_message(platform: Platform, plan: &String) -> (s: String)
    ensures
        s@ == connect_message_of(platform, plan@),
{
    let mut s = owned("隧道已启动 · ");
    if is_pro(plan) { s.append("全平台Pro模式"); } else { s.append("ChatGPT模式"); }
    match platform {
        Platform::MacOs => { s.append(" · Safari已打开"); },
        _ => { s.append(" · 浏览器已打开"); },
    }
    s
}

/// The message once disconnected.
pub fn disconnect_message() -> (s: String)
    ensures
        s@ == "已断开连接 · 代理已恢复"@,
{
    owned("已断开连接 · 代理已恢复")
}

} // verus!
