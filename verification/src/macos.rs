//! macOS: the `networksetup` commands that take the proxy over and give it back,
//! the reading of their output, and a model of their effect on the network services.
use vstd::prelude::*;
use crate::command::{SystemCommand, command, owned, strings_view};
use crate::records::MacServiceRecord;
use crate::text::{chars_of, string_of, trim, trim_vec, chars_eq, decimal_string, decimal};
use crate::scan::{contains, contains_exec, starts_with, starts_with_exec, lines, split_lines, views,
    strip_prefix_all, strip_prefix_all_exec, parse_u16, parse_u16_exec, text_of_lines};

verus! {

/// The PAC address that the tunnel daemon serves.
pub open spec fn daemon_pac_url_spec() -> Seq<char> {
    "http://127.0.0.1:18085/proxy.pac"@
}

/// The PAC address that the tunnel daemon serves.
pub fn daemon_pac_url() -> (res: String)
    ensures
        res@ == daemon_pac_url_spec(),
{
    owned("http://127.0.0.1:18085/proxy.pac")
}

/// One change to a network service's proxy settings.
#[derive(Debug, Clone)]
pub enum MacAction {
    SetAutoProxyUrl { service: String, url: String },
    SetAutoProxyState { service: String, on: bool },
    SetSocksProxy { service: String, host: String, port: u16 },
    SetSocksProxyState { service: String, on: bool },
}

/// `"on"` or `"off"`.
pub open spec fn on_off(on: bool) -> Seq<char> {
    if on { "on"@ } else { "off"@ }
}

fn on_off_string(on: bool) -> (res: String)
    ensures
        res@ == on_off(on),
{
    if on { owned("on") } else { owned("off") }
}

/// The `networksetup` arguments that carry out an action.
pub open spec fn mac_action_args(a: MacAction) -> Seq<Seq<char>> {
    match a {
        MacAction::SetAutoProxyUrl { service, url } => seq!["-setautoproxyurl"@, service@, url@],
        MacAction::SetAutoProxyState { service, on } => seq!["-setautoproxystate"@, service@, on_off(on)],
        MacAction::SetSocksProxy { service, host, port } =>
            seq!["-setsocksfirewallproxy"@, service@, host@, decimal(port as nat)],
        MacAction::SetSocksProxyState { service, on } =>
            seq!["-setsocksfirewallproxystate"@, service@, on_off(on)],
    }
}

impl MacAction {
    /// The `networksetup` invocation that carries out this action.
    pub fn to_command(&self) -> (c: SystemCommand)
        ensures
            c.is("networksetup"@, mac_action_args(*self)),
    {
        let mut args: Vec<String> = Vec::new();
        match self {
            MacAction::SetAutoProxyUrl { service, url } => {
                args.push(owned("-setautoproxyurl"));
                args.push(service.clone());
                args.push(url.clone());
            },
            MacAction::SetAutoProxyState { service, on } => {
                args.push(owned("-setautoproxystate"));
                args.push(service.clone());
                args.push(on_off_string(*on));
            },
            MacAction::SetSocksProxy { service, host, port } => {
                args.push(owned("-setsocksfirewallproxy"));
                args.push(service.clone());
                args.push(host.clone());
                args.push(decimal_string(*port as u64));
            },
            MacAction::SetSocksProxyState { service, on } => {
                args.push(owned("-setsocksfirewallproxystate"));
                args.push(service.clone());
                args.push(on_off_string(*on));
            },
        }
        let c = command("networksetup", args);
        assert(strings_view(c.args@) =~= mac_action_args(*self));
        c
    }
}

/// `networksetup -listallnetworkservices`.
pub fn list_services_command() -> (c: SystemCommand)
    ensures
        c.is("networksetup"@, seq!["-listallnetworkservices"@]),
{
    let mut args: Vec<String> = Vec::new();
    args.push(owned("-listallnetworkservices"));
    let c = command("networksetup", args);
    assert(strings_view(c.args@) =~= seq!["-listallnetworkservices"@]);
    c
}

/// `networksetup -getautoproxyurl <service>`.
pub fn get_autoproxy_command(service: &String) -> (c: SystemCommand)
    ensures
        c.is("networksetup"@, seq!["-getautoproxyurl"@, service@]),
{
    let mut args: Vec<String> = Vec::new();
    args.push(owned("-getautoproxyurl"));
    args.push(service.clone());
    let c = command("networksetup", args);
    assert(strings_view(c.args@) =~= seq!["-getautoproxyurl"@, service@]);
    c
}

/// `networksetup -getsocksfirewallproxy <service>`.
pub fn get_socks_command(service: &String) -> (c: SystemCommand)
    ensures
        c.is("networksetup"@, seq!["-getsocksfirewallproxy"@, service@]),
{
    let mut args: Vec<String> = Vec::new();
    args.push(owned("-getsocksfirewallproxy"));
    args.push(service.clone());
    let c = command("networksetup", args);
    assert(strings_view(c.args@) =~= seq!["-getsocksfirewallproxy"@, service@]);
    c
}

} // verus!

verus! {

// ---------------------------------------------------------------------------
// A model of the network services and of what each action does to them
// ---------------------------------------------------------------------------

/// The proxy settings of one network service, as `networksetup` holds them.
pub struct MacProxyState {
    pub auto_url: Seq<char>,
    pub auto_on: bool,
    pub socks_host: Seq<char>,
    pub socks_port: Seq<char>,
    pub socks_on: bool,
}

/// The name of the service that an action changes.
pub open spec fn action_service(a: MacAction) -> Seq<char> {
    match a {
        MacAction::SetAutoProxyUrl { service, .. } => service@,
        MacAction::SetAutoProxyState { service, .. } => service@,
        MacAction::SetSocksProxy { service, .. } => service@,
        MacAction::SetSocksProxyState { service, .. } => service@,
    }
}

/// The settings of one service after an action on it.
pub open spec fn mac_apply_one(m: MacProxyState, a: MacAction) -> MacProxyState {
    match a {
        MacAction::SetAutoProxyUrl { url, .. } => MacProxyState {
            auto_url: url@, auto_on: m.auto_on, socks_host: m.socks_host, socks_port: m.socks_port,
            socks_on: m.socks_on,
        },
        MacAction::SetAutoProxyState { on, .. } => MacProxyState {
            auto_url: m.auto_url, auto_on: on, socks_host: m.socks_host, socks_port: m.socks_port,
            socks_on: m.socks_on,
        },
        MacAction::SetSocksProxy { host, port, .. } => MacProxyState {
            auto_url: m.auto_url, auto_on: m.auto_on, socks_host: host@,
            socks_port: decimal(port as nat), socks_on: m.socks_on,
        },
        MacAction::SetSocksProxyState { on, .. } => MacProxyState {
            auto_url: m.auto_url, auto_on: m.auto_on, socks_host: m.socks_host, socks_port: m.socks_port,
            socks_on: on,
        },
    }
}

/// The services after an action: it changes the named service, when there is one.
pub open spec fn mac_apply(net: Map<Seq<char>, MacProxyState>, a: MacAction) -> Map<Seq<char>, MacProxyState> {
    let s = action_service(a);
    if net.dom().contains(s) {
        net.insert(s, mac_apply_one(net[s], a))
    } else {
        net
    }
}

/// The services after a sequence of actions, run in order.
pub open spec fn mac_run(net: Map<Seq<char>, MacProxyState>, acts: Seq<MacAction>) -> Map<Seq<char>, MacProxyState>
    decreases acts.len(),
{
    if acts.len() == 0 {
        net
    } else {
        mac_apply(mac_run(net, acts.drop_last()), acts.last())
    }
}

pub proof fn lemma_mac_run_append(net: Map<Seq<char>, MacProxyState>, a: Seq<MacAction>, b: Seq<MacAction>)
    ensures
        mac_run(net, a + b) == mac_run(mac_run(net, a), b),
    decreases b.len(),
{
    if b.len() == 0 {
        assert(a + b =~= a);
    } else {
        assert((a + b).drop_last() =~= a + b.drop_last());
        assert((a + b).last() == b.last());
        lemma_mac_run_append(net, a, b.drop_last());
    }
}

/// Actions that name only other services leave a service as it was, and no action
/// adds or removes a service.
pub proof fn lemma_mac_run_frame(net: Map<Seq<char>, MacProxyState>, acts: Seq<MacAction>, k: Seq<char>)
    requires
        forall|i: int| 0 <= i < acts.len() ==> action_service(#[trigger] acts[i]) != k,
    ensures
        mac_run(net, acts).dom() == net.dom(),
        net.dom().contains(k) ==> mac_run(net, acts)[k] == net[k],
    decreases acts.len(),
{
    lemma_mac_run_dom(net, acts);
    if acts.len() > 0 {
        assert forall|i: int| 0 <= i < acts.drop_last().len() implies action_service(#[trigger] acts.drop_last()[i]) != k by {
            assert(acts.drop_last()[i] == acts[i]);
        }
        lemma_mac_run_frame(net, acts.drop_last(), k);
        assert(action_service(acts[acts.len() - 1]) != k);
    }
}

/// No action adds or removes a service.
pub proof fn lemma_mac_run_dom(net: Map<Seq<char>, MacProxyState>, acts: Seq<MacAction>)
    ensures
        mac_run(net, acts).dom() == net.dom(),
    decreases acts.len(),
{
    if acts.len() > 0 {
        lemma_mac_run_dom(net, acts.drop_last());
        let m = mac_run(net, acts.drop_last());
        let s = action_service(acts.last());
        if m.dom().contains(s) {
            assert(m.insert(s, mac_apply_one(m[s], acts.last())).dom() =~= m.dom());
        }
    }
}

// ---------------------------------------------------------------------------
// Giving the proxy back
// ---------------------------------------------------------------------------

/// The actions that put one service back as the record holds it: the recorded SOCKS
/// address where SOCKS was on with a host, then the recorded SOCKS state; the recorded
/// PAC address (empty where there was none), then the recorded PAC state.
pub open spec fn record_restore_actions(r: MacServiceRecord) -> Seq<MacAction> {
    (if r.socks_enabled && r.socks_host@.len() > 0 {
        seq![
            MacAction::SetSocksProxy { service: r.name, host: r.socks_host, port: r.socks_port },
            MacAction::SetSocksProxyState { service: r.name, on: true },
        ]
    } else {
        seq![MacAction::SetSocksProxyState { service: r.name, on: r.socks_enabled }]
    }) + seq![
        MacAction::SetAutoProxyUrl { service: r.name, url: r.auto_url },
        MacAction::SetAutoProxyState { service: r.name, on: r.auto_enabled },
    ]
}

/// The actions that put every recorded service back, record by record.
pub open spec fn restore_actions(recs: Seq<MacServiceRecord>) -> Seq<MacAction>
    decreases recs.len(),
{
    if recs.len() == 0 {
        Seq::empty()
    } else {
        restore_actions(recs.drop_last()) + record_restore_actions(recs.last())
    }
}

/// A service's settings agree with its record: the same SOCKS state, the recorded SOCKS
/// host and port where SOCKS was on with a host, the same PAC state and PAC address.
pub open spec fn restored(m: MacProxyState, r: MacServiceRecord) -> bool {
    &&& m.socks_on == r.socks_enabled
    &&& (r.socks_enabled && r.socks_host@.len() > 0) ==> m.socks_host == r.socks_host@ && m.socks_port == decimal(r.socks_port as nat)
    &&& m.auto_on == r.auto_enabled
    &&& m.auto_url == r.auto_url@
}

/// A service's settings agree with its record, and where the record has no SOCKS host
/// to set the SOCKS host and port are those it had before.
pub open spec fn restored_from(m: MacProxyState, prev: MacProxyState, r: MacServiceRecord) -> bool {
    &&& restored(m, r)
    &&& !(r.socks_enabled && r.socks_host@.len() > 0) ==> m.socks_host == prev.socks_host && m.socks_port == prev.socks_port
}

/// The names of the records are pairwise distinct.
pub open spec fn distinct_names(recs: Seq<MacServiceRecord>) -> bool {
    forall|i: int, j: int| 0 <= i < j < recs.len() ==> recs[i].name@ != recs[j].name@
}

proof fn lemma_record_restore(net: Map<Seq<char>, MacProxyState>, r: MacServiceRecord)
    ensures
        mac_run(net, record_restore_actions(r)).dom() == net.dom(),
        net.dom().contains(r.name@) ==> restored_from(mac_run(net, record_restore_actions(r))[r.name@], net[r.name@], r),
        forall|k: Seq<char>| k != r.name@ && #[trigger] net.dom().contains(k) ==> mac_run(net, record_restore_actions(r))[k] == net[k],
{
    let acts = record_restore_actions(r);
    lemma_mac_run_dom(net, acts);
    assert forall|k: Seq<char>| k != r.name@ && #[trigger] net.dom().contains(k) implies mac_run(net, acts)[k] == net[k] by {
        assert forall|i: int| 0 <= i < acts.len() implies action_service(#[trigger] acts[i]) != k by {}
        lemma_mac_run_frame(net, acts, k);
    }
    reveal_with_fuel(mac_run, 5);
    assert(acts.drop_last().drop_last().drop_last().drop_last().len() == 0 || acts.len() < 4);
}

/// Restoring the records brings every recorded service to its recorded settings,
/// whatever the services held before; services that no record names stay as they were.
pub proof fn lemma_restore_actions(net: Map<Seq<char>, MacProxyState>, recs: Seq<MacServiceRecord>)
    requires
        distinct_names(recs),
    ensures
        mac_run(net, restore_actions(recs)).dom() == net.dom(),
        forall|i: int| 0 <= i < recs.len() && net.dom().contains(#[trigger] recs[i].name@)
            ==> restored_from(mac_run(net, restore_actions(recs))[recs[i].name@], net[recs[i].name@], recs[i]),
        forall|k: Seq<char>| #[trigger] net.dom().contains(k) && (forall|i: int| 0 <= i < recs.len() ==> recs[i].name@ != k)
            ==> mac_run(net, restore_actions(recs))[k] == net[k],
    decreases recs.len(),
{
    if recs.len() > 0 {
        let init = recs.drop_last();
        let r = recs.last();
        assert(distinct_names(init));
        lemma_restore_actions(net, init);
        let mid = mac_run(net, restore_actions(init));
        lemma_mac_run_append(net, restore_actions(init), record_restore_actions(r));
        lemma_record_restore(mid, r);
        assert forall|i: int| 0 <= i < recs.len() && net.dom().contains(#[trigger] recs[i].name@)
            implies restored_from(mac_run(net, restore_actions(recs))[recs[i].name@], net[recs[i].name@], recs[i]) by {
            if i < recs.len() - 1 {
                assert(init[i] == recs[i]);
                assert(recs[i].name@ != r.name@);
            }
        }
        assert forall|k: Seq<char>| #[trigger] net.dom().contains(k) && (forall|i: int| 0 <= i < recs.len() ==> recs[i].name@ != k)
            implies mac_run(net, restore_actions(recs))[k] == net[k] by {
            assert forall|i: int| 0 <= i < init.len() implies init[i].name@ != k by {
                assert(init[i] == recs[i]);
            }
            assert(recs[recs.len() - 1].name@ != k);
        }
    }
}

/// The actions that put the recorded services back.
pub fn restore_mac_services(recs: &Vec<MacServiceRecord>) -> (res: Vec<MacAction>)
    ensures
        res@ == restore_actions(recs@),
{
    let mut res: Vec<MacAction> = Vec::new();
    let mut i: usize = 0;
    while i < recs.len()
        invariant
            i <= recs.len(),
            res@ == restore_actions(recs@.take(i as int)),
        decreases recs.len() - i,
    {
        let r = &recs[i];
        let ghost before = res@;
        if r.socks_enabled && !r.socks_host.as_str().is_empty() {
            res.push(MacAction::SetSocksProxy { service: r.name.clone(), host: r.socks_host.clone(), port: r.socks_port });
            res.push(MacAction::SetSocksProxyState { service: r.name.clone(), on: true });
        } else {
            res.push(MacAction::SetSocksProxyState { service: r.name.clone(), on: r.socks_enabled });
        }
        res.push(MacAction::SetAutoProxyUrl { service: r.name.clone(), url: r.auto_url.clone() });
        res.push(MacAction::SetAutoProxyState { service: r.name.clone(), on: r.auto_enabled });
        proof {
            assert(recs@.take(i + 1).drop_last() =~= recs@.take(i as int));
            assert(recs@.take(i + 1).last() == recs@[i as int]);
            assert(res@ =~= before + record_restore_actions(recs@[i as int]));
        }
        i = i + 1;
    }
    proof {
        assert(recs@.take(recs.len() as int) =~= recs@);
    }
    res
}

// ---------------------------------------------------------------------------
// Taking the proxy over
// ---------------------------------------------------------------------------

/// `acts[3i..3i+3]` points `services[i]` at the daemon's PAC, switches the PAC proxy on
/// and the SOCKS proxy off, for every `i`, and there are no other actions.
pub open spec fn is_takeover_actions(acts: Seq<MacAction>, services: Seq<String>) -> bool {
    &&& acts.len() == 3 * services.len()
    &&& forall|i: int| 0 <= i < services.len() ==> {
        &&& (#[trigger] acts[3 * i]) matches MacAction::SetAutoProxyUrl { service, url }
            && service == services[i] && url@ == daemon_pac_url_spec()
        &&& acts[3 * i + 1] == MacAction::SetAutoProxyState { service: services[i], on: true }
        &&& acts[3 * i + 2] == MacAction::SetSocksProxyState { service: services[i], on: false }
    }
}

/// The actions that take every listed service over.
pub fn apply_takeover_mac(services: &Vec<String>) -> (res: Vec<MacAction>)
    ensures
        is_takeover_actions(res@, services@),
{
    let mut res: Vec<MacAction> = Vec::new();
    let mut i: usize = 0;
    while i < services.len()
        invariant
            i <= services.len(),
            is_takeover_actions(res@, services@.take(i as int)),
        decreases services.len() - i,
    {
        let ghost before = res@;
        res.push(MacAction::SetAutoProxyUrl { service: services[i].clone(), url: daemon_pac_url() });
        res.push(MacAction::SetAutoProxyState { service: services[i].clone(), on: true });
        res.push(MacAction::SetSocksProxyState { service: services[i].clone(), on: false });
        proof {
            let t = services@.take(i + 1);
            assert forall|j: int| 0 <= j < t.len() implies {
                &&& (#[trigger] res@[3 * j]) matches MacAction::SetAutoProxyUrl { service, url }
                    && service == t[j] && url@ == daemon_pac_url_spec()
                &&& res@[3 * j + 1] == MacAction::SetAutoProxyState { service: t[j], on: true }
                &&& res@[3 * j + 2] == MacAction::SetSocksProxyState { service: t[j], on: false }
            } by {
                if j < i {
                    assert(services@.take(i as int)[j] == t[j]);
                    assert(before[3 * j] == res@[3 * j]);
                }
            }
        }
        i = i + 1;
    }
    proof {
        assert(services@.take(services.len() as int) =~= services@);
    }
    res
}

/// A service points at the daemon's PAC, with the PAC proxy on and SOCKS off.
pub open spec fn taken_over(m: MacProxyState) -> bool {
    m.auto_url == daemon_pac_url_spec() && m.auto_on && !m.socks_on
}

/// After the takeover actions, every listed service that exists is taken over, and
/// services that are not listed stay as they were.
pub proof fn lemma_takeover_actions(net: Map<Seq<char>, MacProxyState>, acts: Seq<MacAction>, services: Seq<String>)
    requires
        is_takeover_actions(acts, services),
    ensures
        mac_run(net, acts).dom() == net.dom(),
        forall|i: int| 0 <= i < services.len() && net.dom().contains(#[trigger] services[i]@)
            ==> taken_over(mac_run(net, acts)[services[i]@]),
        forall|k: Seq<char>| #[trigger] net.dom().contains(k) && (forall|i: int| 0 <= i < services.len() ==> services[i]@ != k)
            ==> mac_run(net, acts)[k] == net[k],
    decreases services.len(),
{
    lemma_mac_run_dom(net, acts);
    if services.len() > 0 {
        let n = services.len() - 1;
        let init = acts.take(3 * n);
        let last = acts.skip(3 * n);
        assert(acts =~= init + last);
        assert(is_takeover_actions(init, services.drop_last())) by {
            assert forall|i: int| 0 <= i < services.drop_last().len() implies {
                &&& (#[trigger] init[3 * i]) matches MacAction::SetAutoProxyUrl { service, url }
                    && service == services.drop_last()[i] && url@ == daemon_pac_url_spec()
                &&& init[3 * i + 1] == MacAction::SetAutoProxyState { service: services.drop_last()[i], on: true }
                &&& init[3 * i + 2] == MacAction::SetSocksProxyState { service: services.drop_last()[i], on: false }
            } by {
                assert(acts[3 * i] == init[3 * i]);
            }
        }
        lemma_takeover_actions(net, init, services.drop_last());
        lemma_mac_run_append(net, init, last);
        let mid = mac_run(net, init);
        let svc = services[n];
        assert(acts[3 * n] == last[0]);
        assert(last.len() == 3);
        reveal_with_fuel(mac_run, 4);
        assert(last.drop_last().drop_last().drop_last().len() == 0);
        assert forall|i: int| 0 <= i < services.len() && net.dom().contains(#[trigger] services[i]@)
            implies taken_over(mac_run(net, acts)[services[i]@]) by {
            if i < n {
                assert(services.drop_last()[i] == services[i]);
            }
        }
        assert forall|k: Seq<char>| #[trigger] net.dom().contains(k) && (forall|i: int| 0 <= i < services.len() ==> services[i]@ != k)
            implies mac_run(net, acts)[k] == net[k] by {
            assert forall|i: int| 0 <= i < services.drop_last().len() implies services.drop_last()[i]@ != k by {
                assert(services.drop_last()[i] == services[i]);
            }
            assert(services[n]@ != k);
        }
    }
}

} // verus!

verus! {

// ---------------------------------------------------------------------------
// Clearing what an earlier version left behind
// ---------------------------------------------------------------------------

/// A PAC address that an earlier version of this shell, or its sibling tunnel, set.
pub open spec fn pac_is_ours(t: Seq<char>) -> bool {
    contains(t, "chatgpt-shell"@) || contains(t, "siliconmate-tunnel"@)
}

/// A SOCKS setting that points at a local tunnel port of this shell.
pub open spec fn socks_is_ours(t: Seq<char>) -> bool {
    contains(t, "127.0.0.1"@) && (contains(t, "1083"@) || contains(t, "18081"@))
}

/// The cleanup for one service: when the `-getautoproxyurl` output names one of our
/// PACs, switch the PAC proxy off and clear its address; then, when the
/// `-getsocksfirewallproxy` output points at one of our ports, switch SOCKS off.
pub open spec fn is_cleanup_actions(acts: Seq<MacAction>, service: String, pac: Option<Seq<char>>, socks: Option<Seq<char>>) -> bool {
    let pac_hit = pac matches Some(t) && pac_is_ours(t);
    let socks_hit = socks matches Some(t) && socks_is_ours(t);
    let n = if pac_hit { 2int } else { 0int };
    &&& acts.len() == n + if socks_hit { 1int } else { 0int }
    &&& pac_hit ==> acts[0] == MacAction::SetAutoProxyState { service, on: false }
        && (acts[1] matches MacAction::SetAutoProxyUrl { service: s, url } && s == service && url@.len() == 0)
    &&& socks_hit ==> acts[n] == MacAction::SetSocksProxyState { service, on: false }
}

/// The view of an optional string.
pub open spec fn opt_view(o: Option<String>) -> Option<Seq<char>> {
    match o {
        Some(s) => Some(s@),
        None => None,
    }
}

/// The cleanup actions for one service, from the output of its two probes
/// (`None` where the probe could not run).
pub fn fallback_cleanup_mac(service: &String, pac_output: &Option<String>, socks_output: &Option<String>) -> (res: Vec<MacAction>)
    ensures
        is_cleanup_actions(res@, *service, opt_view(*pac_output), opt_view(*socks_output)),
{
    let mut res: Vec<MacAction> = Vec::new();
    match pac_output {
        Some(t) => {
            let tv = chars_of(t.as_str());
            if contains_exec(&tv, &chars_of("chatgpt-shell")) || contains_exec(&tv, &chars_of("siliconmate-tunnel")) {
                res.push(MacAction::SetAutoProxyState { service: service.clone(), on: false });
                res.push(MacAction::SetAutoProxyUrl { service: service.clone(), url: String::new() });
            }
        },
        None => {},
    }
    match socks_output {
        Some(t) => {
            let tv = chars_of(t.as_str());
            if contains_exec(&tv, &chars_of("127.0.0.1")) && (contains_exec(&tv, &chars_of("1083"))
                || contains_exec(&tv, &chars_of("18081"))) {
                res.push(MacAction::SetSocksProxyState { service: service.clone(), on: false });
            }
        },
        None => {},
    }
    res
}

// ---------------------------------------------------------------------------
// Reading `networksetup` output
// ---------------------------------------------------------------------------

/// The service names in the lines after the heading: each line trimmed, empty ones and
/// disabled ones (starting with `'*'`) left out.
pub open spec fn service_lines(ls: Seq<Seq<char>>) -> Seq<Seq<char>>
    decreases ls.len(),
{
    if ls.len() == 0 {
        Seq::empty()
    } else {
        let t = trim(ls.last());
        service_lines(ls.drop_last()) + if t.len() > 0 && t[0] != '*' { seq![t] } else { Seq::empty() }
    }
}

/// The services that `networksetup -listallnetworkservices` lists.
pub open spec fn network_services(output: Seq<char>) -> Seq<Seq<char>> {
    if lines(output).len() == 0 { Seq::empty() } else { service_lines(lines(output).skip(1)) }
}

/// The enabled network services named in `networksetup -listallnetworkservices` output.
pub fn parse_network_services(output: &str) -> (res: Vec<String>)
    ensures
        strings_view(res@) == network_services(output@),
{
    let ls = split_lines(&chars_of(output));
    let mut res: Vec<String> = Vec::new();
    if ls.len() == 0 {
        proof {
            assert(strings_view(res@) =~= Seq::<Seq<char>>::empty());
        }
        return res;
    }
    let mut i: usize = 1;
    while i < ls.len()
        invariant
            1 <= i <= ls.len(),
            views(ls@) == lines(output@),
            strings_view(res@) == service_lines(views(ls@).subrange(1, i as int)),
        decreases ls.len() - i,
    {
        let t = trim_vec(&ls[i]);
        let ghost before = strings_view(res@);
        proof {
            let sub = views(ls@).subrange(1, i + 1);
            assert(sub.drop_last() =~= views(ls@).subrange(1, i as int));
            assert(sub.last() == ls@[i as int]@);
        }
        if t.len() > 0 && t[0] != '*' {
            res.push(string_of(&t));
            assert(strings_view(res@) =~= before + seq![t@]);
        } else {
            assert(before + Seq::<Seq<char>>::empty() =~= before);
        }
        i = i + 1;
    }
    proof {
        assert(views(ls@).subrange(1, ls.len() as int) =~= views(ls@).skip(1));
    }
    res
}

/// Some line starts with `Enabled:` and contains `Yes`.
pub open spec fn autoproxy_enabled(output: Seq<char>) -> bool {
    exists|i: int| 0 <= i < lines(output).len() && starts_with(#[trigger] lines(output)[i], "Enabled:"@)
        && contains(lines(output)[i], "Yes"@)
}

/// Whether `networksetup -getautoproxyurl` output reports the PAC proxy enabled.
pub fn parse_autoproxy_enabled(output: &str) -> (b: bool)
    ensures
        b == autoproxy_enabled(output@),
{
    let ls = split_lines(&chars_of(output));
    let enabled = chars_of("Enabled:");
    let yes = chars_of("Yes");
    let mut i: usize = 0;
    while i < ls.len()
        invariant
            i <= ls.len(),
            views(ls@) == lines(output@),
            enabled@ == "Enabled:"@,
            yes@ == "Yes"@,
            forall|k: int| 0 <= k < i ==> !(starts_with(#[trigger] lines(output@)[k], "Enabled:"@)
                && contains(lines(output@)[k], "Yes"@)),
        decreases ls.len() - i,
    {
        assert(ls@[i as int]@ == lines(output@)[i as int]);
        if starts_with_exec(&ls[i], &enabled) && contains_exec(&ls[i], &yes) {
            return true;
        }
        i = i + 1;
    }
    false
}

/// The address on the first line that starts with `URL:`, trimmed, or empty where it
/// is `(null)` or there is no such line.
pub open spec fn url_from_lines(ls: Seq<Seq<char>>) -> Seq<char>
    decreases ls.len(),
{
    if ls.len() == 0 {
        Seq::empty()
    } else if starts_with(ls[0], "URL:"@) {
        let u = trim(strip_prefix_all(ls[0], "URL:"@));
        if u == "(null)"@ { Seq::empty() } else { u }
    } else {
        url_from_lines(ls.drop_first())
    }
}

/// The PAC address in `networksetup -getautoproxyurl` output.
pub fn parse_autoproxy_url(output: &str) -> (res: String)
    ensures
        res@ == url_from_lines(lines(output@)),
{
    let ls = split_lines(&chars_of(output));
    let prefix = chars_of("URL:");
    proof {
        reveal_strlit("URL:");
    }
    let mut i: usize = 0;
    proof {
        assert(lines(output@).skip(0) =~= lines(output@));
    }
    while i < ls.len()
        invariant
            i <= ls.len(),
            views(ls@) == lines(output@),
            prefix@ == "URL:"@,
            prefix@.len() > 0,
            url_from_lines(lines(output@)) == url_from_lines(lines(output@).skip(i as int)),
        decreases ls.len() - i,
    {
        let ghost rest = lines(output@).skip(i as int);
        assert(rest[0] == ls@[i as int]@);
        if starts_with_exec(&ls[i], &prefix) {
            let u = trim_vec(&strip_prefix_all_exec(&ls[i], &prefix));
            if chars_eq(&u, &chars_of("(null)")) {
                return String::new();
            }
            return string_of(&u);
        }
        assert(rest.drop_first() =~= lines(output@).skip(i + 1));
        i = i + 1;
    }
    String::new()
}

/// The SOCKS state, host and port that `networksetup -getsocksfirewallproxy` output
/// reports: the last `Enabled:`, `Server:` and `Port:` lines decide, a port that is not
/// a number reads as 0.
pub open spec fn socks_from_lines(ls: Seq<Seq<char>>) -> (bool, Seq<char>, u16)
    decreases ls.len(),
{
    if ls.len() == 0 {
        (false, Seq::empty(), 0u16)
    } else {
        let prev = socks_from_lines(ls.drop_last());
        let l = ls.last();
        (
            if starts_with(l, "Enabled:"@) { contains(l, "Yes"@) } else { prev.0 },
            if starts_with(l, "Server:"@) { trim(strip_prefix_all(l, "Server:"@)) } else { prev.1 },
            if starts_with(l, "Port:"@) {
                match parse_u16(trim(strip_prefix_all(l, "Port:"@))) {
                    Some(p) => p,
                    None => 0u16,
                }
            } else {
                prev.2
            },
        )
    }
}

/// The SOCKS proxy reported in `networksetup -getsocksfirewallproxy` output.
pub fn parse_socks_proxy(output: &str) -> (res: (bool, String, u16))
    ensures
        res.0 == socks_from_lines(lines(output@)).0,
        res.1@ == socks_from_lines(lines(output@)).1,
        res.2 == socks_from_lines(lines(output@)).2,
{
    let ls = split_lines(&chars_of(output));
    let p_enabled = chars_of("Enabled:");
    let p_yes = chars_of("Yes");
    let p_server = chars_of("Server:");
    let p_port = chars_of("Port:");
    proof {
        reveal_strlit("Server:");
        reveal_strlit("Port:");
    }
    let mut enabled = false;
    let mut host: Vec<char> = Vec::new();
    let mut port: u16 = 0;
    let mut i: usize = 0;
    while i < ls.len()
        invariant
            i <= ls.len(),
            views(ls@) == lines(output@),
            p_enabled@ == "Enabled:"@,
            p_yes@ == "Yes"@,
            p_server@ == "Server:"@,
            p_port@ == "Port:"@,
            p_server@.len() > 0,
            p_port@.len() > 0,
            socks_from_lines(lines(output@).take(i as int)) == (enabled, host@, port),
        decreases ls.len() - i,
    {
        let l = &ls[i];
        proof {
            let t = lines(output@).take(i + 1);
            assert(t.drop_last() =~= lines(output@).take(i as int));
            assert(t.last() == l@);
        }
        if starts_with_exec(l, &p_enabled) {
            enabled = contains_exec(l, &p_yes);
        }
        if starts_with_exec(l, &p_server) {
            host = trim_vec(&strip_prefix_all_exec(l, &p_server));
        }
        if starts_with_exec(l, &p_port) {
            port = match parse_u16_exec(&trim_vec(&strip_prefix_all_exec(l, &p_port))) {
                Some(p) => p,
                None => 0,
            };
        }
        i = i + 1;
    }
    proof {
        assert(lines(output@).take(ls.len() as int) =~= lines(output@));
    }
    (enabled, string_of(&host), port)
}

/// The record of one service from its two probes: without output from
/// `-getautoproxyurl` the PAC proxy reads as off with no address, without output from
/// `-getsocksfirewallproxy` SOCKS reads as off with no host and port 0.
pub open spec fn is_service_record(r: MacServiceRecord, name: String, pac: Option<Seq<char>>, socks: Option<Seq<char>>) -> bool {
    &&& r.name == name
    &&& r.auto_enabled == (pac matches Some(t) && autoproxy_enabled(t))
    &&& r.auto_url@ == match pac { Some(t) => url_from_lines(lines(t)), None => Seq::empty() }
    &&& match socks {
        Some(t) => {
            &&& r.socks_enabled == socks_from_lines(lines(t)).0
            &&& r.socks_host@ == socks_from_lines(lines(t)).1
            &&& r.socks_port == socks_from_lines(lines(t)).2
        },
        None => !r.socks_enabled && r.socks_host@.len() == 0 && r.socks_port == 0,
    }
}

/// The record of one service, from the output of its two probes.
pub fn service_record(name: &String, pac_output: &Option<String>, socks_output: &Option<String>) -> (r: MacServiceRecord)
    ensures
        is_service_record(r, *name, opt_view(*pac_output), opt_view(*socks_output)),
{
    let (auto_enabled, auto_url) = match pac_output {
        Some(t) => (parse_autoproxy_enabled(t.as_str()), parse_autoproxy_url(t.as_str())),
        None => (false, String::new()),
    };
    let (socks_enabled, socks_host, socks_port) = match socks_output {
        Some(t) => parse_socks_proxy(t.as_str()),
        None => (false, String::new(), 0u16),
    };
    MacServiceRecord { name: name.clone(), auto_enabled, auto_url, socks_enabled, socks_host, socks_port }
}

} // verus!

verus! {

/// The records of the services, each from its name and the output of its two probes.
pub fn snapshot_mac_services(probes: &Vec<(String, Option<String>, Option<String>)>) -> (res: Vec<MacServiceRecord>)
    ensures
        res@.len() == probes@.len(),
        forall|i: int| 0 <= i < probes@.len() ==> is_service_record(#[trigger] res@[i], probes@[i].0,
            opt_view(probes@[i].1), opt_view(probes@[i].2)),
{
    let mut res: Vec<MacServiceRecord> = Vec::new();
    let mut i: usize = 0;
    while i < probes.len()
        invariant
            i <= probes.len(),
            res@.len() == i,
            forall|k: int| 0 <= k < i ==> is_service_record(#[trigger] res@[k], probes@[k].0,
                opt_view(probes@[k].1), opt_view(probes@[k].2)),
        decreases probes.len() - i,
    {
        let (name, pac, socks) = &probes[i];
        res.push(service_record(name, pac, socks));
        i = i + 1;
    }
    res
}

} // verus!

verus! {

/// Without a record, the cleanup of a service leaves it alone unless it carries this
/// shell's marks; it then only switches the marked proxy off (and clears our PAC
/// address), and it never touches another service.
pub proof fn lemma_mac_cleanup(net: Map<Seq<char>, MacProxyState>, acts: Seq<MacAction>, service: String,
    pac: Option<Seq<char>>, socks: Option<Seq<char>>)
    requires
        is_cleanup_actions(acts, service, pac, socks),
    ensures
        mac_run(net, acts).dom() == net.dom(),
        forall|k: Seq<char>| k != service@ && #[trigger] net.dom().contains(k) ==> mac_run(net, acts)[k] == net[k],
        net.dom().contains(service@) ==> {
            let before = net[service@];
            let after = mac_run(net, acts)[service@];
            &&& after.auto_on == (if pac matches Some(t) && pac_is_ours(t) { false } else { before.auto_on })
            &&& after.auto_url == (if pac matches Some(t) && pac_is_ours(t) { Seq::empty() } else { before.auto_url })
            &&& after.socks_on == (if socks matches Some(t) && socks_is_ours(t) { false } else { before.socks_on })
            &&& after.socks_host == before.socks_host
            &&& after.socks_port == before.socks_port
        },
{
    lemma_mac_run_dom(net, acts);
    assert forall|k: Seq<char>| k != service@ && #[trigger] net.dom().contains(k) implies mac_run(net, acts)[k] == net[k] by {
        assert forall|i: int| 0 <= i < acts.len() implies action_service(#[trigger] acts[i]) != k by {}
        lemma_mac_run_frame(net, acts, k);
    }
    reveal_with_fuel(mac_run, 4);
    if acts.len() == 3 {
        assert(acts.drop_last().drop_last().drop_last().len() == 0);
    } else if acts.len() == 2 {
        assert(acts.drop_last().drop_last().len() == 0);
    } else if acts.len() == 1 {
        assert(acts.drop_last().len() == 0);
    }
}

} // verus!

verus! {

// ---------------------------------------------------------------------------
// What `networksetup` prints, and what a record read from it holds
// ---------------------------------------------------------------------------

/// The record describes a service's settings: every field as recorded, the SOCKS port
/// as the text of the recorded port number.
pub open spec fn describes(r: MacServiceRecord, m: MacProxyState) -> bool {
    &&& m.auto_on == r.auto_enabled && m.auto_url == r.auto_url@
    &&& m.socks_on == r.socks_enabled && m.socks_host == r.socks_host@ && m.socks_port == decimal(r.socks_port as nat)
}

/// `Yes` or `No`, as `networksetup` reports a switch.
pub open spec fn yes_no(on: bool) -> Seq<char> {
    if on { "Yes"@ } else { "No"@ }
}

/// What `networksetup -getautoproxyurl` prints for a service: the PAC address, or
/// `(null)` where there is none, then whether the PAC proxy is on.
pub open spec fn autoproxy_output(m: MacProxyState) -> Seq<char> {
    text_of_lines(seq![
        "URL: "@ + (if m.auto_url.len() == 0 { "(null)"@ } else { m.auto_url }),
        "Enabled: "@ + yes_no(m.auto_on),
    ])
}

/// What `networksetup -getsocksfirewallproxy` prints for a service.
pub open spec fn socks_output(m: MacProxyState) -> Seq<char> {
    text_of_lines(seq![
        "Enabled: "@ + yes_no(m.socks_on),
        "Server: "@ + m.socks_host,
        "Port: "@ + m.socks_port,
        "Authenticated Proxy Enabled: 0"@,
    ])
}

/// A value printed on a line of its own: no line break, no surrounding whitespace.
pub open spec fn one_line_value(v: Seq<char>) -> bool {
    !v.contains('\n') && trim(v) == v
}

/// Settings as `networksetup` holds them: the addresses are one-line values, the PAC
/// address is not the text `(null)` (which stands for none), and the SOCKS port is the
/// text of a port number.
pub open spec fn reportable(m: MacProxyState) -> bool {
    &&& one_line_value(m.auto_url) && m.auto_url != "(null)"@
    &&& one_line_value(m.socks_host)
    &&& exists|p: u16| m.socks_port == decimal(p as nat)
}

/// A `Key: value` line: it starts with the key, and what follows the key, trimmed, is
/// the value.
proof fn lemma_field_line(key: Seq<char>, v: Seq<char>)
    requires
        key.len() > 0,
        key[0] != ' ',
        trim(v) == v,
    ensures
        starts_with(key + (seq![' '] + v), key),
        trim(strip_prefix_all(key + (seq![' '] + v), key)) == v,
{
    crate::scan::lemma_starts_with_concat(key, seq![' '] + v);
    crate::scan::lemma_strip_prefix_once(key, seq![' '] + v);
    crate::text::lemma_trim_after_space(v);
}

/// A line that starts with a character other than the key's first does not start
/// with the key.
proof fn lemma_other_key(l: Seq<char>, key: Seq<char>)
    requires
        l.len() > 0,
        key.len() > 0,
        l[0] != key[0],
    ensures
        !starts_with(l, key),
{
    crate::scan::lemma_not_starts_with(l, key);
}

/// A line that does not end with a carriage return keeps its end when lines are split.
proof fn lemma_keeps_end(l: Seq<char>)
    requires
        l.len() > 0,
        l.last() != '\r',
    ensures
        crate::scan::strip_cr(l) == l,
{
}

proof fn lemma_literals()
    ensures
        "URL: "@ == "URL:"@ + seq![' '],
        "Enabled: "@ == "Enabled:"@ + seq![' '],
        "Server: "@ == "Server:"@ + seq![' '],
        "Port: "@ == "Port:"@ + seq![' '],
        !"URL: "@.contains('\n') && !"Enabled: "@.contains('\n') && !"Server: "@.contains('\n')
            && !"Port: "@.contains('\n') && !"Yes"@.contains('\n') && !"No"@.contains('\n')
            && !"(null)"@.contains('\n') && !"Authenticated Proxy Enabled: 0"@.contains('\n'),
        !"Enabled: "@.contains('Y') && !"No"@.contains('Y'),
        "URL:"@.len() > 0 && "URL:"@[0] == 'U',
        "Enabled:"@.len() > 0 && "Enabled:"@[0] == 'E',
        "Server:"@.len() > 0 && "Server:"@[0] == 'S',
        "Port:"@.len() > 0 && "Port:"@[0] == 'P',
        "Authenticated Proxy Enabled: 0"@.len() > 0 && "Authenticated Proxy Enabled: 0"@[0] == 'A',
        "Authenticated Proxy Enabled: 0"@.last() == '0',
        "Yes"@.len() > 0 && "Yes"@[0] == 'Y' && "Yes"@.last() == 's',
        "No"@.len() > 0 && "No"@.last() == 'o',
        "(null)"@.len() > 0 && "(null)"@[0] == '(' && "(null)"@.last() == ')',
{
    reveal_strlit("URL: ");
    reveal_strlit("URL:");
    reveal_strlit("Enabled: ");
    reveal_strlit("Enabled:");
    reveal_strlit("Server: ");
    reveal_strlit("Server:");
    reveal_strlit("Port: ");
    reveal_strlit("Port:");
    reveal_strlit("Yes");
    reveal_strlit("No");
    reveal_strlit("(null)");
    reveal_strlit("Authenticated Proxy Enabled: 0");
    assert("URL: "@ =~= "URL:"@ + seq![' ']);
    assert("Enabled: "@ =~= "Enabled:"@ + seq![' ']);
    assert("Server: "@ =~= "Server:"@ + seq![' ']);
    assert("Port: "@ =~= "Port:"@ + seq![' ']);
}

} // verus!

verus! {

/// `-getsocksfirewallproxy` output for reportable settings reads back as those settings.
proof fn lemma_socks_output_reads_back(m: MacProxyState)
    requires
        reportable(m),
    ensures
        socks_from_lines(lines(socks_output(m))).0 == m.socks_on,
        socks_from_lines(lines(socks_output(m))).1 == m.socks_host,
        m.socks_port == decimal(socks_from_lines(lines(socks_output(m))).2 as nat),
{
    lemma_literals();
    let p = choose|p: u16| m.socks_port == decimal(p as nat);
    crate::text::lemma_parse_decimal(p);
    let a = "Enabled: "@ + yes_no(m.socks_on);
    let b = "Server: "@ + m.socks_host;
    let c = "Port: "@ + m.socks_port;
    let d = "Authenticated Proxy Enabled: 0"@;
    let ls = seq![a, b, c, d];
    crate::scan::lemma_lacks_concat("Enabled: "@, yes_no(m.socks_on), '\n');
    crate::scan::lemma_lacks_concat("Server: "@, m.socks_host, '\n');
    crate::scan::lemma_lacks_concat("Port: "@, m.socks_port, '\n');
    if m.socks_host.len() > 0 {
        crate::text::lemma_trim_fixed_ends(m.socks_host);
        assert(b.last() == m.socks_host.last());
    } else {
        assert(b.last() == ' ');
    }
    assert(a.last() == yes_no(m.socks_on).last());
    lemma_keeps_end(a);
    lemma_keeps_end(b);
    crate::text::lemma_trim_fixed_ends(m.socks_port);
    assert(c.last() == m.socks_port.last());
    lemma_keeps_end(c);
    lemma_keeps_end(d);
    assert forall|i: int| 0 <= i < ls.len() implies !(#[trigger] ls[i]).contains('\n')
        && crate::scan::strip_cr(ls[i]) == ls[i] by {
        if i == 0 {} else if i == 1 {} else if i == 2 {} else {}
    }
    crate::scan::lemma_lines_of_text(ls);
    assert(a == "Enabled:"@ + (seq![' '] + yes_no(m.socks_on)));
    assert(b == "Server:"@ + (seq![' '] + m.socks_host));
    assert(c == "Port:"@ + (seq![' '] + m.socks_port));
    lemma_field_line("Server:"@, m.socks_host);
    lemma_field_line("Port:"@, m.socks_port);
    crate::scan::lemma_starts_with_concat("Enabled:"@, seq![' '] + yes_no(m.socks_on));
    lemma_other_key(a, "Server:"@);
    lemma_other_key(a, "Port:"@);
    lemma_other_key(b, "Enabled:"@);
    lemma_other_key(b, "Port:"@);
    lemma_other_key(c, "Enabled:"@);
    lemma_other_key(c, "Server:"@);
    lemma_other_key(d, "Enabled:"@);
    lemma_other_key(d, "Server:"@);
    lemma_other_key(d, "Port:"@);
    if m.socks_on {
        assert(a =~= "Enabled: "@ + "Yes"@ + Seq::<char>::empty());
        crate::scan::lemma_contains_concat("Enabled: "@, "Yes"@, Seq::<char>::empty());
    } else {
        crate::scan::lemma_lacks_concat("Enabled: "@, "No"@, 'Y');
        crate::scan::lemma_not_contains(a, "Yes"@);
    }
    reveal_with_fuel(socks_from_lines, 5);
    assert(ls.drop_last() =~= seq![a, b, c]);
    assert(ls.drop_last().drop_last() =~= seq![a, b]);
    assert(ls.drop_last().drop_last().drop_last() =~= seq![a]);
    assert(seq![a].drop_last() =~= Seq::<Seq<char>>::empty());
}

} // verus!

verus! {

/// `-getautoproxyurl` output for reportable settings reads back as those settings.
proof fn lemma_autoproxy_output_reads_back(m: MacProxyState)
    requires
        reportable(m),
    ensures
        autoproxy_enabled(autoproxy_output(m)) == m.auto_on,
        url_from_lines(lines(autoproxy_output(m))) == m.auto_url,
{
    lemma_literals();
    let v = if m.auto_url.len() == 0 { "(null)"@ } else { m.auto_url };
    let u = "URL: "@ + v;
    let e = "Enabled: "@ + yes_no(m.auto_on);
    let ls = seq![u, e];
    if m.auto_url.len() > 0 {
        crate::text::lemma_trim_fixed_ends(m.auto_url);
    } else {
        crate::text::lemma_trim_fixed("(null)"@);
    }
    assert(trim(v) == v);
    crate::scan::lemma_lacks_concat("URL: "@, v, '\n');
    crate::scan::lemma_lacks_concat("Enabled: "@, yes_no(m.auto_on), '\n');
    assert(u.last() == v.last());
    assert(e.last() == yes_no(m.auto_on).last());
    lemma_keeps_end(u);
    lemma_keeps_end(e);
    assert forall|i: int| 0 <= i < ls.len() implies !(#[trigger] ls[i]).contains('\n')
        && crate::scan::strip_cr(ls[i]) == ls[i] by {
        if i == 0 {} else {}
    }
    crate::scan::lemma_lines_of_text(ls);
    assert(u == "URL:"@ + (seq![' '] + v));
    lemma_field_line("URL:"@, v);
    assert(ls.drop_first() =~= seq![e]);
    assert(url_from_lines(ls) == (if v == "(null)"@ { Seq::<char>::empty() } else { v }));
    assert(e == "Enabled:"@ + (seq![' '] + yes_no(m.auto_on)));
    crate::scan::lemma_starts_with_concat("Enabled:"@, seq![' '] + yes_no(m.auto_on));
    lemma_other_key(u, "Enabled:"@);
    if m.auto_on {
        assert(e =~= "Enabled: "@ + "Yes"@ + Seq::<char>::empty());
        crate::scan::lemma_contains_concat("Enabled: "@, "Yes"@, Seq::<char>::empty());
        assert(starts_with(lines(autoproxy_output(m))[1], "Enabled:"@));
    } else {
        crate::scan::lemma_lacks_concat("Enabled: "@, "No"@, 'Y');
        crate::scan::lemma_not_contains(e, "Yes"@);
        assert forall|i: int| 0 <= i < lines(autoproxy_output(m)).len() implies
            !(starts_with(#[trigger] lines(autoproxy_output(m))[i], "Enabled:"@)
            && contains(lines(autoproxy_output(m))[i], "Yes"@)) by {
            if i == 0 {} else {}
        }
    }
}

/// A record read from what `networksetup` prints for a service describes the
/// service's settings.
pub proof fn lemma_service_record_describes(r: MacServiceRecord, name: String, m: MacProxyState)
    requires
        reportable(m),
        is_service_record(r, name, Some(autoproxy_output(m)), Some(socks_output(m))),
    ensures
        r.name == name,
        describes(r, m),
{
    lemma_socks_output_reads_back(m);
    lemma_autoproxy_output_reads_back(m);
}

} // verus!

verus! {

proof fn lemma_service_lines_keep(names: Seq<Seq<char>>)
    requires
        forall|i: int| 0 <= i < names.len() ==> (#[trigger] names[i]).len() > 0 && trim(names[i]) == names[i]
            && names[i][0] != '*',
    ensures
        service_lines(names) == names,
    decreases names.len(),
{
    if names.len() > 0 {
        assert forall|i: int| 0 <= i < names.drop_last().len() implies (#[trigger] names.drop_last()[i]).len() > 0
            && trim(names.drop_last()[i]) == names.drop_last()[i] && names.drop_last()[i][0] != '*' by {
            assert(names.drop_last()[i] == names[i]);
        }
        lemma_service_lines_keep(names.drop_last());
        assert(names[names.len() - 1] == names.last());
        assert(names.drop_last() + seq![names.last()] =~= names);
    }
}

/// Every service that `networksetup -listallnetworkservices` lists after its heading
/// line, down to the last one, is read, in order: for names that are one trimmed line
/// each and do not start with `*` (the mark of a disabled service), the services read
/// from the listing are exactly those names.
pub proof fn lemma_listed_services_read_back(heading: Seq<char>, names: Seq<Seq<char>>)
    requires
        !heading.contains('\n'),
        heading.len() == 0 || heading.last() != '\r',
        forall|i: int| 0 <= i < names.len() ==> (#[trigger] names[i]).len() > 0 && trim(names[i]) == names[i]
            && names[i][0] != '*' && !names[i].contains('\n'),
    ensures
        network_services(text_of_lines(seq![heading] + names)) == names,
{
    let ls = seq![heading] + names;
    assert forall|i: int| 0 <= i < ls.len() implies !(#[trigger] ls[i]).contains('\n')
        && crate::scan::strip_cr(ls[i]) == ls[i] by {
        if i > 0 {
            assert(ls[i] == names[i - 1]);
            crate::text::lemma_trim_fixed_ends(names[i - 1]);
            assert(names[i - 1].last() != '\r');
        }
    }
    crate::scan::lemma_lines_of_text(ls);
    assert(ls.skip(1) =~= names);
    lemma_service_lines_keep(names);
}

/// A SOCKS proxy that `networksetup` reports at `127.0.0.1` on one of this shell's ports
/// (1083, or 18081 on macOS) is this shell's, and the cleanup switches it off.
pub proof fn lemma_cleanup_switches_off_shell_socks(net: Map<Seq<char>, MacProxyState>, acts: Seq<MacAction>,
    service: String, pac: Option<Seq<char>>, port: u16)
    requires
        port == 1083 || port == 18081,
        net.dom().contains(service@),
        net[service@].socks_host == "127.0.0.1"@,
        net[service@].socks_port == decimal(port as nat),
        is_cleanup_actions(acts, service, pac, Some(socks_output(net[service@]))),
    ensures
        socks_is_ours(socks_output(net[service@])),
        !mac_run(net, acts)[service@].socks_on,
{
    let m = net[service@];
    lemma_literals();
    reveal_strlit("127.0.0.1");
    reveal_strlit("1083");
    reveal_strlit("18081");
    reveal_with_fuel(decimal, 6);
    let p = decimal(port as nat);
    if port == 1083 {
        assert(p =~= "1083"@);
    } else {
        assert(p =~= "18081"@);
    }
    let a = "Enabled: "@ + yes_no(m.socks_on);
    let b = "Server: "@ + m.socks_host;
    let c = "Port: "@ + m.socks_port;
    let d = "Authenticated Proxy Enabled: 0"@;
    reveal_with_fuel(text_of_lines, 5);
    let nl = seq!['\n'];
    let t = socks_output(m);
    assert(seq![a, b, c, d].drop_first() =~= seq![b, c, d]);
    assert(seq![b, c, d].drop_first() =~= seq![c, d]);
    assert(seq![c, d].drop_first() =~= seq![d]);
    assert(seq![d].drop_first() =~= Seq::<Seq<char>>::empty());
    let tail = c + nl + (d + nl + Seq::<char>::empty());
    assert(t =~= a + nl + (b + nl + tail));
    assert(t =~= (a + nl + "Server: "@) + "127.0.0.1"@ + (nl + tail));
    crate::scan::lemma_contains_concat(a + nl + "Server: "@, "127.0.0.1"@, nl + tail);
    let rest = nl + (d + nl + Seq::<char>::empty());
    assert(t =~= (a + nl + b + nl + "Port: "@) + p + rest);
    crate::scan::lemma_contains_concat(a + nl + b + nl + "Port: "@, p, rest);
    lemma_mac_cleanup(net, acts, service, pac, Some(t));
}

} // verus!
