//! Linux (GNOME): the `gsettings` commands that take the proxy over and give it back,
//! and a model of the three proxy keys they touch.
use vstd::prelude::*;
use crate::command::{SystemCommand, command, owned, strings_view};
use crate::records::LinuxProxyRecord;
use crate::text::{chars_of, trim, trim_str, append_decimal, decimal};
use crate::scan::{contains, contains_exec};

verus! {

/// `org.gnome.system.proxy`.
pub open spec fn proxy_schema() -> Seq<char> {
    "org.gnome.system.proxy"@
}

/// `org.gnome.system.proxy.socks`.
pub open spec fn socks_schema() -> Seq<char> {
    "org.gnome.system.proxy.socks"@
}

/// One `gsettings set`.
#[derive(Debug, Clone)]
pub struct GSet {
    pub schema: String,
    pub key: String,
    pub value: String,
}

impl GSet {
    /// The `gsettings` invocation that carries out this change.
    pub fn to_command(&self) -> (c: SystemCommand)
        ensures
            c.is("gsettings"@, seq!["set"@, self.schema@, self.key@, self.value@]),
    {
        let mut args: Vec<String> = Vec::new();
        args.push(owned("set"));
        args.push(self.schema.clone());
        args.push(self.key.clone());
        args.push(self.value.clone());
        let c = command("gsettings", args);
        assert(strings_view(c.args@) =~= seq!["set"@, self.schema@, self.key@, self.value@]);
        c
    }
}

/// `gsettings get <schema> <key>`.
pub fn gsettings_get_command(schema: &str, key: &str) -> (c: SystemCommand)
    ensures
        c.is("gsettings"@, seq!["get"@, schema@, key@]),
{
    let mut args: Vec<String> = Vec::new();
    args.push(owned("get"));
    args.push(owned(schema));
    args.push(owned(key));
    let c = command("gsettings", args);
    assert(strings_view(c.args@) =~= seq!["get"@, schema@, key@]);
    c
}

/// The view of an optional string.
pub open spec fn opt_view(o: Option<String>) -> Option<Seq<char>> {
    match o {
        Some(s) => Some(s@),
        None => None,
    }
}

/// What a `gsettings get` reads as: its output trimmed, or empty where it could not run.
pub open spec fn read_value(output: Option<Seq<char>>) -> Seq<char> {
    match output {
        Some(t) => trim(t),
        None => Seq::empty(),
    }
}

/// The record of the current settings, from the output of `gsettings get` for the
/// proxy mode, the SOCKS host and the SOCKS port.
pub fn snapshot_linux_proxy(mode_output: &Option<String>, host_output: &Option<String>, port_output: &Option<String>) -> (r: LinuxProxyRecord)
    ensures
        r.mode@ == read_value(opt_view(*mode_output)),
        r.socks_host@ == read_value(opt_view(*host_output)),
        r.socks_port@ == read_value(opt_view(*port_output)),
{
    let mode = match mode_output { Some(t) => trim_str(t.as_str()), None => String::new() };
    let socks_host = match host_output { Some(t) => trim_str(t.as_str()), None => String::new() };
    let socks_port = match port_output { Some(t) => trim_str(t.as_str()), None => String::new() };
    LinuxProxyRecord { mode, socks_host, socks_port }
}

/// The change sets `schema`/`key` to `value`.
pub open spec fn is_gset(a: GSet, schema: Seq<char>, key: Seq<char>, value: Seq<char>) -> bool {
    a.schema@ == schema && a.key@ == key && a.value@ == value
}

fn gset(schema: &str, key: &str, value: String) -> (a: GSet)
    ensures
        is_gset(a, schema@, key@, value@),
{
    GSet { schema: owned(schema), key: owned(key), value }
}

/// The mode a restore sets: the recorded one, or `'none'` where none was recorded.
pub open spec fn restored_mode(r: LinuxProxyRecord) -> Seq<char> {
    if r.mode@.len() == 0 { "'none'"@ } else { r.mode@ }
}

/// The restore: the mode, then the SOCKS host and port where they were recorded.
pub open spec fn is_linux_restore(acts: Seq<GSet>, r: LinuxProxyRecord) -> bool {
    let h = if r.socks_host@.len() > 0 { 1int } else { 0int };
    &&& acts.len() == 1 + h + if r.socks_port@.len() > 0 { 1int } else { 0int }
    &&& is_gset(acts[0], proxy_schema(), "mode"@, restored_mode(r))
    &&& r.socks_host@.len() > 0 ==> is_gset(acts[1], socks_schema(), "host"@, r.socks_host@)
    &&& r.socks_port@.len() > 0 ==> is_gset(acts[1 + h], socks_schema(), "port"@, r.socks_port@)
}

/// The changes that put the recorded settings back.
pub fn restore_linux_proxy(r: &LinuxProxyRecord) -> (res: Vec<GSet>)
    ensures
        is_linux_restore(res@, *r),
{
    let mode = if r.mode.as_str().is_empty() { owned("'none'") } else { r.mode.clone() };
    let mut res: Vec<GSet> = Vec::new();
    res.push(gset("org.gnome.system.proxy", "mode", mode));
    if !r.socks_host.as_str().is_empty() {
        res.push(gset("org.gnome.system.proxy.socks", "host", r.socks_host.clone()));
    }
    if !r.socks_port.as_str().is_empty() {
        res.push(gset("org.gnome.system.proxy.socks", "port", r.socks_port.clone()));
    }
    res
}

/// The takeover: manual mode, SOCKS at `127.0.0.1` and the given port.
pub open spec fn is_linux_takeover(acts: Seq<GSet>, port: u16) -> bool {
    &&& acts.len() == 3
    &&& is_gset(acts[0], proxy_schema(), "mode"@, "manual"@)
    &&& is_gset(acts[1], socks_schema(), "host"@, "127.0.0.1"@)
    &&& is_gset(acts[2], socks_schema(), "port"@, decimal(port as nat))
}

/// The changes that point the GNOME proxy at the local SOCKS port.
pub fn apply_takeover_linux(port: u16) -> (res: Vec<GSet>)
    ensures
        is_linux_takeover(res@, port),
{
    let mut p = String::new();
    append_decimal(&mut p, port as u64);
    assert(Seq::<char>::empty() + decimal(port as nat) == decimal(port as nat));
    let mut res: Vec<GSet> = Vec::new();
    res.push(gset("org.gnome.system.proxy", "mode", owned("manual")));
    res.push(gset("org.gnome.system.proxy.socks", "host", owned("127.0.0.1")));
    res.push(gset("org.gnome.system.proxy.socks", "port", p));
    res
}

/// The mode output says `'manual'`: the SOCKS host must then be looked at.
pub open spec fn mode_is_manual(mode_output: Seq<char>) -> bool {
    contains(mode_output, "'manual'"@)
}

/// Whether the `gsettings get` output for the mode says `'manual'`.
pub fn mode_output_is_manual(mode_output: &String) -> (b: bool)
    ensures
        b == mode_is_manual(mode_output@),
{
    contains_exec(&chars_of(mode_output.as_str()), &chars_of("'manual'"))
}

/// The cleanup: with a manual mode and a SOCKS host on `127.0.0.1`, set the mode to
/// `none`; otherwise nothing.
pub open spec fn is_linux_cleanup(acts: Seq<GSet>, mode: Option<Seq<char>>, host: Option<Seq<char>>) -> bool {
    if (mode matches Some(m) && mode_is_manual(m)) && (host matches Some(h) && contains(h, "127.0.0.1"@)) {
        acts.len() == 1 && is_gset(acts[0], proxy_schema(), "mode"@, "none"@)
    } else {
        acts.len() == 0
    }
}

/// The cleanup changes, from the output of the mode and host queries.
pub fn fallback_cleanup_linux(mode_output: &Option<String>, host_output: &Option<String>) -> (res: Vec<GSet>)
    ensures
        is_linux_cleanup(res@, opt_view(*mode_output), opt_view(*host_output)),
{
    let mut res: Vec<GSet> = Vec::new();
    if let Some(m) = mode_output {
        if mode_output_is_manual(m) {
            if let Some(h) = host_output {
                if contains_exec(&chars_of(h.as_str()), &chars_of("127.0.0.1")) {
                    res.push(gset("org.gnome.system.proxy", "mode", owned("none")));
                }
            }
        }
    }
    res
}

// ---------------------------------------------------------------------------
// A model of the GNOME proxy keys
// ---------------------------------------------------------------------------

/// The keys after a change: `gsettings set` stores the given text under the schema and key.
pub open spec fn gsettings_apply(db: Map<(Seq<char>, Seq<char>), Seq<char>>, a: GSet) -> Map<(Seq<char>, Seq<char>), Seq<char>> {
    db.insert((a.schema@, a.key@), a.value@)
}

/// The keys after a sequence of changes, run in order.
pub open spec fn gsettings_run(db: Map<(Seq<char>, Seq<char>), Seq<char>>, acts: Seq<GSet>) -> Map<(Seq<char>, Seq<char>), Seq<char>>
    decreases acts.len(),
{
    if acts.len() == 0 {
        db
    } else {
        gsettings_apply(gsettings_run(db, acts.drop_last()), acts.last())
    }
}

pub open spec fn mode_key() -> (Seq<char>, Seq<char>) {
    (proxy_schema(), "mode"@)
}

pub open spec fn host_key() -> (Seq<char>, Seq<char>) {
    (socks_schema(), "host"@)
}

pub open spec fn port_key() -> (Seq<char>, Seq<char>) {
    (socks_schema(), "port"@)
}

proof fn lemma_keys_differ()
    ensures
        mode_key() != host_key(),
        mode_key() != port_key(),
        host_key() != port_key(),
{
    reveal_strlit("org.gnome.system.proxy");
    reveal_strlit("org.gnome.system.proxy.socks");
    reveal_strlit("host");
    reveal_strlit("port");
    assert(proxy_schema().len() != socks_schema().len());
    assert("host"@[0] != "port"@[0]);
}

/// After the restore, whatever the keys held before: the mode is the recorded one (or
/// `'none'`), the SOCKS host and port hold the recorded text where some was recorded and
/// are unchanged otherwise, and every other key is as it was.
pub proof fn lemma_linux_restore(db: Map<(Seq<char>, Seq<char>), Seq<char>>, acts: Seq<GSet>, r: LinuxProxyRecord)
    requires
        is_linux_restore(acts, r),
    ensures
        gsettings_run(db, acts).dom().contains(mode_key()),
        gsettings_run(db, acts)[mode_key()] == restored_mode(r),
        r.socks_host@.len() > 0 ==> gsettings_run(db, acts).dom().contains(host_key())
            && gsettings_run(db, acts)[host_key()] == r.socks_host@,
        r.socks_port@.len() > 0 ==> gsettings_run(db, acts).dom().contains(port_key())
            && gsettings_run(db, acts)[port_key()] == r.socks_port@,
        r.socks_host@.len() == 0 ==> (gsettings_run(db, acts).dom().contains(host_key()) <==> db.dom().contains(host_key()))
            && gsettings_run(db, acts)[host_key()] == db[host_key()],
        r.socks_port@.len() == 0 ==> (gsettings_run(db, acts).dom().contains(port_key()) <==> db.dom().contains(port_key()))
            && gsettings_run(db, acts)[port_key()] == db[port_key()],
        forall|k: (Seq<char>, Seq<char>)| k != mode_key() && k != host_key() && k != port_key()
            ==> (#[trigger] gsettings_run(db, acts).dom().contains(k) <==> db.dom().contains(k))
                && gsettings_run(db, acts)[k] == db[k],
{
    lemma_keys_differ();
    reveal_with_fuel(gsettings_run, 4);
    if acts.len() == 3 {
        assert(acts.drop_last().drop_last().drop_last().len() == 0);
    } else if acts.len() == 2 {
        assert(acts.drop_last().drop_last().len() == 0);
    } else {
        assert(acts.drop_last().len() == 0);
    }
}

/// After the takeover, whatever the keys held before: manual mode, SOCKS at
/// `127.0.0.1` and the port.
pub proof fn lemma_linux_takeover(db: Map<(Seq<char>, Seq<char>), Seq<char>>, acts: Seq<GSet>, port: u16)
    requires
        is_linux_takeover(acts, port),
    ensures
        gsettings_run(db, acts)[mode_key()] == "manual"@,
        gsettings_run(db, acts)[host_key()] == "127.0.0.1"@,
        gsettings_run(db, acts)[port_key()] == decimal(port as nat),
{
    lemma_keys_differ();
    reveal_with_fuel(gsettings_run, 4);
    assert(acts.drop_last().drop_last().drop_last().len() == 0);
}

} // verus!

verus! {

/// Without a record, the cleanup leaves the GNOME settings alone unless the mode is
/// manual with a SOCKS host on `127.0.0.1`; then it only sets the mode to `none`.
pub proof fn lemma_linux_cleanup(db: Map<(Seq<char>, Seq<char>), Seq<char>>, acts: Seq<GSet>, mode: Option<Seq<char>>, host: Option<Seq<char>>)
    requires
        is_linux_cleanup(acts, mode, host),
    ensures
        acts.len() == 0 ==> gsettings_run(db, acts) == db,
        acts.len() > 0 ==> gsettings_run(db, acts) == db.insert(mode_key(), "none"@),
        acts.len() > 0 <==> ((mode matches Some(m) && mode_is_manual(m)) && (host matches Some(h) && contains(h, "127.0.0.1"@))),
{
    reveal_with_fuel(gsettings_run, 2);
    if acts.len() == 1 {
        assert(acts.drop_last().len() == 0);
    }
}

} // verus!

verus! {

/// `gsettings get` prints the value on a line of its own.
pub open spec fn printed(v: Seq<char>) -> Seq<char> {
    v.push('\n')
}

/// A record taken from `gsettings get` output describes the keys it was read from,
/// when each value is set, not empty and without surrounding whitespace.
pub proof fn lemma_snapshot_reads_the_keys(db: Map<(Seq<char>, Seq<char>), Seq<char>>, r: LinuxProxyRecord)
    requires
        db.dom().contains(mode_key()) && db.dom().contains(host_key()) && db.dom().contains(port_key()),
        trim(db[mode_key()]) == db[mode_key()] && db[mode_key()].len() > 0,
        trim(db[host_key()]) == db[host_key()] && db[host_key()].len() > 0,
        trim(db[port_key()]) == db[port_key()] && db[port_key()].len() > 0,
        r.mode@ == read_value(Some(printed(db[mode_key()]))),
        r.socks_host@ == read_value(Some(printed(db[host_key()]))),
        r.socks_port@ == read_value(Some(printed(db[port_key()]))),
    ensures
        r.mode@ == db[mode_key()],
        r.socks_host@ == db[host_key()],
        r.socks_port@ == db[port_key()],
{
    crate::text::lemma_trim_line(db[mode_key()]);
    crate::text::lemma_trim_line(db[host_key()]);
    crate::text::lemma_trim_line(db[port_key()]);
}

} // verus!
