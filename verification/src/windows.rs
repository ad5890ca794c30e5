//! Windows: the `reg` and PowerShell commands that take the proxy over and give it
//! back, the reading of `reg query` output, and a model of the Internet Settings key.
use vstd::prelude::*;
use crate::command::{SystemCommand, command, owned, strings_view};
use crate::records::WinProxyRecord;
use crate::text::{chars_of, string_of, trim, trim_vec, append_decimal, decimal};
use crate::scan::{contains, contains_exec, starts_with, starts_with_exec, lines, split_lines, views,
    crlf_text_of_lines, word_len, skip_word, occurs_at_exec, last_word, last_word_exec};
use crate::text::{trim_start, skip_whitespace, slice_chars};

verus! {

/// The registry key that holds the per-user proxy settings.
pub open spec fn inet_key() -> Seq<char> {
    "HKCU\\Software\\Microsoft\\Windows\\CurrentVersion\\Internet Settings"@
}

/// The PowerShell script that makes WinINet reload its settings.
pub open spec fn refresh_script() -> Seq<char> {
    "Add-Type -Namespace Win32 -Name WinInet -MemberDefinition '[DllImport(\"wininet.dll\")] public static extern bool InternetSetOption(IntPtr h, int o, IntPtr b, int l);'; [Win32.WinInet]::InternetSetOption(0,39,0,0) | Out-Null; [Win32.WinInet]::InternetSetOption(0,37,0,0) | Out-Null"@
}

/// The type of a registry value.
#[derive(Debug, Clone, Copy, PartialEq, Eq, Structural)]
pub enum RegType {
    Dword,
    Sz,
}

/// `REG_DWORD` or `REG_SZ`.
pub open spec fn reg_type_name(t: RegType) -> Seq<char> {
    match t {
        RegType::Dword => "REG_DWORD"@,
        RegType::Sz => "REG_SZ"@,
    }
}

/// One change to the Internet Settings key, or the reload that makes it take effect.
#[derive(Debug, Clone)]
pub enum WinAction {
    RegSet { value: String, reg_type: RegType, data: String },
    RegDelete { value: String },
    RefreshInternetOptions,
}

/// The program and arguments that carry out an action.
pub open spec fn win_action_command(a: WinAction) -> (Seq<char>, Seq<Seq<char>>) {
    match a {
        WinAction::RegSet { value, reg_type, data } => ("reg"@, seq![
            "add"@, inet_key(), "/v"@, value@, "/t"@, reg_type_name(reg_type), "/d"@, data@, "/f"@,
        ]),
        WinAction::RegDelete { value } => ("reg"@, seq!["delete"@, inet_key(), "/v"@, value@, "/f"@]),
        WinAction::RefreshInternetOptions => ("powershell"@, seq![
            "-NoProfile"@, "-NonInteractive"@, "-ExecutionPolicy"@, "Bypass"@, "-Command"@, refresh_script(),
        ]),
    }
}

fn inet_key_string() -> (s: String)
    ensures
        s@ == inet_key(),
{
    owned("HKCU\\Software\\Microsoft\\Windows\\CurrentVersion\\Internet Settings")
}

/// The arguments PowerShell runs a script with.
fn powershell_args(script: String) -> (args: Vec<String>)
    ensures
        strings_view(args@) == seq![
            "-NoProfile"@, "-NonInteractive"@, "-ExecutionPolicy"@, "Bypass"@, "-Command"@, script@,
        ],
{
    let mut args: Vec<String> = Vec::new();
    args.push(owned("-NoProfile"));
    args.push(owned("-NonInteractive"));
    args.push(owned("-ExecutionPolicy"));
    args.push(owned("Bypass"));
    args.push(owned("-Command"));
    args.push(script);
    assert(strings_view(args@) =~= seq![
        "-NoProfile"@, "-NonInteractive"@, "-ExecutionPolicy"@, "Bypass"@, "-Command"@, script@,
    ]);
    args
}

/// A PowerShell invocation of a script.
pub fn powershell_command(script: String) -> (c: SystemCommand)
    ensures
        c.is("powershell"@, seq![
            "-NoProfile"@, "-NonInteractive"@, "-ExecutionPolicy"@, "Bypass"@, "-Command"@, script@,
        ]),
{
    command("powershell", powershell_args(script))
}

impl WinAction {
    /// The `reg` or PowerShell invocation that carries out this action.
    pub fn to_command(&self) -> (c: SystemCommand)
        ensures
            c.is(win_action_command(*self).0, win_action_command(*self).1),
    {
        match self {
            WinAction::RegSet { value, reg_type, data } => {
                let mut args: Vec<String> = Vec::new();
                args.push(owned("add"));
                args.push(inet_key_string());
                args.push(owned("/v"));
                args.push(value.clone());
                args.push(owned("/t"));
                args.push(match reg_type {
                    RegType::Dword => owned("REG_DWORD"),
                    RegType::Sz => owned("REG_SZ"),
                });
                args.push(owned("/d"));
                args.push(data.clone());
                args.push(owned("/f"));
                let c = command("reg", args);
                assert(strings_view(c.args@) =~= win_action_command(*self).1);
                c
            },
            WinAction::RegDelete { value } => {
                let mut args: Vec<String> = Vec::new();
                args.push(owned("delete"));
                args.push(inet_key_string());
                args.push(owned("/v"));
                args.push(value.clone());
                args.push(owned("/f"));
                let c = command("reg", args);
                assert(strings_view(c.args@) =~= win_action_command(*self).1);
                c
            },
            WinAction::RefreshInternetOptions => {
                powershell_command(owned("Add-Type -Namespace Win32 -Name WinInet -MemberDefinition '[DllImport(\"wininet.dll\")] public static extern bool InternetSetOption(IntPtr h, int o, IntPtr b, int l);'; [Win32.WinInet]::InternetSetOption(0,39,0,0) | Out-Null; [Win32.WinInet]::InternetSetOption(0,37,0,0) | Out-Null"))
            },
        }
    }
}

/// `reg query <Internet Settings> /v <value>`.
pub fn reg_query_command(value: &str) -> (c: SystemCommand)
    ensures
        c.is("reg"@, seq!["query"@, inet_key(), "/v"@, value@]),
{
    let mut args: Vec<String> = Vec::new();
    args.push(owned("query"));
    args.push(inet_key_string());
    args.push(owned("/v"));
    args.push(owned(value));
    let c = command("reg", args);
    assert(strings_view(c.args@) =~= seq!["query"@, inet_key(), "/v"@, value@]);
    c
}

// ---------------------------------------------------------------------------
// Reading `reg query` output
// ---------------------------------------------------------------------------

/// The data on a `reg query` line `u` (without its indentation) that starts with the
/// value's name: what follows the type column and the four spaces that separate the
/// columns (what follows any whitespace, where the line ends before them).
pub open spec fn reg_line_data(u: Seq<char>, value: Seq<char>) -> Seq<char> {
    let after = trim_start(u.skip(value.len() as int));
    let rest = after.skip(word_len(after) as int);
    if starts_with(rest, "    "@) { rest.skip(4) } else { trim_start(rest) }
}

/// The data of `value`: from the first line that, trimmed, is not empty and starts with
/// the value's name.
pub open spec fn reg_value_from_lines(ls: Seq<Seq<char>>, value: Seq<char>) -> Option<Seq<char>>
    decreases ls.len(),
{
    if ls.len() == 0 {
        None
    } else if trim(ls[0]).len() > 0 && starts_with(trim(ls[0]), value) {
        Some(reg_line_data(trim_start(ls[0]), value))
    } else {
        reg_value_from_lines(ls.drop_first(), value)
    }
}

/// The data on a line that, trimmed, starts with the value's name (`vlen` characters).
fn reg_line_data_exec(line: &Vec<char>, vlen: usize) -> (res: Vec<char>)
    requires
        vlen <= trim(line@).len(),
    ensures
        res@ == reg_line_data(trim_start(line@), trim_start(line@).take(vlen as int)),
{
    let a = skip_whitespace(line, 0);
    proof {
        assert(line@.skip(0) =~= line@);
        crate::text::lemma_trim_end_shape_pub(trim_start(line@));
    }
    let b0 = a + vlen;
    let ghost u = trim_start(line@);
    let ghost value = u.take(vlen as int);
    assert(value.len() == vlen);
    assert(u.skip(vlen as int) =~= line@.skip(b0 as int));
    let b = skip_whitespace(line, b0);
    let c = skip_word(line, b);
    assert(line@.skip(b as int).skip(word_len(line@.skip(b as int)) as int) =~= line@.skip(c as int));
    let sep = chars_of("    ");
    proof {
        reveal_strlit("    ");
    }
    let ghost rest = line@.skip(c as int);
    if occurs_at_exec(line, &sep, c) {
        assert(rest.subrange(0, 4) =~= line@.subrange(c as int, c + 4));
        assert(starts_with(rest, "    "@));
        assert(rest.skip(4) =~= line@.skip(c + 4));
        slice_chars(line, c + 4, line.len())
    } else {
        proof {
            if starts_with(rest, "    "@) {
                assert(rest.subrange(0, 4) =~= line@.subrange(c as int, c + 4));
            }
        }
        let e = skip_whitespace(line, c);
        assert(line@.skip(e as int) =~= line@.subrange(e as int, line.len() as int));
        slice_chars(line, e, line.len())
    }
}

/// What `reg query` reports for `value`: nothing where the query could not run.
pub open spec fn reg_query_value(output: Option<Seq<char>>, value: Seq<char>) -> Option<Seq<char>> {
    match output {
        Some(t) => reg_value_from_lines(lines(t), value),
        None => None,
    }
}

/// The view of an optional string.
pub open spec fn opt_view(o: Option<String>) -> Option<Seq<char>> {
    match o {
        Some(s) => Some(s@),
        None => None,
    }
}

/// The data that `reg query` output reports for `value`.
pub fn parse_reg_query(output: &Option<String>, value: &str) -> (res: Option<String>)
    ensures
        opt_view(res) == reg_query_value(opt_view(*output), value@),
{
    let text = match output {
        Some(t) => t,
        None => { return None; },
    };
    let ls = split_lines(&chars_of(text.as_str()));
    let name = chars_of(value);
    let mut i: usize = 0;
    proof {
        assert(lines(text@).skip(0) =~= lines(text@));
    }
    while i < ls.len()
        invariant
            i <= ls.len(),
            views(ls@) == lines(text@),
            opt_view(*output) == Some(text@),
            name@ == value@,
            reg_value_from_lines(lines(text@), value@) == reg_value_from_lines(lines(text@).skip(i as int), value@),
        decreases ls.len() - i,
    {
        let ghost rest = lines(text@).skip(i as int);
        assert(rest[0] == ls@[i as int]@);
        let t = trim_vec(&ls[i]);
        if t.len() > 0 && starts_with_exec(&t, &name) {
            let w = string_of(&reg_line_data_exec(&ls[i], name.len()));
            assert(rest.len() > 0);
            assert(trim(ls@[i as int]@).subrange(0, name.len() as int) =~= name@);
            proof {
                crate::text::lemma_trim_end_shape_pub(trim_start(ls@[i as int]@));
                assert(trim_start(ls@[i as int]@).take(name.len() as int) =~= trim(ls@[i as int]@).take(name.len() as int));
                assert(trim_start(ls@[i as int]@).take(name.len() as int) =~= value@);
            }
            assert(reg_value_from_lines(rest, value@) == Some(reg_line_data(trim_start(rest[0]), value@)));
            assert(opt_view(Some(w)) == Some(w@));
            return Some(w);
        }
        assert(rest.drop_first() =~= lines(text@).skip(i + 1));
        i = i + 1;
    }
    None
}

/// The record of the current settings from the three queries: a missing
/// `ProxyEnable` reads as `0x0`, a missing server or override as empty.
pub open spec fn is_win_record(r: WinProxyRecord, enable: Option<Seq<char>>, server: Option<Seq<char>>, overrides: Option<Seq<char>>) -> bool {
    &&& r.proxy_enable@ == match enable { Some(e) => e, None => "0x0"@ }
    &&& r.proxy_server@ == match server { Some(e) => e, None => Seq::empty() }
    &&& r.proxy_override@ == match overrides { Some(e) => e, None => Seq::empty() }
}

/// The record of the current settings, from the `reg query` output for `ProxyEnable`,
/// `ProxyServer` and `ProxyOverride`.
pub fn snapshot_win_proxy(enable_output: &Option<String>, server_output: &Option<String>, override_output: &Option<String>) -> (r: WinProxyRecord)
    ensures
        is_win_record(r,
            reg_query_value(opt_view(*enable_output), "ProxyEnable"@),
            reg_query_value(opt_view(*server_output), "ProxyServer"@),
            reg_query_value(opt_view(*override_output), "ProxyOverride"@)),
{
    let proxy_enable = match parse_reg_query(enable_output, "ProxyEnable") {
        Some(v) => v,
        None => owned("0x0"),
    };
    let proxy_server = match parse_reg_query(server_output, "ProxyServer") {
        Some(v) => v,
        None => String::new(),
    };
    let proxy_override = match parse_reg_query(override_output, "ProxyOverride") {
        Some(v) => v,
        None => String::new(),
    };
    WinProxyRecord { proxy_enable, proxy_server, proxy_override }
}

} // verus!

verus! {

// ---------------------------------------------------------------------------
// A model of the Internet Settings key
// ---------------------------------------------------------------------------

/// The values of the Internet Settings key after an action: `reg add` sets a value,
/// `reg delete` removes it, the reload changes nothing in the key.
pub open spec fn win_apply(reg: Map<Seq<char>, Seq<char>>, a: WinAction) -> Map<Seq<char>, Seq<char>> {
    match a {
        WinAction::RegSet { value, data, .. } => reg.insert(value@, data@),
        WinAction::RegDelete { value } => reg.remove(value@),
        WinAction::RefreshInternetOptions => reg,
    }
}

/// The values after a sequence of actions, run in order.
pub open spec fn win_run(reg: Map<Seq<char>, Seq<char>>, acts: Seq<WinAction>) -> Map<Seq<char>, Seq<char>>
    decreases acts.len(),
{
    if acts.len() == 0 {
        reg
    } else {
        win_apply(win_run(reg, acts.drop_last()), acts.last())
    }
}

pub proof fn lemma_win_run_append(reg: Map<Seq<char>, Seq<char>>, a: Seq<WinAction>, b: Seq<WinAction>)
    ensures
        win_run(reg, a + b) == win_run(win_run(reg, a), b),
    decreases b.len(),
{
    if b.len() == 0 {
        assert(a + b =~= a);
    } else {
        assert((a + b).drop_last() =~= a + b.drop_last());
        lemma_win_run_append(reg, a, b.drop_last());
    }
}

/// The action sets `value` to `data` with the given type.
pub open spec fn is_reg_set(a: WinAction, value: Seq<char>, reg_type: RegType, data: Seq<char>) -> bool {
    a matches WinAction::RegSet { value: v, reg_type: t, data: d } && v@ == value && t == reg_type && d@ == data
}

/// The action removes `value`.
pub open spec fn is_reg_delete(a: WinAction, value: Seq<char>) -> bool {
    a matches WinAction::RegDelete { value: v } && v@ == value
}

/// Sets `value` to `data` as a string when `data` is not empty, and removes it otherwise.
pub open spec fn is_set_or_delete(a: WinAction, value: Seq<char>, data: Seq<char>) -> bool {
    if data.len() > 0 { is_reg_set(a, value, RegType::Sz, data) } else { is_reg_delete(a, value) }
}

// ---------------------------------------------------------------------------
// Giving the proxy back, taking it over, clearing leftovers
// ---------------------------------------------------------------------------

/// `"1"` when the recorded `ProxyEnable` contains a `1` (as `0x1` does), `"0"` otherwise.
pub open spec fn enable_flag(recorded: Seq<char>) -> Seq<char> {
    if recorded.contains('1') { "1"@ } else { "0"@ }
}

/// The restore: `ProxyEnable` as a DWORD from the recorded flag, `ProxyServer` and
/// `ProxyOverride` set to the recorded text or removed where it is empty, then the reload.
pub open spec fn is_win_restore(acts: Seq<WinAction>, r: WinProxyRecord) -> bool {
    &&& acts.len() == 4
    &&& is_reg_set(acts[0], "ProxyEnable"@, RegType::Dword, enable_flag(r.proxy_enable@))
    &&& is_set_or_delete(acts[1], "ProxyServer"@, r.proxy_server@)
    &&& is_set_or_delete(acts[2], "ProxyOverride"@, r.proxy_override@)
    &&& acts[3] == WinAction::RefreshInternetOptions
}

fn contains_char(s: &String, c: char) -> (b: bool)
    ensures
        b == s@.contains(c),
{
    let v = chars_of(s.as_str());
    let mut i: usize = 0;
    while i < v.len()
        invariant
            i <= v.len(),
            v@ == s@,
            forall|k: int| 0 <= k < i ==> v@[k] != c,
        decreases v.len() - i,
    {
        if v[i] == c {
            return true;
        }
        i = i + 1;
    }
    false
}

fn set_or_delete(value: &str, data: &String) -> (a: WinAction)
    ensures
        is_set_or_delete(a, value@, data@),
{
    if data.as_str().is_empty() {
        WinAction::RegDelete { value: owned(value) }
    } else {
        WinAction::RegSet { value: owned(value), reg_type: RegType::Sz, data: data.clone() }
    }
}

/// The actions that put the recorded settings back.
pub fn restore_win_proxy(r: &WinProxyRecord) -> (res: Vec<WinAction>)
    ensures
        is_win_restore(res@, *r),
{
    let flag = if contains_char(&r.proxy_enable, '1') { owned("1") } else { owned("0") };
    let mut res: Vec<WinAction> = Vec::new();
    res.push(WinAction::RegSet { value: owned("ProxyEnable"), reg_type: RegType::Dword, data: flag });
    res.push(set_or_delete("ProxyServer", &r.proxy_server));
    res.push(set_or_delete("ProxyOverride", &r.proxy_override));
    res.push(WinAction::RefreshInternetOptions);
    res
}

/// The value that points the system at the local SOCKS port.
pub open spec fn socks_server_value(port: u16) -> Seq<char> {
    "socks=127.0.0.1:"@ + decimal(port as nat)
}

/// The takeover: proxy on, the local SOCKS server, `<local>` bypassed, then the reload.
pub open spec fn is_win_takeover(acts: Seq<WinAction>, port: u16) -> bool {
    &&& acts.len() == 4
    &&& is_reg_set(acts[0], "ProxyEnable"@, RegType::Dword, "1"@)
    &&& is_reg_set(acts[1], "ProxyServer"@, RegType::Sz, socks_server_value(port))
    &&& is_reg_set(acts[2], "ProxyOverride"@, RegType::Sz, "<local>"@)
    &&& acts[3] == WinAction::RefreshInternetOptions
}

/// The actions that point the system proxy at the local SOCKS port.
pub fn apply_takeover_win(port: u16) -> (res: Vec<WinAction>)
    ensures
        is_win_takeover(res@, port),
{
    let mut server = owned("socks=127.0.0.1:");
    append_decimal(&mut server, port as u64);
    let mut res: Vec<WinAction> = Vec::new();
    res.push(WinAction::RegSet { value: owned("ProxyEnable"), reg_type: RegType::Dword, data: owned("1") });
    res.push(WinAction::RegSet { value: owned("ProxyServer"), reg_type: RegType::Sz, data: server });
    res.push(WinAction::RegSet { value: owned("ProxyOverride"), reg_type: RegType::Sz, data: owned("<local>") });
    res.push(WinAction::RefreshInternetOptions);
    res
}

/// A `ProxyServer` value that points at this shell's local port: its last word (what the
/// cleanup has always looked at) names `127.0.0.1` and port `1083`.
pub open spec fn server_is_ours(server: Seq<char>) -> bool {
    let w = last_word(trim(server));
    contains(w, "127.0.0.1"@) && contains(w, "1083"@)
}

/// The cleanup: when the current `ProxyServer` points at this shell's port, switch the
/// proxy off and reload; otherwise nothing.
pub open spec fn is_win_cleanup(acts: Seq<WinAction>, server: Option<Seq<char>>) -> bool {
    if server matches Some(s) && server_is_ours(s) {
        &&& acts.len() == 2
        &&& is_reg_set(acts[0], "ProxyEnable"@, RegType::Dword, "0"@)
        &&& acts[1] == WinAction::RefreshInternetOptions
    } else {
        acts.len() == 0
    }
}

/// The cleanup actions, from the current `ProxyServer` value (`None` where there is none).
pub fn fallback_cleanup_win(server: &Option<String>) -> (res: Vec<WinAction>)
    ensures
        is_win_cleanup(res@, opt_view(*server)),
{
    let mut res: Vec<WinAction> = Vec::new();
    if let Some(s) = server {
        let v = last_word_exec(&trim_vec(&chars_of(s.as_str())));
        if contains_exec(&v, &chars_of("127.0.0.1")) && contains_exec(&v, &chars_of("1083")) {
            res.push(WinAction::RegSet { value: owned("ProxyEnable"), reg_type: RegType::Dword, data: owned("0") });
            res.push(WinAction::RefreshInternetOptions);
        }
    }
    res
}

// ---------------------------------------------------------------------------
// What the plans do to the key
// ---------------------------------------------------------------------------

proof fn lemma_value_names_differ()
    ensures
        "ProxyEnable"@ != "ProxyServer"@,
        "ProxyEnable"@ != "ProxyOverride"@,
        "ProxyServer"@ != "ProxyOverride"@,
{
    reveal_strlit("ProxyEnable");
    reveal_strlit("ProxyServer");
    reveal_strlit("ProxyOverride");
    assert("ProxyEnable"@[5] != "ProxyServer"@[5]);
    assert("ProxyEnable"@[5] != "ProxyOverride"@[5]);
    assert("ProxyServer"@[5] != "ProxyOverride"@[5]);
}

/// The key holds `value` with `data` when `data` is not empty, and lacks it otherwise.
pub open spec fn holds_or_lacks(reg: Map<Seq<char>, Seq<char>>, value: Seq<char>, data: Seq<char>) -> bool {
    if data.len() > 0 {
        reg.dom().contains(value) && reg[value] == data
    } else {
        !reg.dom().contains(value)
    }
}

/// After the restore, whatever the key held before: `ProxyEnable` is the recorded flag,
/// `ProxyServer` and `ProxyOverride` hold the recorded text or are absent where it was
/// empty, and every other value is as it was.
pub proof fn lemma_win_restore(reg: Map<Seq<char>, Seq<char>>, acts: Seq<WinAction>, r: WinProxyRecord)
    requires
        is_win_restore(acts, r),
    ensures
        win_run(reg, acts).dom().contains("ProxyEnable"@),
        win_run(reg, acts)["ProxyEnable"@] == enable_flag(r.proxy_enable@),
        holds_or_lacks(win_run(reg, acts), "ProxyServer"@, r.proxy_server@),
        holds_or_lacks(win_run(reg, acts), "ProxyOverride"@, r.proxy_override@),
        forall|k: Seq<char>| k != "ProxyEnable"@ && k != "ProxyServer"@ && k != "ProxyOverride"@
            ==> (#[trigger] win_run(reg, acts).dom().contains(k) <==> reg.dom().contains(k))
                && (reg.dom().contains(k) ==> win_run(reg, acts)[k] == reg[k]),
{
    lemma_value_names_differ();
    reveal_with_fuel(win_run, 5);
    assert(acts.drop_last().drop_last().drop_last().drop_last().len() == 0);
}

/// After the takeover, whatever the key held before: the proxy is on, the server is the
/// local SOCKS port, `<local>` is bypassed, and every other value is as it was.
pub proof fn lemma_win_takeover(reg: Map<Seq<char>, Seq<char>>, acts: Seq<WinAction>, port: u16)
    requires
        is_win_takeover(acts, port),
    ensures
        win_run(reg, acts).dom().contains("ProxyEnable"@),
        win_run(reg, acts)["ProxyEnable"@] == "1"@,
        holds_or_lacks(win_run(reg, acts), "ProxyServer"@, socks_server_value(port)),
        holds_or_lacks(win_run(reg, acts), "ProxyOverride"@, "<local>"@),
{
    lemma_value_names_differ();
    reveal_strlit("<local>");
    reveal_strlit("socks=127.0.0.1:");
    reveal_with_fuel(win_run, 5);
    assert(acts.drop_last().drop_last().drop_last().drop_last().len() == 0);
}

} // verus!

verus! {

/// Without a record, the cleanup leaves the user's settings alone unless the proxy
/// server is this shell's own; then it only switches the proxy off.
pub proof fn lemma_win_cleanup(reg: Map<Seq<char>, Seq<char>>, acts: Seq<WinAction>, server: Option<Seq<char>>)
    requires
        is_win_cleanup(acts, server),
    ensures
        !(server matches Some(s) && server_is_ours(s)) ==> win_run(reg, acts) == reg,
        (server matches Some(s) && server_is_ours(s)) ==> win_run(reg, acts) == reg.insert("ProxyEnable"@, "0"@),
{
    reveal_with_fuel(win_run, 3);
    if acts.len() == 2 {
        assert(acts.drop_last().drop_last().len() == 0);
    }
}

} // verus!

verus! {

// ---------------------------------------------------------------------------
// What `reg query` prints, and what a record read from it holds
// ---------------------------------------------------------------------------

/// The Internet Settings key holds the values of the record: `ProxyEnable` is the
/// recorded flag, server and override hold the recorded text or are absent where it is empty.
pub open spec fn win_snapshot_of(reg: Map<Seq<char>, Seq<char>>, w: WinProxyRecord) -> bool {
    &&& reg.dom().contains("ProxyEnable"@) && reg["ProxyEnable"@] == enable_flag(w.proxy_enable@)
    &&& holds_or_lacks(reg, "ProxyServer"@, w.proxy_server@)
    &&& holds_or_lacks(reg, "ProxyOverride"@, w.proxy_override@)
}

/// The key as `reg query` names it in its output.
pub open spec fn reg_key_header() -> Seq<char> {
    "HKEY_CURRENT_USER\\Software\\Microsoft\\Windows\\CurrentVersion\\Internet Settings"@
}

/// What `reg query <key> /v <value>` prints on standard output: nothing where the value
/// is absent; otherwise a blank line, the key, the value's name, type and data on an
/// indented line, and a blank line, each line ending in CR LF.
pub open spec fn reg_query_output(value: Seq<char>, type_label: Seq<char>, data: Option<Seq<char>>) -> Seq<char> {
    match data {
        None => Seq::empty(),
        Some(d) => crlf_text_of_lines(seq![
            Seq::empty(),
            reg_key_header(),
            "    "@ + value + "    "@ + type_label + "    "@ + d,
            Seq::empty(),
        ]),
    }
}

/// What `reg query` prints for `ProxyEnable`: the DWORD in hexadecimal.
pub open spec fn enable_query_output(reg: Map<Seq<char>, Seq<char>>) -> Seq<char> {
    reg_query_output("ProxyEnable"@, reg_type_name(RegType::Dword), Some("0x"@ + reg["ProxyEnable"@]))
}

/// What `reg query` prints for a string value of the key.
pub open spec fn sz_query_output(reg: Map<Seq<char>, Seq<char>>, value: Seq<char>) -> Seq<char> {
    reg_query_output(value, reg_type_name(RegType::Sz),
        if reg.dom().contains(value) { Some(reg[value]) } else { None })
}

/// One word: not empty, without whitespace.
pub open spec fn one_word(v: Seq<char>) -> bool {
    v.len() > 0 && forall|i: int| 0 <= i < v.len() ==> !crate::text::is_ws(#[trigger] v[i])
}

/// A value that `reg query` prints on its line and a record can hold: not empty (a record
/// cannot tell an empty value from an absent one) and without a line break.
pub open spec fn one_line_data(v: Seq<char>) -> bool {
    v.len() > 0 && !v.contains('\n')
}

/// A key that `reg query` reports and a record reproduces: `ProxyEnable` is there as
/// the DWORD 0 or 1, and `ProxyServer` and `ProxyOverride`, where they are there, are
/// one-line data.
pub open spec fn reg_reportable(reg: Map<Seq<char>, Seq<char>>) -> bool {
    &&& reg.dom().contains("ProxyEnable"@) && (reg["ProxyEnable"@] == "0"@ || reg["ProxyEnable"@] == "1"@)
    &&& reg.dom().contains("ProxyServer"@) ==> one_line_data(reg["ProxyServer"@])
    &&& reg.dom().contains("ProxyOverride"@) ==> one_line_data(reg["ProxyOverride"@])
}

} // verus!

verus! {

proof fn lemma_reg_literals()
    ensures
        "    "@ == seq![' ', ' ', ' ', ' '],
        reg_key_header().len() > 0 && reg_key_header()[0] == 'H' && reg_key_header().last() == 's',
        !reg_key_header().contains('\n'),
        !"ProxyEnable"@.contains('\n') && !"ProxyServer"@.contains('\n') && !"ProxyOverride"@.contains('\n'),
        "ProxyEnable"@.len() > 0 && "ProxyEnable"@[0] == 'P',
        "ProxyServer"@.len() > 0 && "ProxyServer"@[0] == 'P',
        "ProxyOverride"@.len() > 0 && "ProxyOverride"@[0] == 'P',
        one_word(reg_type_name(RegType::Dword)) && one_word(reg_type_name(RegType::Sz)),
        "0x"@ + "0"@ == seq!['0', 'x', '0'],
        "0x"@ + "1"@ == seq!['0', 'x', '1'],
        "1"@ == seq!['1'],
        "0"@ == seq!['0'],
{
    reveal_strlit("    ");
    reveal_strlit("HKEY_CURRENT_USER\\Software\\Microsoft\\Windows\\CurrentVersion\\Internet Settings");
    reveal_strlit("ProxyEnable");
    reveal_strlit("ProxyServer");
    reveal_strlit("ProxyOverride");
    reveal_strlit("REG_DWORD");
    reveal_strlit("REG_SZ");
    reveal_strlit("0x");
    reveal_strlit("0");
    reveal_strlit("1");
    assert("    "@ =~= seq![' ', ' ', ' ', ' ']);
    assert("0x"@ + "0"@ =~= seq!['0', 'x', '0']);
    assert("0x"@ + "1"@ =~= seq!['0', 'x', '1']);
    assert("1"@ =~= seq!['1']);
    assert("0"@ =~= seq!['0']);
    assert forall|i: int| 0 <= i < "REG_DWORD"@.len() implies !crate::text::is_ws(#[trigger] "REG_DWORD"@[i]) by {
        assert(0x41 <= "REG_DWORD"@[i] as u32 <= 0x5f);
    }
    assert forall|i: int| 0 <= i < "REG_SZ"@.len() implies !crate::text::is_ws(#[trigger] "REG_SZ"@[i]) by {
        assert(0x41 <= "REG_SZ"@[i] as u32 <= 0x5f);
    }
}

/// `reg query` output for a value reads back as the value's data, when the name starts
/// with `P`, the type is one word and the data has no line break.
proof fn lemma_reg_output_reads_back(value: Seq<char>, type_label: Seq<char>, d: Seq<char>)
    requires
        value.len() > 0,
        value[0] == 'P',
        !value.contains('\n'),
        one_word(type_label),
        !d.contains('\n'),
    ensures
        reg_query_value(Some(reg_query_output(value, type_label, Some(d))), value) == Some(d),
{
    lemma_reg_literals();
    let sp = "    "@;
    let r = value + sp + type_label + sp + d;
    let l = sp + value + sp + type_label + sp + d;
    let ls = seq![Seq::<char>::empty(), reg_key_header(), l, Seq::<char>::empty()];
    if type_label.contains('\n') {
        let i = choose|i: int| 0 <= i < type_label.len() && type_label[i] == '\n';
        assert(crate::text::is_ws(type_label[i]));
    }
    assert(!sp.contains('\n'));
    crate::scan::lemma_lacks_concat(sp, value, '\n');
    crate::scan::lemma_lacks_concat(sp + value, sp, '\n');
    crate::scan::lemma_lacks_concat(sp + value + sp, type_label, '\n');
    crate::scan::lemma_lacks_concat(sp + value + sp + type_label, sp, '\n');
    crate::scan::lemma_lacks_concat(sp + value + sp + type_label + sp, d, '\n');
    assert(!Seq::<char>::empty().contains('\n'));
    assert forall|i: int| 0 <= i < ls.len() implies !(#[trigger] ls[i]).contains('\n') by {
        if i == 0 {} else if i == 1 {} else if i == 2 {} else {}
    }
    crate::scan::lemma_lines_of_crlf_text(ls);
    assert forall|i: int| 0 <= i < sp.len() implies crate::text::is_ws(#[trigger] sp[i]) by {}
    // The indented line, without its indentation, is the name, type and data.
    assert(l =~= sp + r);
    assert(r[0] == 'P');
    crate::text::lemma_trim_start_after(sp, r);
    // Trimmed, it still starts with the name.
    let x0 = value + sp + type_label;
    let y = sp + d;
    assert(r =~= x0 + y);
    assert(x0.last() == type_label.last());
    assert(!crate::text::is_ws(type_label[type_label.len() - 1]));
    crate::text::lemma_trim_end_concat(x0, y);
    assert(trim(l) == x0 + crate::text::trim_end(y));
    assert(x0 + crate::text::trim_end(y) =~= value + (sp + type_label + crate::text::trim_end(y)));
    crate::scan::lemma_starts_with_concat(value, sp + type_label + crate::text::trim_end(y));
    // The data: after the name, the whitespace, the type and the four spaces.
    assert(r.skip(value.len() as int) =~= sp + (type_label + y));
    assert((type_label + y)[0] == type_label[0]);
    crate::text::lemma_trim_start_after(sp, type_label + y);
    crate::scan::lemma_word_len_concat(type_label, y);
    assert(y[0] == ' ');
    assert(crate::text::is_ws(' '));
    assert(word_len(y) == 0);
    assert((type_label + y).skip(type_label.len() as int) =~= y);
    crate::scan::lemma_starts_with_concat(sp, d);
    assert(y.skip(4) =~= d);
    assert(reg_line_data(r, value) == d);
    // The key line does not name the value.
    crate::text::lemma_trim_fixed(reg_key_header());
    crate::scan::lemma_not_starts_with(reg_key_header(), value);
    reveal_with_fuel(reg_value_from_lines, 4);
    assert(ls.drop_first() =~= seq![reg_key_header(), l, Seq::<char>::empty()]);
    assert(ls.drop_first().drop_first() =~= seq![l, Seq::<char>::empty()]);
    assert(trim(Seq::<char>::empty()).len() == 0);
}

/// A record read from what `reg query` prints for the key describes the key.
pub proof fn lemma_win_record_describes(reg: Map<Seq<char>, Seq<char>>, w: WinProxyRecord)
    requires
        reg_reportable(reg),
        is_win_record(w,
            reg_query_value(Some(enable_query_output(reg)), "ProxyEnable"@),
            reg_query_value(Some(sz_query_output(reg, "ProxyServer"@)), "ProxyServer"@),
            reg_query_value(Some(sz_query_output(reg, "ProxyOverride"@)), "ProxyOverride"@)),
    ensures
        win_snapshot_of(reg, w),
{
    lemma_reg_literals();
    let flag = reg["ProxyEnable"@];
    let shown = "0x"@ + flag;
    if shown.contains('\n') {
        let i = choose|i: int| 0 <= i < shown.len() && shown[i] == '\n';
        assert(shown[i] == '0' || shown[i] == 'x' || shown[i] == '1');
    }
    lemma_reg_output_reads_back("ProxyEnable"@, reg_type_name(RegType::Dword), shown);
    assert(w.proxy_enable@ == shown);
    if flag == "1"@ {
        assert(shown[2] == '1');
        assert(shown.contains('1'));
    } else {
        if shown.contains('1') {
            let i = choose|i: int| 0 <= i < shown.len() && shown[i] == '1';
            assert(shown[i] == '0' || shown[i] == 'x');
        }
    }
    assert(reg["ProxyEnable"@] == enable_flag(w.proxy_enable@));
    assert(lines(Seq::<char>::empty()) == Seq::<Seq<char>>::empty());
    if reg.dom().contains("ProxyServer"@) {
        lemma_reg_output_reads_back("ProxyServer"@, reg_type_name(RegType::Sz), reg["ProxyServer"@]);
    }
    if reg.dom().contains("ProxyOverride"@) {
        lemma_reg_output_reads_back("ProxyOverride"@, reg_type_name(RegType::Sz), reg["ProxyOverride"@]);
    }
}

} // verus!
