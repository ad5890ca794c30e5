//! Activation: asking the user for a code through the platform's dialog, reading the
//! answer, and reporting failures in a dialog, with the text escaped for each dialog.
use vstd::prelude::*;
use crate::command::{SystemCommand, command, owned, strings_view};
use crate::text::{chars_of, string_of, trim, trim_vec, trim_char, trim_char_start, trim_char_end, slice_chars};
use crate::scan::{find_from, find_from_exec, contains, lines, split_lines, views, lemma_find_from};
use crate::windows::powershell_command;
use crate::takeover::Platform;
use vstd::string::StringSliceAdditionalSpecFns;

verus! {

// ---------------------------------------------------------------------------
// Escaping
// ---------------------------------------------------------------------------

/// `s` with every `c` replaced by `r` (`str::replace` with a char).
pub open spec fn replace_char(s: Seq<char>, c: char, r: Seq<char>) -> Seq<char>
    decreases s.len(),
{
    if s.len() == 0 {
        Seq::empty()
    } else {
        replace_char(s.drop_last(), c, r) + if s.last() == c { r } else { seq![s.last()] }
    }
}

/// `str::replace` with a char pattern.
pub fn replace_char_exec(s: &Vec<char>, c: char, r: &Vec<char>) -> (res: Vec<char>)
    ensures
        res@ == replace_char(s@, c, r@),
{
    let mut res: Vec<char> = Vec::new();
    let mut i: usize = 0;
    while i < s.len()
        invariant
            i <= s.len(),
            res@ == replace_char(s@.take(i as int), c, r@),
        decreases s.len() - i,
    {
        let ghost before = res@;
        proof {
            assert(s@.take(i + 1).drop_last() =~= s@.take(i as int));
            assert(s@.take(i + 1).last() == s@[i as int]);
        }
        if s[i] == c {
            let mut k: usize = 0;
            while k < r.len()
                invariant
                    k <= r.len(),
                    res@ == before + r@.take(k as int),
                decreases r.len() - k,
            {
                res.push(r[k]);
                assert(r@.take(k + 1) =~= r@.take(k as int).push(r@[k as int]));
                k = k + 1;
            }
            assert(r@.take(r.len() as int) =~= r@);
        } else {
            res.push(s[i]);
            assert(res@ =~= before + seq![s@[i as int]]);
        }
        i = i + 1;
    }
    assert(s@.take(s.len() as int) =~= s@);
    res
}

/// The text for a double-quoted AppleScript string: backslashes doubled, then double
/// quotes escaped.
pub open spec fn applescript_escape_of(s: Seq<char>) -> Seq<char> {
    replace_char(replace_char(s, '\\', seq!['\\', '\\']), '"', seq!['\\', '"'])
}

/// Escapes `s` for a double-quoted AppleScript string.
pub fn applescript_escape(s: &str) -> (res: String)
    ensures
        res@ == applescript_escape_of(s@),
{
    let backslashes = vec!['\\', '\\'];
    let quote = vec!['\\', '"'];
    assert(backslashes@ =~= seq!['\\', '\\']);
    assert(quote@ =~= seq!['\\', '"']);
    let once = replace_char_exec(&chars_of(s), '\\', &backslashes);
    let twice = replace_char_exec(&once, '"', &quote);
    string_of(&twice)
}

/// The text for a single-quoted PowerShell string: single quotes doubled.
pub open spec fn ps_escape_of(s: Seq<char>) -> Seq<char> {
    replace_char(s, '\'', seq!['\'', '\''])
}

/// Escapes `s` for a single-quoted PowerShell string.
pub fn ps_escape(s: &str) -> (res: String)
    ensures
        res@ == ps_escape_of(s@),
{
    let quotes = vec!['\'', '\''];
    assert(quotes@ =~= seq!['\'', '\'']);
    string_of(&replace_char_exec(&chars_of(s), '\'', &quotes))
}

/// The error text as a zenity dialog shows it: double quotes turned into single quotes.
pub open spec fn zenity_safe_of(s: Seq<char>) -> Seq<char> {
    replace_char(s, '"', seq!['\''])
}

/// Turns the double quotes of `s` into single quotes.
pub fn zenity_safe(s: &str) -> (res: String)
    ensures
        res@ == zenity_safe_of(s@),
{
    let quote = vec!['\''];
    assert(quote@ =~= seq!['\'']);
    string_of(&replace_char_exec(&chars_of(s), '"', &quote))
}

} // verus!

verus! {

// ---------------------------------------------------------------------------
// Reading the macOS dialog's answer
// ---------------------------------------------------------------------------

/// The marker before the entered text in `osascript` output.
pub open spec fn text_returned() -> Seq<char> {
    "text returned:"@
}

/// The second part of `line` split at the marker (`line.split(marker).nth(1)`): what
/// lies between the first marker and the next one, or the end of the line.
pub open spec fn after_marker(line: Seq<char>) -> Seq<char> {
    let p = text_returned();
    let start = find_from(line, p, 0) + p.len();
    let next = find_from(line, p, start);
    line.subrange(start, if next < 0 { line.len() as int } else { next })
}

/// The entered text: from the first line that holds the marker, the part after it,
/// trimmed of whitespace and then of commas.
pub open spec fn dialog_text_from_lines(ls: Seq<Seq<char>>) -> Option<Seq<char>>
    decreases ls.len(),
{
    if ls.len() == 0 {
        None
    } else if contains(ls[0], text_returned()) {
        Some(trim_char(trim(after_marker(ls[0])), ','))
    } else {
        dialog_text_from_lines(ls.drop_first())
    }
}

fn trim_commas(v: &Vec<char>) -> (res: Vec<char>)
    ensures
        res@ == trim_char(v@, ','),
{
    let mut a: usize = 0;
    proof {
        assert(v@.skip(0) =~= v@);
    }
    while a < v.len() && v[a] == ','
        invariant
            a <= v.len(),
            trim_char_start(v@, ',') == trim_char_start(v@.skip(a as int), ','),
        decreases v.len() - a,
    {
        assert(v@.skip(a as int).drop_first() =~= v@.skip(a + 1));
        a = a + 1;
    }
    let ghost t = v@.skip(a as int);
    assert(trim_char_start(t, ',') == t);
    let mut b: usize = v.len();
    proof {
        assert(t.take(t.len() as int) =~= t);
    }
    while b > a && v[b - 1] == ','
        invariant
            a <= b <= v.len(),
            t == v@.skip(a as int),
            trim_char_end(t, ',') == trim_char_end(t.take(b - a), ','),
        decreases b,
    {
        proof {
            let u = t.take(b - a);
            assert(u.drop_last() =~= t.take(b - a - 1));
            assert(u.last() == v@[b - 1]);
        }
        b = b - 1;
    }
    proof {
        let u = t.take(b - a);
        if u.len() > 0 {
            assert(u.last() == v@[b - 1]);
        }
        assert(u =~= v@.subrange(a as int, b as int));
    }
    slice_chars(v, a, b)
}

/// The code entered in the macOS activation dialog, from `osascript` output.
pub fn parse_dialog_text(output: &str) -> (res: Option<String>)
    ensures
        match res {
            Some(s) => dialog_text_from_lines(lines(output@)) == Some(s@),
            None => dialog_text_from_lines(lines(output@)) is None,
        },
{
    let ls = split_lines(&chars_of(output));
    let marker = chars_of("text returned:");
    proof {
        reveal_strlit("text returned:");
        assert(lines(output@).skip(0) =~= lines(output@));
    }
    let mut i: usize = 0;
    while i < ls.len()
        invariant
            i <= ls.len(),
            views(ls@) == lines(output@),
            marker@ == text_returned(),
            marker@.len() == 14,
            dialog_text_from_lines(lines(output@)) == dialog_text_from_lines(lines(output@).skip(i as int)),
        decreases ls.len() - i,
    {
        let ghost rest = lines(output@).skip(i as int);
        assert(rest[0] == ls@[i as int]@);
        let line = &ls[i];
        match find_from_exec(line, &marker, 0) {
            Some(p) => {
                proof {
                    lemma_find_from(line@, marker@, 0);
                    assert(crate::scan::occurs_at(line@, marker@, p as int));
                    assert(p + marker@.len() <= line@.len());
                    assert(marker@.len() == marker.len());
                    assert(line@.len() == line.len());
                }
                let start = p + marker.len();
                let end = match find_from_exec(line, &marker, start) {
                    Some(e) => {
                        proof {
                            lemma_find_from(line@, marker@, start as int);
                        }
                        e
                    },
                    None => line.len(),
                };
                let part = slice_chars(line, start, end);
                let code = trim_commas(&trim_vec(&part));
                return Some(string_of(&code));
            },
            None => {},
        }
        assert(rest.drop_first() =~= lines(output@).skip(i + 1));
        i = i + 1;
    }
    None
}

// ---------------------------------------------------------------------------
// From the dialog's outcome to the code
// ---------------------------------------------------------------------------

/// The message when the user dismissed the dialog.
pub open spec fn cancelled() -> Seq<char> {
    "用户取消"@
}

/// The message when the code is empty.
pub open spec fn empty_code() -> Seq<char> {
    "激活码不能为空"@
}

/// The view of a result of strings.
pub open spec fn result_view(r: Result<String, String>) -> Result<Seq<char>, Seq<char>> {
    match r {
        Ok(s) => Ok(s@),
        Err(e) => Err(e@),
    }
}

/// The code from the macOS dialog: a dismissed dialog is a cancel, an answer without
/// the marker cannot be read, and an empty code is refused.
pub open spec fn mac_code_of(success: bool, stdout: Seq<char>) -> Result<Seq<char>, Seq<char>> {
    if !success {
        Err(cancelled())
    } else {
        match dialog_text_from_lines(lines(stdout)) {
            None => Err("无法解析激活码"@),
            Some(c) => if c.len() == 0 { Err(empty_code()) } else { Ok(c) },
        }
    }
}

/// The code from the Windows input box: a dismissed box and an empty answer are a
/// cancel; otherwise the answer trimmed.
pub open spec fn win_code_of(success: bool, stdout: Seq<char>) -> Result<Seq<char>, Seq<char>> {
    if success && trim(stdout).len() > 0 { Ok(trim(stdout)) } else { Err(cancelled()) }
}

/// The code from the zenity entry: a dismissed entry is a cancel, an empty answer is
/// refused, otherwise the answer trimmed.
pub open spec fn zenity_code_of(success: bool, stdout: Seq<char>) -> Result<Seq<char>, Seq<char>> {
    if !success {
        Err(cancelled())
    } else if trim(stdout).len() == 0 {
        Err(empty_code())
    } else {
        Ok(trim(stdout))
    }
}

/// The code from the macOS dialog.
pub fn code_from_mac_dialog(success: bool, stdout: &str) -> (res: Result<String, String>)
    ensures
        result_view(res) == mac_code_of(success, stdout@),
{
    if !success {
        return Err(owned("用户取消"));
    }
    match parse_dialog_text(stdout) {
        None => Err(owned("无法解析激活码")),
        Some(code) => {
            if code.as_str().is_empty() {
                Err(owned("激活码不能为空"))
            } else {
                Ok(code)
            }
        },
    }
}

/// The code from the Windows input box.
pub fn code_from_win_input(success: bool, stdout: &str) -> (res: Result<String, String>)
    ensures
        result_view(res) == win_code_of(success, stdout@),
{
    if !success {
        return Err(owned("用户取消"));
    }
    let code = string_of(&trim_vec(&chars_of(stdout)));
    if code.as_str().is_empty() {
        Err(owned("用户取消"))
    } else {
        Ok(code)
    }
}

/// The code from the zenity entry.
pub fn code_from_zenity(success: bool, stdout: &str) -> (res: Result<String, String>)
    ensures
        result_view(res) == zenity_code_of(success, stdout@),
{
    if !success {
        return Err(owned("用户取消"));
    }
    let code = string_of(&trim_vec(&chars_of(stdout)));
    if code.as_str().is_empty() {
        Err(owned("激活码不能为空"))
    } else {
        Ok(code)
    }
}

/// How the activation dialog ended: it could not be run (with the reason), or it closed
/// with a success flag and what it printed.
#[derive(Debug, Clone)]
pub enum DialogOutcome {
    Failed(String),
    Closed { success: bool, stdout: String },
}

/// The code the user entered, or why there is none: a dialog that could not run is
/// reported (on Windows it counts as a cancel), otherwise the platform's reading applies.
pub open spec fn prompt_result(platform: Platform, outcome: DialogOutcome) -> Result<Seq<char>, Seq<char>> {
    match outcome {
        DialogOutcome::Failed(e) => match platform {
            Platform::MacOs => Err("执行激活弹窗失败: "@ + e@),
            Platform::Windows => Err(cancelled()),
            Platform::Linux => Err("执行zenity弹窗失败(请安装zenity): "@ + e@),
        },
        DialogOutcome::Closed { success, stdout } => match platform {
            Platform::MacOs => mac_code_of(success, stdout@),
            Platform::Windows => win_code_of(success, stdout@),
            Platform::Linux => zenity_code_of(success, stdout@),
        },
    }
}

/// The activation code from the outcome of the platform's activation dialog.
pub fn prompt_activation(platform: Platform, outcome: DialogOutcome) -> (res: Result<String, String>)
    ensures
        result_view(res) == prompt_result(platform, outcome),
{
    match outcome {
        DialogOutcome::Failed(e) => match platform {
            Platform::MacOs => {
                let mut m = owned("执行激活弹窗失败: ");
                m.append(e.as_str());
                Err(m)
            },
            Platform::Windows => Err(owned("用户取消")),
            Platform::Linux => {
                let mut m = owned("执行zenity弹窗失败(请安装zenity): ");
                m.append(e.as_str());
                Err(m)
            },
        },
        DialogOutcome::Closed { success, stdout } => match platform {
            Platform::MacOs => code_from_mac_dialog(success, stdout.as_str()),
            Platform::Windows => code_from_win_input(success, stdout.as_str()),
            Platform::Linux => code_from_zenity(success, stdout.as_str()),
        },
    }
}

// ---------------------------------------------------------------------------
// The dialogs
// ---------------------------------------------------------------------------

/// The AppleScript of the activation dialog.
pub open spec fn mac_prompt_script() -> Seq<char> {
    "display dialog \"ChatGPT虾壳 — 请输入激活码\" default answer \"\" with title \"ChatGPT虾壳\" buttons {\"取消\", \"激活\"} default button 2 with icon note"@
}

/// `osascript -e <script>`.
pub fn osascript_command(script: String) -> (c: SystemCommand)
    ensures
        c.is("osascript"@, seq!["-e"@, script@]),
{
    let mut args: Vec<String> = Vec::new();
    args.push(owned("-e"));
    args.push(script);
    let c = command("osascript", args);
    assert(strings_view(c.args@) =~= seq!["-e"@, c.args@[1]@]);
    c
}

/// The macOS activation dialog.
pub fn mac_prompt_command() -> (c: SystemCommand)
    ensures
        c.is("osascript"@, seq!["-e"@, mac_prompt_script()]),
{
    osascript_command(owned("display dialog \"ChatGPT虾壳 — 请输入激活码\" default answer \"\" with title \"ChatGPT虾壳\" buttons {\"取消\", \"激活\"} default button 2 with icon note"))
}

/// The macOS notification shown while the code is checked.
pub fn mac_checking_notification() -> (c: SystemCommand)
    ensures
        c.is("osascript"@, seq!["-e"@, "display notification \"正在连接激活服务器…\" with title \"ChatGPT虾壳\""@]),
{
    osascript_command(owned("display notification \"正在连接激活服务器…\" with title \"ChatGPT虾壳\""))
}

/// A macOS error dialog: `prefix` and the escaped `detail` in a stop dialog with one button.
pub open spec fn mac_error_script(prefix: Seq<char>, detail: Seq<char>) -> Seq<char> {
    "display dialog \""@ + prefix + applescript_escape_of(detail)
        + "\" buttons {\"确定\"} with title \"ChatGPT虾壳\" with icon stop"@
}

/// A macOS error dialog showing `prefix` followed by `detail`.
pub fn mac_error_command(prefix: &str, detail: &str) -> (c: SystemCommand)
    ensures
        c.is("osascript"@, seq!["-e"@, mac_error_script(prefix@, detail@)]),
{
    let mut script = owned("display dialog \"");
    script.append(prefix);
    let safe = applescript_escape(detail);
    script.append(safe.as_str());
    script.append("\" buttons {\"确定\"} with title \"ChatGPT虾壳\" with icon stop");
    osascript_command(script)
}

/// The PowerShell script of the Windows input box.
pub open spec fn win_input_script(prompt: Seq<char>, title: Seq<char>) -> Seq<char> {
    "Add-Type -AssemblyName Microsoft.VisualBasic; [Microsoft.VisualBasic.Interaction]::InputBox('"@
        + ps_escape_of(prompt) + "','"@ + ps_escape_of(title) + "','')"@
}

/// The Windows input box asking for the code.
pub fn win_input_command(prompt: &str, title: &str) -> (c: SystemCommand)
    ensures
        c.is("powershell"@, seq![
            "-NoProfile"@, "-NonInteractive"@, "-ExecutionPolicy"@, "Bypass"@, "-Command"@,
            win_input_script(prompt@, title@),
        ]),
{
    let mut script = owned("Add-Type -AssemblyName Microsoft.VisualBasic; [Microsoft.VisualBasic.Interaction]::InputBox('");
    script.append(ps_escape(prompt).as_str());
    script.append("','");
    script.append(ps_escape(title).as_str());
    script.append("','')");
    powershell_command(script)
}

/// The PowerShell script of a Windows error message box.
pub open spec fn win_msgbox_script(text: Seq<char>, title: Seq<char>) -> Seq<char> {
    "Add-Type -AssemblyName System.Windows.Forms; [System.Windows.Forms.MessageBox]::Show('"@
        + ps_escape_of(text) + "','"@ + ps_escape_of(title) + "','OK','Error') | Out-Null"@
}

/// A Windows error message box.
pub fn win_msgbox(text: &str, title: &str) -> (c: SystemCommand)
    ensures
        c.is("powershell"@, seq![
            "-NoProfile"@, "-NonInteractive"@, "-ExecutionPolicy"@, "Bypass"@, "-Command"@,
            win_msgbox_script(text@, title@),
        ]),
{
    let mut script = owned("Add-Type -AssemblyName System.Windows.Forms; [System.Windows.Forms.MessageBox]::Show('");
    script.append(ps_escape(text).as_str());
    script.append("','");
    script.append(ps_escape(title).as_str());
    script.append("','OK','Error') | Out-Null");
    powershell_command(script)
}

/// The zenity entry asking for the code.
pub fn zenity_prompt_command() -> (c: SystemCommand)
    ensures
        c.is("zenity"@, seq!["--entry"@, "--title=ChatGPT虾壳"@, "--text=请输入激活码"@, "--hide-text"@, "--width=400"@]),
{
    let mut args: Vec<String> = Vec::new();
    args.push(owned("--entry"));
    args.push(owned("--title=ChatGPT虾壳"));
    args.push(owned("--text=请输入激活码"));
    args.push(owned("--hide-text"));
    args.push(owned("--width=400"));
    let c = command("zenity", args);
    assert(strings_view(c.args@) =~= seq!["--entry"@, "--title=ChatGPT虾壳"@, "--text=请输入激活码"@, "--hide-text"@, "--width=400"@]);
    c
}

/// A zenity error dialog showing `text`.
pub fn zenity_error_command(text: &str) -> (c: SystemCommand)
    ensures
        c.is("zenity"@, seq!["--error"@, "--text="@ + text@, "--title=ChatGPT虾壳"@, "--width=400"@]),
{
    let mut t = owned("--text=");
    t.append(text);
    let mut args: Vec<String> = Vec::new();
    args.push(owned("--error"));
    args.push(t);
    args.push(owned("--title=ChatGPT虾壳"));
    args.push(owned("--width=400"));
    let c = command("zenity", args);
    assert(strings_view(c.args@) =~= seq!["--error"@, "--text="@ + text@, "--title=ChatGPT虾壳"@, "--width=400"@]);
    c
}

} // verus!

verus! {

/// The number of leading bytes of a code that are shown: at most 4.
pub open spec fn preview_len(code: &str) -> int {
    if code.len() < 4 { code.len() as int } else { 4 }
}

/// The first bytes of the code that may be shown (`&code[..4.min(code.len())]`); the cut
/// must fall on a character boundary.
pub fn code_preview(code: &str) -> (r: &str)
    requires
        vstd::utf8::is_char_boundary(code.spec_bytes(), preview_len(code)),
    ensures
        r.spec_bytes() == code.spec_bytes().take(preview_len(code)),
{
    let n: usize = if code.len() < 4 { code.len() } else { 4 };
    let (head, _) = code.split_at(n);
    proof {
        assert(code.spec_bytes().subrange(0, n as int) =~= code.spec_bytes().take(n as int));
    }
    head
}

/// The activation summary shown in the window: the mode and the start of the code.
pub fn activation_summary(mode: &str, code: &str) -> (s: String)
    requires
        vstd::utf8::is_char_boundary(code.spec_bytes(), preview_len(code)),
    ensures
        exists|p: &str| p.spec_bytes() == code.spec_bytes().take(preview_len(code))
            && s@ == mode@ + "模式 · 激活码: "@ + p@ + "..."@,
{
    let mut s = owned(mode);
    s.append("模式 · 激活码: ");
    let p = code_preview(code);
    s.append(p);
    s.append("...");
    s
}

} // verus!

verus! {

/// The activation dialog of the platform.
pub fn activation_prompt_command(platform: Platform) -> (c: SystemCommand)
    ensures
        platform == Platform::MacOs ==> c.is("osascript"@, seq!["-e"@, mac_prompt_script()]),
        platform == Platform::Windows ==> c.is("powershell"@, seq![
            "-NoProfile"@, "-NonInteractive"@, "-ExecutionPolicy"@, "Bypass"@, "-Command"@,
            win_input_script("ChatGPT虾壳 — 请输入激活码"@, "ChatGPT虾壳"@),
        ]),
        platform == Platform::Linux ==> c.is("zenity"@, seq!["--entry"@, "--title=ChatGPT虾壳"@,
            "--text=请输入激活码"@, "--hide-text"@, "--width=400"@]),
{
    match platform {
        Platform::MacOs => mac_prompt_command(),
        Platform::Windows => win_input_command("ChatGPT虾壳 — 请输入激活码", "ChatGPT虾壳"),
        Platform::Linux => zenity_prompt_command(),
    }
}

/// The dialog that reports an error after `prefix`: on macOS an AppleScript stop dialog
/// with the error escaped; on Windows a message box; on Linux a zenity error, with the
/// error's double quotes turned into single quotes where `quote_safe` asks for it.
pub open spec fn is_error_dialog(c: SystemCommand, platform: Platform, prefix: Seq<char>, error: Seq<char>, quote_safe: bool) -> bool {
    match platform {
        Platform::MacOs => c.is("osascript"@, seq!["-e"@, mac_error_script(prefix, error)]),
        Platform::Windows => c.is("powershell"@, seq![
            "-NoProfile"@, "-NonInteractive"@, "-ExecutionPolicy"@, "Bypass"@, "-Command"@,
            win_msgbox_script(prefix + error, "ChatGPT虾壳"@),
        ]),
        Platform::Linux => c.is("zenity"@, seq![
            "--error"@, "--text="@ + prefix + (if quote_safe { zenity_safe_of(error) } else { error }),
            "--title=ChatGPT虾壳"@, "--width=400"@,
        ]),
    }
}

fn error_dialog(platform: Platform, prefix: &str, error: &str, quote_safe: bool) -> (c: SystemCommand)
    ensures
        is_error_dialog(c, platform, prefix@, error@, quote_safe),
{
    match platform {
        Platform::MacOs => mac_error_command(prefix, error),
        Platform::Windows => {
            let mut text = owned(prefix);
            text.append(error);
            win_msgbox(text.as_str(), "ChatGPT虾壳")
        },
        Platform::Linux => {
            let mut text = owned(prefix);
            if quote_safe {
                text.append(zenity_safe(error).as_str());
            } else {
                text.append(error);
            }
            let c = zenity_error_command(text.as_str());
            assert(("--text="@ + prefix@) + (if quote_safe { zenity_safe_of(error@) } else { error@ })
                =~= "--text="@ + (prefix@ + (if quote_safe { zenity_safe_of(error@) } else { error@ })));
            c
        },
    }
}

/// The dialog that reports a failed validation of the code.
pub fn validation_failure_dialog(platform: Platform, error: &str) -> (c: SystemCommand)
    ensures
        is_error_dialog(c, platform, "验证失败："@, error@, true),
{
    error_dialog(platform, "验证失败：", error, true)
}

/// The dialog that reports a tunnel that could not start.
pub fn start_failure_dialog(platform: Platform, error: &str) -> (c: SystemCommand)
    ensures
        is_error_dialog(c, platform, "启动隧道失败："@, error@, false),
{
    error_dialog(platform, "启动隧道失败：", error, false)
}

} // verus!

verus! {

// ---------------------------------------------------------------------------
// What the dialogs read back
// ---------------------------------------------------------------------------

proof fn lemma_replace_char_append(a: Seq<char>, b: Seq<char>, c: char, r: Seq<char>)
    ensures
        replace_char(a + b, c, r) == replace_char(a, c, r) + replace_char(b, c, r),
    decreases b.len(),
{
    if b.len() == 0 {
        assert(a + b =~= a);
        assert(replace_char(a, c, r) + Seq::<char>::empty() =~= replace_char(a, c, r));
    } else {
        assert((a + b).drop_last() =~= a + b.drop_last());
        assert((a + b).last() == b.last());
        lemma_replace_char_append(a, b.drop_last(), c, r);
        let tail = if b.last() == c { r } else { seq![b.last()] };
        assert(replace_char(a, c, r) + replace_char(b.drop_last(), c, r) + tail
            =~= replace_char(a, c, r) + (replace_char(b.drop_last(), c, r) + tail));
    }
}

proof fn lemma_replace_char_first(s: Seq<char>, c: char, r: Seq<char>)
    requires
        s.len() > 0,
    ensures
        replace_char(s, c, r) == (if s[0] == c { r } else { seq![s[0]] }) + replace_char(s.drop_first(), c, r),
{
    assert(s =~= seq![s[0]] + s.drop_first());
    lemma_replace_char_append(seq![s[0]], s.drop_first(), c, r);
    assert(seq![s[0]].drop_last() =~= Seq::<char>::empty());
    assert(replace_char(Seq::<char>::empty(), c, r) == Seq::<char>::empty());
    let tail = if s[0] == c { r } else { seq![s[0]] };
    assert(Seq::<char>::empty() + tail =~= tail);
    assert(replace_char(seq![s[0]], c, r) == replace_char(seq![s[0]].drop_last(), c, r) + tail);
}

/// What AppleScript reads from the body of a double-quoted string: `\"` is a quote, `\\`
/// a backslash, any other character itself; `None` where a quote would end the string
/// early or a backslash is left dangling.
pub open spec fn applescript_read(t: Seq<char>) -> Option<Seq<char>>
    decreases t.len(),
{
    if t.len() == 0 {
        Some(Seq::empty())
    } else if t[0] == '"' {
        None
    } else if t[0] == '\\' {
        if t.len() >= 2 && (t[1] == '"' || t[1] == '\\') {
            match applescript_read(t.skip(2)) {
                Some(rest) => Some(seq![t[1]] + rest),
                None => None,
            }
        } else {
            None
        }
    } else {
        match applescript_read(t.drop_first()) {
            Some(rest) => Some(seq![t[0]] + rest),
            None => None,
        }
    }
}

/// An escaped error message reads back, inside the dialog's double quotes, as exactly
/// the message: no quote ends the string early and every character comes back.
pub proof fn lemma_applescript_escape_reads_back(s: Seq<char>)
    ensures
        applescript_read(applescript_escape_of(s)) == Some(s),
    decreases s.len(),
{
    if s.len() == 0 {
        assert(applescript_escape_of(s) =~= Seq::<char>::empty());
    } else {
        let c = s[0];
        let rest = s.drop_first();
        let bs = seq!['\\', '\\'];
        let q = seq!['\\', '"'];
        lemma_replace_char_first(s, '\\', bs);
        let once_head = if c == '\\' { bs } else { seq![c] };
        let once_rest = replace_char(rest, '\\', bs);
        lemma_replace_char_append(once_head, once_rest, '"', q);
        let head = replace_char(once_head, '"', q);
        if c == '\\' {
            lemma_replace_char_first(once_head, '"', q);
            lemma_replace_char_first(once_head.drop_first(), '"', q);
            assert(once_head.drop_first().drop_first() =~= Seq::<char>::empty());
            assert(head =~= seq!['\\', '\\']);
        } else {
            lemma_replace_char_first(once_head, '"', q);
            assert(once_head.drop_first() =~= Seq::<char>::empty());
            if c == '"' {
                assert(head =~= seq!['\\', '"']);
            } else {
                assert(head =~= seq![c]);
            }
        }
        lemma_applescript_escape_reads_back(rest);
        let t = applescript_escape_of(s);
        assert(t == head + applescript_escape_of(rest));
        if c == '\\' || c == '"' {
            assert(t.skip(2) =~= applescript_escape_of(rest));
        } else {
            assert(t.drop_first() =~= applescript_escape_of(rest));
        }
        assert(seq![c] + rest =~= s);
    }
}

/// A quote that PowerShell accepts as a single quote: `'` and the typographic
/// single quotes.
pub open spec fn is_ps_quote(c: char) -> bool {
    c == '\'' || c == '\u{2018}' || c == '\u{2019}' || c == '\u{201A}' || c == '\u{201B}'
}

/// What PowerShell reads from the body of a single-quoted string: two quotes are one
/// quote, any other character itself; `None` where a lone quote would end the string early.
pub open spec fn ps_read(t: Seq<char>) -> Option<Seq<char>>
    decreases t.len(),
{
    if t.len() == 0 {
        Some(Seq::empty())
    } else if is_ps_quote(t[0]) {
        if t.len() >= 2 && is_ps_quote(t[1]) {
            match ps_read(t.skip(2)) {
                Some(rest) => Some(seq![t[0]] + rest),
                None => None,
            }
        } else {
            None
        }
    } else {
        match ps_read(t.drop_first()) {
            Some(rest) => Some(seq![t[0]] + rest),
            None => None,
        }
    }
}

/// An escaped message reads back, inside the script's single quotes, as exactly the
/// message, when it holds no typographic single quote (those are left as they are, and
/// PowerShell would end the string there).
pub proof fn lemma_ps_escape_reads_back(s: Seq<char>)
    requires
        forall|i: int| 0 <= i < s.len() ==> (#[trigger] is_ps_quote(s[i])) ==> s[i] == '\'',
    ensures
        ps_read(ps_escape_of(s)) == Some(s),
    decreases s.len(),
{
    if s.len() == 0 {
        assert(ps_escape_of(s) =~= Seq::<char>::empty());
    } else {
        let c = s[0];
        let rest = s.drop_first();
        lemma_replace_char_first(s, '\'', seq!['\'', '\'']);
        assert forall|i: int| 0 <= i < rest.len() && #[trigger] is_ps_quote(rest[i]) implies rest[i] == '\'' by {
            assert(rest[i] == s[i + 1]);
        }
        lemma_ps_escape_reads_back(rest);
        let t = ps_escape_of(s);
        assert(is_ps_quote(s[0]) ==> s[0] == '\'');
        if c == '\'' {
            assert(t.skip(2) =~= ps_escape_of(rest));
        } else {
            assert(t.drop_first() =~= ps_escape_of(rest));
        }
        assert(seq![c] + rest =~= s);
    }
}

} // verus!

verus! {

/// The macOS activation dialog asks for text: its script holds `default answer ""`, which
/// gives the dialog a text field whose content comes back after `text returned:`.
pub proof fn lemma_mac_prompt_asks_for_text()
    ensures
        crate::scan::contains(mac_prompt_script(), "default answer \"\""@),
{
    reveal_strlit("display dialog \"ChatGPT虾壳 — 请输入激活码\" default answer \"\" with title \"ChatGPT虾壳\" buttons {\"取消\", \"激活\"} default button 2 with icon note");
    reveal_strlit("display dialog \"ChatGPT虾壳 — 请输入激活码\" ");
    reveal_strlit("default answer \"\"");
    reveal_strlit(" with title \"ChatGPT虾壳\" buttons {\"取消\", \"激活\"} default button 2 with icon note");
    assert(mac_prompt_script() =~= "display dialog \"ChatGPT虾壳 — 请输入激活码\" "@ + "default answer \"\""@
        + " with title \"ChatGPT虾壳\" buttons {\"取消\", \"激活\"} default button 2 with icon note"@);
    crate::scan::lemma_contains_concat("display dialog \"ChatGPT虾壳 — 请输入激活码\" "@, "default answer \"\""@,
        " with title \"ChatGPT虾壳\" buttons {\"取消\", \"激活\"} default button 2 with icon note"@);
}

} // verus!
