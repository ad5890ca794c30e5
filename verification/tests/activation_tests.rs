use chatgpt_shell::activation::{
    activation_prompt_command, activation_summary, applescript_escape, code_from_mac_dialog,
    code_from_win_input, code_from_zenity, code_preview, parse_dialog_text, prompt_activation,
    ps_escape, start_failure_dialog, validation_failure_dialog, zenity_safe, DialogOutcome,
};
use chatgpt_shell::takeover::Platform;

#[test]
fn applescript_escape_doubles_backslashes_then_quotes() {
    assert_eq!(applescript_escape(r#"a\b"c"#), r#"a\\b\"c"#);
    assert_eq!(applescript_escape("plain"), "plain");
    assert_eq!(applescript_escape(""), "");
    assert_eq!(applescript_escape(r#"\""#), r#"\\\""#);
}

#[test]
fn ps_escape_doubles_single_quotes() {
    assert_eq!(ps_escape("it's"), "it''s");
    assert_eq!(ps_escape("''"), "''''");
    assert_eq!(ps_escape("none"), "none");
}

#[test]
fn zenity_safe_turns_double_quotes_into_single() {
    assert_eq!(zenity_safe(r#"say "hi""#), "say 'hi'");
}

#[test]
fn parse_dialog_text_reads_the_entered_code() {
    assert_eq!(
        parse_dialog_text("button returned:激活, text returned:ABCD-1234\n"),
        Some("ABCD-1234".to_string())
    );
    assert_eq!(parse_dialog_text("text returned: abc ,,\n"), Some("abc ".to_string()));
    assert_eq!(parse_dialog_text("text returned: ,abc,\n"), Some("abc".to_string()));
    assert_eq!(parse_dialog_text("first\nbutton returned:OK, text returned:\n"), Some(String::new()));
    assert_eq!(parse_dialog_text("button returned:OK\n"), None);
    assert_eq!(parse_dialog_text(""), None);
}

#[test]
fn parse_dialog_text_stops_at_a_second_marker() {
    assert_eq!(
        parse_dialog_text("text returned:x text returned:y"),
        Some("x".to_string())
    );
}

#[test]
fn mac_dialog_outcomes() {
    assert_eq!(code_from_mac_dialog(false, "text returned:abc"), Err("用户取消".to_string()));
    assert_eq!(code_from_mac_dialog(true, "nothing here"), Err("无法解析激活码".to_string()));
    assert_eq!(code_from_mac_dialog(true, "text returned:"), Err("激活码不能为空".to_string()));
    assert_eq!(code_from_mac_dialog(true, "button returned:激活, text returned:K1"), Ok("K1".to_string()));
}

#[test]
fn windows_input_outcomes() {
    assert_eq!(code_from_win_input(false, "abc"), Err("用户取消".to_string()));
    assert_eq!(code_from_win_input(true, "  \r\n"), Err("用户取消".to_string()));
    assert_eq!(code_from_win_input(true, " code-1 \r\n"), Ok("code-1".to_string()));
}

#[test]
fn zenity_outcomes() {
    assert_eq!(code_from_zenity(false, "abc"), Err("用户取消".to_string()));
    assert_eq!(code_from_zenity(true, "\n"), Err("激活码不能为空".to_string()));
    assert_eq!(code_from_zenity(true, "xyz\n"), Ok("xyz".to_string()));
}

#[test]
fn prompt_activation_reports_a_dialog_that_could_not_run() {
    assert_eq!(
        prompt_activation(Platform::MacOs, DialogOutcome::Failed("no such file".to_string())),
        Err("执行激活弹窗失败: no such file".to_string())
    );
    assert_eq!(
        prompt_activation(Platform::Windows, DialogOutcome::Failed("x".to_string())),
        Err("用户取消".to_string())
    );
    assert_eq!(
        prompt_activation(Platform::Linux, DialogOutcome::Failed("not found".to_string())),
        Err("执行zenity弹窗失败(请安装zenity): not found".to_string())
    );
    assert_eq!(
        prompt_activation(
            Platform::Linux,
            DialogOutcome::Closed { success: true, stdout: "abc\n".to_string() }
        ),
        Ok("abc".to_string())
    );
}

#[test]
fn activation_dialogs() {
    let mac = activation_prompt_command(Platform::MacOs);
    assert_eq!(mac.program, "osascript");
    assert_eq!(mac.args[0], "-e");
    assert!(mac.args[1].starts_with("display dialog \"ChatGPT虾壳 — 请输入激活码\""));
    let win = activation_prompt_command(Platform::Windows);
    assert_eq!(win.program, "powershell");
    assert_eq!(
        win.args[5],
        "Add-Type -AssemblyName Microsoft.VisualBasic; [Microsoft.VisualBasic.Interaction]::InputBox('ChatGPT虾壳 — 请输入激活码','ChatGPT虾壳','')"
    );
    let lin = activation_prompt_command(Platform::Linux);
    assert_eq!(lin.program, "zenity");
    assert_eq!(lin.args, vec!["--entry", "--title=ChatGPT虾壳", "--text=请输入激活码", "--hide-text", "--width=400"]);
}

#[test]
fn failure_dialogs_escape_the_error() {
    let mac = validation_failure_dialog(Platform::MacOs, r#"bad "code""#);
    assert_eq!(
        mac.args[1],
        r#"display dialog "验证失败：bad \"code\"" buttons {"确定"} with title "ChatGPT虾壳" with icon stop"#
    );
    let win = validation_failure_dialog(Platform::Windows, "it's wrong");
    assert_eq!(
        win.args[5],
        "Add-Type -AssemblyName System.Windows.Forms; [System.Windows.Forms.MessageBox]::Show('验证失败：it''s wrong','ChatGPT虾壳','OK','Error') | Out-Null"
    );
    let lin = validation_failure_dialog(Platform::Linux, r#"a "b""#);
    assert_eq!(lin.args, vec!["--error", "--text=验证失败：a 'b'", "--title=ChatGPT虾壳", "--width=400"]);
    let lin2 = start_failure_dialog(Platform::Linux, r#"a "b""#);
    assert_eq!(lin2.args[1], r#"--text=启动隧道失败：a "b""#);
}

#[test]
fn code_preview_shows_at_most_four_bytes() {
    assert_eq!(code_preview("ABCDEFG"), "ABCD");
    assert_eq!(code_preview("AB"), "AB");
    assert_eq!(activation_summary("ChatGPT", "XYZW-123"), "ChatGPT模式 · 激活码: XYZW...");
}
