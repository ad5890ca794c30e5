use chatgpt_shell::records::WinProxyRecord;
use chatgpt_shell::windows::{
    fallback_cleanup_win, parse_reg_query, reg_query_command, restore_win_proxy,
    apply_takeover_win, snapshot_win_proxy, WinAction,
};

const KEY: &str = r"HKCU\Software\Microsoft\Windows\CurrentVersion\Internet Settings";

fn argv(a: &WinAction) -> (String, Vec<String>) {
    let c = a.to_command();
    (c.program, c.args)
}

fn query_output(name: &str, ty: &str, data: &str) -> String {
    format!("\r\n{}\r\n    {}    {}    {}\r\n\r\n", KEY, name, ty, data)
}

#[test]
fn reads_a_value_from_reg_query_output() {
    let out = Some(query_output("ProxyServer", "REG_SZ", "socks=127.0.0.1:1083"));
    assert_eq!(parse_reg_query(&out, "ProxyServer"), Some("socks=127.0.0.1:1083".to_string()));
    let enable = Some(query_output("ProxyEnable", "REG_DWORD", "0x1"));
    assert_eq!(parse_reg_query(&enable, "ProxyEnable"), Some("0x1".to_string()));
    assert_eq!(parse_reg_query(&Some("ERROR: not found\r\n".to_string()), "ProxyServer"), None);
    assert_eq!(parse_reg_query(&None, "ProxyServer"), None);
}

#[test]
fn snapshot_defaults() {
    let r = snapshot_win_proxy(&None, &None, &None);
    assert_eq!(r.proxy_enable, "0x0");
    assert_eq!(r.proxy_server, "");
    assert_eq!(r.proxy_override, "");
    let r2 = snapshot_win_proxy(
        &Some(query_output("ProxyEnable", "REG_DWORD", "0x1")),
        &Some(query_output("ProxyServer", "REG_SZ", "corp:8080")),
        &Some(query_output("ProxyOverride", "REG_SZ", "<local>")),
    );
    assert_eq!((r2.proxy_enable.as_str(), r2.proxy_server.as_str(), r2.proxy_override.as_str()), ("0x1", "corp:8080", "<local>"));
}

#[test]
fn query_command() {
    let c = reg_query_command("ProxyEnable");
    assert_eq!(c.program, "reg");
    assert_eq!(c.args, vec!["query", KEY, "/v", "ProxyEnable"]);
}

#[test]
fn restore_sets_or_deletes_each_value() {
    let r = WinProxyRecord { proxy_enable: "0x1".into(), proxy_server: "corp:8080".into(), proxy_override: String::new() };
    let cmds: Vec<(String, Vec<String>)> = restore_win_proxy(&r).iter().map(argv).collect();
    assert_eq!(cmds[0].1, vec!["add", KEY, "/v", "ProxyEnable", "/t", "REG_DWORD", "/d", "1", "/f"]);
    assert_eq!(cmds[1].1, vec!["add", KEY, "/v", "ProxyServer", "/t", "REG_SZ", "/d", "corp:8080", "/f"]);
    assert_eq!(cmds[2].1, vec!["delete", KEY, "/v", "ProxyOverride", "/f"]);
    assert_eq!(cmds[3].0, "powershell");
    assert_eq!(cmds[3].1[..5].to_vec(), vec!["-NoProfile", "-NonInteractive", "-ExecutionPolicy", "Bypass", "-Command"]);
    let off = WinProxyRecord { proxy_enable: "0x0".into(), proxy_server: String::new(), proxy_override: String::new() };
    let cmds: Vec<(String, Vec<String>)> = restore_win_proxy(&off).iter().map(argv).collect();
    assert_eq!(cmds[0].1[7], "0");
    assert_eq!(cmds[1].1, vec!["delete", KEY, "/v", "ProxyServer", "/f"]);
}

#[test]
fn takeover_points_at_the_socks_port() {
    let cmds: Vec<(String, Vec<String>)> = apply_takeover_win(1083).iter().map(argv).collect();
    assert_eq!(cmds[0].1[7], "1");
    assert_eq!(cmds[1].1, vec!["add", KEY, "/v", "ProxyServer", "/t", "REG_SZ", "/d", "socks=127.0.0.1:1083", "/f"]);
    assert_eq!(cmds[2].1, vec!["add", KEY, "/v", "ProxyOverride", "/t", "REG_SZ", "/d", "<local>", "/f"]);
    assert_eq!(cmds.len(), 4);
}

#[test]
fn cleanup_only_when_the_server_is_ours() {
    let ours = fallback_cleanup_win(&Some("socks=127.0.0.1:1083".to_string()));
    assert_eq!(ours.len(), 2);
    assert_eq!(argv(&ours[0]).1, vec!["add", KEY, "/v", "ProxyEnable", "/t", "REG_DWORD", "/d", "0", "/f"]);
    assert!(fallback_cleanup_win(&Some("127.0.0.1:7890".to_string())).is_empty());
    assert!(fallback_cleanup_win(&None).is_empty());
}

#[test]
fn release_puts_back_what_reg_query_reported() {
    let full = r"HKEY_CURRENT_USER\Software\Microsoft\Windows\CurrentVersion\Internet Settings";
    let shown = |name: &str, ty: &str, data: &str| format!("\r\n{}\r\n    {}    {}    {}\r\n\r\n", full, name, ty, data);
    let r = snapshot_win_proxy(
        &Some(shown("ProxyEnable", "REG_DWORD", "0x1")),
        &Some(shown("ProxyServer", "REG_SZ", "corp:3128")),
        &Some(String::new()),
    );
    let cmds: Vec<(String, Vec<String>)> = restore_win_proxy(&r).iter().map(argv).collect();
    assert_eq!(cmds[0].1, vec!["add", KEY, "/v", "ProxyEnable", "/t", "REG_DWORD", "/d", "1", "/f"]);
    assert_eq!(cmds[1].1, vec!["add", KEY, "/v", "ProxyServer", "/t", "REG_SZ", "/d", "corp:3128", "/f"]);
    assert_eq!(cmds[2].1, vec!["delete", KEY, "/v", "ProxyOverride", "/f"]);
}

#[test]
fn reads_data_with_spaces_and_empty_data() {
    let spaced = Some(query_output("ProxyOverride", "REG_SZ", "*.corp; <local>"));
    assert_eq!(parse_reg_query(&spaced, "ProxyOverride"), Some("*.corp; <local>".to_string()));
    let empty = Some(query_output("ProxyServer", "REG_SZ", ""));
    assert_eq!(parse_reg_query(&empty, "ProxyServer"), Some(String::new()));
}

#[test]
fn cleanup_looks_at_the_last_word_of_the_server() {
    assert!(fallback_cleanup_win(&Some("127.0.0.1:8080 localhost:1083".to_string())).is_empty());
    assert_eq!(fallback_cleanup_win(&Some("http=corp:80 socks=127.0.0.1:1083".to_string())).len(), 2);
}
