use chatgpt_shell::paths::{bundled_singbox_names, choose_singbox, system_singbox_candidates, takeover_record_location};
use chatgpt_shell::takeover::Platform;

#[test]
fn record_location_on_windows() {
    let loc = takeover_record_location(Platform::Windows, Some(r"C:\Users\u\AppData\Roaming".into()));
    assert_eq!(loc.base, r"C:\Users\u\AppData\Roaming");
    assert_eq!(loc.subdir.as_deref(), Some("com.xiaziteam.chatgpt-shell"));
    assert_eq!(loc.file_name, "proxy_takeover.json");
    assert_eq!(takeover_record_location(Platform::Windows, None).base, ".");
}

#[test]
fn record_location_on_unix_expands_the_home() {
    let loc = takeover_record_location(Platform::Linux, None);
    assert!(loc.subdir.is_none());
    assert!(loc.base.ends_with("/.config/com.xiaziteam.chatgpt-shell"));
    let mac = takeover_record_location(Platform::MacOs, None);
    assert!(mac.base.ends_with("/Library/Application Support/com.xiaziteam.chatgpt-shell"));
}

#[test]
fn singbox_candidates() {
    assert_eq!(bundled_singbox_names(Platform::Windows), vec!["sing-box.exe", "singbox.exe"]);
    assert_eq!(bundled_singbox_names(Platform::Linux), vec!["sing-box"]);
    assert_eq!(
        system_singbox_candidates(Platform::MacOs),
        vec!["/usr/local/bin/sing-box", "$HOME/bin/sing-box", "$HOME/.local/bin/sing-box"]
    );
    assert!(system_singbox_candidates(Platform::Windows).is_empty());
}

#[test]
fn singbox_choice() {
    let bundled = vec![("/app/sing-box.exe".to_string(), false), ("/app/singbox.exe".to_string(), true)];
    assert_eq!(choose_singbox(Platform::Windows, &bundled, &vec![]), Some("/app/singbox.exe".to_string()));
    let none = vec![("/app/sing-box.exe".to_string(), false)];
    assert_eq!(choose_singbox(Platform::Windows, &none, &vec![]), Some("sing-box.exe".to_string()));
    let installed = vec![("/usr/local/bin/sing-box".to_string(), false), ("$HOME/bin/sing-box".to_string(), true)];
    assert_eq!(choose_singbox(Platform::Linux, &vec![], &installed), Some("$HOME/bin/sing-box".to_string()));
    assert_eq!(choose_singbox(Platform::MacOs, &vec![], &vec![]), None);
}
