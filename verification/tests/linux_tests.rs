use chatgpt_shell::linux::{
    fallback_cleanup_linux, gsettings_get_command, snapshot_linux_proxy, mode_output_is_manual,
    restore_linux_proxy, apply_takeover_linux, GSet,
};
use chatgpt_shell::records::LinuxProxyRecord;

fn argv(a: &GSet) -> Vec<String> {
    let c = a.to_command();
    assert_eq!(c.program, "gsettings");
    c.args
}

#[test]
fn snapshot_trims_the_outputs() {
    let r = snapshot_linux_proxy(&Some("'manual'\n".into()), &Some("'127.0.0.1'\n".into()), &None);
    assert_eq!(r.mode, "'manual'");
    assert_eq!(r.socks_host, "'127.0.0.1'");
    assert_eq!(r.socks_port, "");
    assert_eq!(gsettings_get_command("org.gnome.system.proxy", "mode").args, vec!["get", "org.gnome.system.proxy", "mode"]);
}

#[test]
fn restore_sets_what_was_recorded() {
    let r = LinuxProxyRecord { mode: "'auto'".into(), socks_host: "'h'".into(), socks_port: "1080".into() };
    let cmds: Vec<Vec<String>> = restore_linux_proxy(&r).iter().map(argv).collect();
    assert_eq!(
        cmds,
        vec![
            vec!["set", "org.gnome.system.proxy", "mode", "'auto'"],
            vec!["set", "org.gnome.system.proxy.socks", "host", "'h'"],
            vec!["set", "org.gnome.system.proxy.socks", "port", "1080"],
        ]
    );
    let empty = LinuxProxyRecord { mode: String::new(), socks_host: String::new(), socks_port: String::new() };
    let cmds: Vec<Vec<String>> = restore_linux_proxy(&empty).iter().map(argv).collect();
    assert_eq!(cmds, vec![vec!["set", "org.gnome.system.proxy", "mode", "'none'"]]);
}

#[test]
fn takeover_sets_manual_socks() {
    let cmds: Vec<Vec<String>> = apply_takeover_linux(1083).iter().map(argv).collect();
    assert_eq!(
        cmds,
        vec![
            vec!["set", "org.gnome.system.proxy", "mode", "manual"],
            vec!["set", "org.gnome.system.proxy.socks", "host", "127.0.0.1"],
            vec!["set", "org.gnome.system.proxy.socks", "port", "1083"],
        ]
    );
}

#[test]
fn cleanup_needs_manual_mode_and_a_local_host() {
    assert!(mode_output_is_manual(&"'manual'\n".to_string()));
    assert!(!mode_output_is_manual(&"'none'\n".to_string()));
    let hit = fallback_cleanup_linux(&Some("'manual'\n".into()), &Some("'127.0.0.1'\n".into()));
    assert_eq!(hit.iter().map(argv).collect::<Vec<_>>(), vec![vec!["set", "org.gnome.system.proxy", "mode", "none"]]);
    assert!(fallback_cleanup_linux(&Some("'manual'\n".into()), &Some("'10.0.0.1'\n".into())).is_empty());
    assert!(fallback_cleanup_linux(&Some("'auto'\n".into()), &Some("'127.0.0.1'\n".into())).is_empty());
    assert!(fallback_cleanup_linux(&None, &None).is_empty());
}
