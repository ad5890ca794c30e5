use chatgpt_shell::macos::{
    fallback_cleanup_mac, daemon_pac_url, get_autoproxy_command, get_socks_command,
    list_services_command, parse_autoproxy_enabled, parse_autoproxy_url, parse_network_services,
    parse_socks_proxy, restore_mac_services, service_record, snapshot_mac_services, apply_takeover_mac, MacAction,
};
use chatgpt_shell::records::MacServiceRecord;

fn argv(a: &MacAction) -> Vec<String> {
    let c = a.to_command();
    assert_eq!(c.program, "networksetup");
    c.args
}

#[test]
fn lists_enabled_services_after_the_heading() {
    let out = "An asterisk (*) denotes that a network service is disabled.\nWi-Fi\n*Bluetooth PAN\n  Thunderbolt Bridge  \n\n";
    assert_eq!(parse_network_services(out), vec!["Wi-Fi", "Thunderbolt Bridge"]);
    assert!(parse_network_services("").is_empty());
    assert!(parse_network_services("heading only").is_empty());
}

#[test]
fn reads_the_pac_settings() {
    let on = "URL: http://127.0.0.1:1/user.pac\nEnabled: Yes\n";
    assert!(parse_autoproxy_enabled(on));
    assert_eq!(parse_autoproxy_url(on), "http://127.0.0.1:1/user.pac");
    let off = "URL: (null)\nEnabled: No\n";
    assert!(!parse_autoproxy_enabled(off));
    assert_eq!(parse_autoproxy_url(off), "");
    assert_eq!(parse_autoproxy_url("Enabled: No\n"), "");
}

#[test]
fn reads_the_socks_settings() {
    let out = "Enabled: Yes\nServer: 127.0.0.1\nPort: 1080\nAuthenticated Proxy Enabled: 0\n";
    assert_eq!(parse_socks_proxy(out), (true, "127.0.0.1".to_string(), 1080));
    assert_eq!(parse_socks_proxy("Enabled: No\nServer: \nPort: 0\n"), (false, String::new(), 0));
    assert_eq!(parse_socks_proxy("Port: +80\n"), (false, String::new(), 80));
    assert_eq!(parse_socks_proxy("Port: 70000\n"), (false, String::new(), 0));
    assert_eq!(parse_socks_proxy("Port: abc\n"), (false, String::new(), 0));
}

#[test]
fn builds_a_service_record_from_the_probes() {
    let r = service_record(
        &"Wi-Fi".to_string(),
        &Some("URL: http://x/p.pac\nEnabled: Yes\n".to_string()),
        &Some("Enabled: Yes\nServer: h\nPort: 9\n".to_string()),
    );
    assert_eq!(r.name, "Wi-Fi");
    assert!(r.auto_enabled);
    assert_eq!(r.auto_url, "http://x/p.pac");
    assert!(r.socks_enabled);
    assert_eq!(r.socks_host, "h");
    assert_eq!(r.socks_port, 9);
    let empty = service_record(&"E".to_string(), &None, &None);
    assert!(!empty.auto_enabled && empty.auto_url.is_empty());
    assert!(!empty.socks_enabled && empty.socks_host.is_empty() && empty.socks_port == 0);
}

#[test]
fn probe_commands() {
    assert_eq!(list_services_command().args, vec!["-listallnetworkservices"]);
    assert_eq!(get_autoproxy_command(&"Wi-Fi".to_string()).args, vec!["-getautoproxyurl", "Wi-Fi"]);
    assert_eq!(get_socks_command(&"Wi-Fi".to_string()).args, vec!["-getsocksfirewallproxy", "Wi-Fi"]);
}

#[test]
fn restore_puts_each_service_back() {
    let recs = vec![
        MacServiceRecord {
            name: "Wi-Fi".into(),
            auto_enabled: true,
            auto_url: "http://127.0.0.1:1/user.pac".into(),
            socks_enabled: false,
            socks_host: String::new(),
            socks_port: 0,
        },
        MacServiceRecord {
            name: "LAN".into(),
            auto_enabled: true,
            auto_url: String::new(),
            socks_enabled: true,
            socks_host: "10.0.0.1".into(),
            socks_port: 1080,
        },
    ];
    let acts = restore_mac_services(&recs);
    let cmds: Vec<Vec<String>> = acts.iter().map(argv).collect();
    assert_eq!(
        cmds,
        vec![
            vec!["-setsocksfirewallproxystate", "Wi-Fi", "off"],
            vec!["-setautoproxyurl", "Wi-Fi", "http://127.0.0.1:1/user.pac"],
            vec!["-setautoproxystate", "Wi-Fi", "on"],
            vec!["-setsocksfirewallproxy", "LAN", "10.0.0.1", "1080"],
            vec!["-setsocksfirewallproxystate", "LAN", "on"],
            vec!["-setautoproxyurl", "LAN", ""],
            vec!["-setautoproxystate", "LAN", "on"],
        ]
    );
}

#[test]
fn takeover_points_every_service_at_the_daemon() {
    assert_eq!(daemon_pac_url(), "http://127.0.0.1:18085/proxy.pac");
    let acts = apply_takeover_mac(&vec!["Wi-Fi".to_string()]);
    let cmds: Vec<Vec<String>> = acts.iter().map(argv).collect();
    assert_eq!(
        cmds,
        vec![
            vec!["-setautoproxyurl", "Wi-Fi", "http://127.0.0.1:18085/proxy.pac"],
            vec!["-setautoproxystate", "Wi-Fi", "on"],
            vec!["-setsocksfirewallproxystate", "Wi-Fi", "off"],
        ]
    );
    assert!(apply_takeover_mac(&vec![]).is_empty());
}

#[test]
fn cleanup_only_touches_our_leftovers() {
    let svc = "Wi-Fi".to_string();
    let ours_pac = Some("URL: http://127.0.0.1:18085/chatgpt-shell.pac\nEnabled: Yes\n".to_string());
    let ours_socks = Some("Enabled: Yes\nServer: 127.0.0.1\nPort: 1083\n".to_string());
    let cmds: Vec<Vec<String>> = fallback_cleanup_mac(&svc, &ours_pac, &ours_socks).iter().map(argv).collect();
    assert_eq!(
        cmds,
        vec![
            vec!["-setautoproxystate", "Wi-Fi", "off"],
            vec!["-setautoproxyurl", "Wi-Fi", ""],
            vec!["-setsocksfirewallproxystate", "Wi-Fi", "off"],
        ]
    );
    let user_pac = Some("URL: http://corp/proxy.pac\nEnabled: Yes\n".to_string());
    let user_socks = Some("Enabled: Yes\nServer: 127.0.0.1\nPort: 7890\n".to_string());
    assert!(fallback_cleanup_mac(&svc, &user_pac, &user_socks).is_empty());
    assert!(fallback_cleanup_mac(&svc, &None, &None).is_empty());
    let sibling = Some("URL: http://127.0.0.1/siliconmate-tunnel.pac\n".to_string());
    assert_eq!(fallback_cleanup_mac(&svc, &sibling, &None).len(), 2);
}

#[test]
fn snapshot_of_several_services() {
    let probes = vec![
        ("Wi-Fi".to_string(), Some("URL: (null)\nEnabled: No\n".to_string()), None),
        ("LAN".to_string(), None, Some("Enabled: Yes\nServer: 10.1.1.1\nPort: 3128\n".to_string())),
    ];
    let recs = snapshot_mac_services(&probes);
    assert_eq!(recs.len(), 2);
    assert_eq!(recs[0].name, "Wi-Fi");
    assert!(!recs[0].auto_enabled && recs[0].auto_url.is_empty());
    assert_eq!((recs[1].socks_enabled, recs[1].socks_host.as_str(), recs[1].socks_port), (true, "10.1.1.1", 3128));
}

#[test]
fn release_puts_back_what_the_probes_reported() {
    let probes = vec![(
        "Wi-Fi".to_string(),
        Some("URL: http://corp/proxy.pac\nEnabled: Yes\n".to_string()),
        Some("Enabled: Yes\nServer: 10.0.0.1\nPort: 1080\nAuthenticated Proxy Enabled: 0\n".to_string()),
    )];
    let recs = snapshot_mac_services(&probes);
    let cmds: Vec<Vec<String>> = restore_mac_services(&recs).iter().map(argv).collect();
    assert_eq!(
        cmds,
        vec![
            vec!["-setsocksfirewallproxy", "Wi-Fi", "10.0.0.1", "1080"],
            vec!["-setsocksfirewallproxystate", "Wi-Fi", "on"],
            vec!["-setautoproxyurl", "Wi-Fi", "http://corp/proxy.pac"],
            vec!["-setautoproxystate", "Wi-Fi", "on"],
        ]
    );
}
