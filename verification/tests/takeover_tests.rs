use chatgpt_shell::linux::GSet;
use chatgpt_shell::macos::MacAction;
use chatgpt_shell::records::{LinuxProxyRecord, MacServiceRecord, ProxyTakeoverRecord, WinProxyRecord};
use chatgpt_shell::takeover::{
    engage_steps, go_on_after, read_outcome, recover_orphaned_takeover, release_proxy, set_system_proxy,
    takeover_record, Platform, PlatformSnapshot, ProxyAction, ProxyRequest, RecordFile, Step,
};

fn wifi_record() -> MacServiceRecord {
    MacServiceRecord {
        name: "Wi-Fi".into(),
        auto_enabled: true,
        auto_url: "http://127.0.0.1:1/user.pac".into(),
        socks_enabled: false,
        socks_host: String::new(),
        socks_port: 0,
    }
}

fn mac_takeover_record() -> ProxyTakeoverRecord {
    ProxyTakeoverRecord { version: 1, taken_at: 42, macos: Some(vec![wifi_record()]), windows: None, linux: None }
}

fn commands(steps: &[Step]) -> Vec<Vec<String>> {
    steps
        .iter()
        .filter_map(|s| match s {
            Step::Run(a) => Some(a.to_command().args),
            _ => None,
        })
        .collect()
}

#[test]
fn record_holds_the_snapshot_in_its_platform_section() {
    let r = takeover_record(42, PlatformSnapshot::Mac(vec![wifi_record()]));
    assert_eq!(r.version, 1);
    assert_eq!(r.taken_at, 42);
    let mac = r.macos.expect("macos section");
    assert_eq!(mac[0].name, "Wi-Fi");
    assert_eq!(mac[0].auto_url, "http://127.0.0.1:1/user.pac");
    assert!(r.windows.is_none() && r.linux.is_none());
}

#[test]
fn takeover_persists_the_record_before_any_change() {
    let steps = engage_steps(7, PlatformSnapshot::Mac(vec![wifi_record()]), 18081, &vec!["Wi-Fi".to_string()]);
    match &steps[0] {
        Step::Persist(r) => {
            assert_eq!(r.taken_at, 7);
            assert_eq!(r.macos.as_ref().unwrap()[0].name, "Wi-Fi");
        }
        _ => panic!("the first step must persist the record"),
    }
    assert!(steps[1..].iter().all(|s| matches!(s, Step::Run(_))));
    assert_eq!(
        commands(&steps),
        vec![
            vec!["-setautoproxyurl", "Wi-Fi", "http://127.0.0.1:18085/proxy.pac"],
            vec!["-setautoproxystate", "Wi-Fi", "on"],
            vec!["-setsocksfirewallproxystate", "Wi-Fi", "off"],
        ]
    );
}

#[test]
fn takeover_with_no_services_changes_nothing_on_macos() {
    let steps = engage_steps(1, PlatformSnapshot::Mac(vec![]), 18081, &vec![]);
    assert_eq!(steps.len(), 1);
}

#[test]
fn linux_takeover_steps() {
    let snap = LinuxProxyRecord { mode: "'none'".into(), socks_host: "''".into(), socks_port: "0".into() };
    let steps = set_system_proxy(ProxyRequest::Enable {
        taken_at: 3,
        snapshot: PlatformSnapshot::Linux(snap),
        socks_port: 1083,
        services: vec![],
        on_disk: None,
    });
    assert!(matches!(&steps[0], Step::Persist(r) if r.linux.is_some()));
    assert_eq!(commands(&steps).len(), 3);
    assert!(matches!(&steps[1], Step::Run(ProxyAction::Linux(GSet { .. }))));
}

#[test]
fn release_with_a_record_restores_then_clears() {
    let steps = release_proxy(Platform::MacOs, Some(mac_takeover_record()));
    assert!(matches!(steps.last(), Some(Step::ClearRecord)));
    assert_eq!(
        commands(&steps),
        vec![
            vec!["-setsocksfirewallproxystate", "Wi-Fi", "off"],
            vec!["-setautoproxyurl", "Wi-Fi", "http://127.0.0.1:1/user.pac"],
            vec!["-setautoproxystate", "Wi-Fi", "on"],
        ]
    );
}

#[test]
fn release_without_a_record_only_cleans_up() {
    let steps = release_proxy(Platform::Windows, None);
    assert_eq!(steps.len(), 1);
    assert!(matches!(steps[0], Step::FeatureCleanup(Platform::Windows)));
}

#[test]
fn release_with_another_platforms_record_only_clears_it() {
    let steps = release_proxy(Platform::Linux, Some(mac_takeover_record()));
    assert_eq!(steps.len(), 1);
    assert!(matches!(steps[0], Step::ClearRecord));
}

#[test]
fn recovery_after_a_crash_restores_like_a_release() {
    let a = commands(&recover_orphaned_takeover(Platform::MacOs, Some(mac_takeover_record())));
    let b = commands(&release_proxy(Platform::MacOs, Some(mac_takeover_record())));
    assert_eq!(a, b);
    assert!(matches!(recover_orphaned_takeover(Platform::MacOs, None)[0], Step::FeatureCleanup(Platform::MacOs)));
}

#[test]
fn windows_release_steps() {
    let w = WinProxyRecord { proxy_enable: "0x1".into(), proxy_server: "corp:3128".into(), proxy_override: "<local>".into() };
    let rec = ProxyTakeoverRecord { version: 1, taken_at: 0, macos: None, windows: Some(w), linux: None };
    let steps = set_system_proxy(ProxyRequest::Disable { platform: Platform::Windows, record: Some(rec) });
    assert_eq!(steps.len(), 5);
    assert!(matches!(steps[4], Step::ClearRecord));
}

#[test]
fn corrupted_record_reads_as_none_and_is_deleted() {
    let (r, delete) = read_outcome(RecordFile::Corrupt);
    assert!(r.is_none());
    assert!(delete);
    let (r, delete) = read_outcome(RecordFile::Missing);
    assert!(r.is_none() && !delete);
    let (r, delete) = read_outcome(RecordFile::Valid(mac_takeover_record()));
    assert_eq!(r.unwrap().taken_at, 42);
    assert!(!delete);
}

#[test]
fn mac_action_kinds_render() {
    let a = MacAction::SetSocksProxy { service: "S".into(), host: "h".into(), port: 65535 };
    assert_eq!(a.to_command().args, vec!["-setsocksfirewallproxy", "S", "h", "65535"]);
}

#[test]
fn a_second_takeover_keeps_the_record_on_disk() {
    let snap = LinuxProxyRecord { mode: "'manual'".into(), socks_host: "'127.0.0.1'".into(), socks_port: "1083".into() };
    let first = ProxyTakeoverRecord {
        version: 1,
        taken_at: 5,
        macos: None,
        windows: None,
        linux: Some(LinuxProxyRecord { mode: "'none'".into(), socks_host: "''".into(), socks_port: "0".into() }),
    };
    let steps = set_system_proxy(ProxyRequest::Enable {
        taken_at: 9,
        snapshot: PlatformSnapshot::Linux(snap),
        socks_port: 1083,
        services: vec![],
        on_disk: Some(first),
    });
    assert!(steps.iter().all(|s| matches!(s, Step::Run(_))));
    assert_eq!(commands(&steps).len(), 3);
}

#[test]
fn a_failed_persist_stops_the_takeover() {
    let steps = engage_steps(7, PlatformSnapshot::Mac(vec![wifi_record()]), 18081, &vec!["Wi-Fi".to_string()]);
    assert!(!go_on_after(&steps[0], false));
    assert!(go_on_after(&steps[0], true));
    assert!(go_on_after(&steps[1], false));
    assert!(go_on_after(&Step::ClearRecord, true));
}

#[test]
fn release_puts_back_an_address_of_a_pac_that_was_off() {
    let mut rec = wifi_record();
    rec.auto_enabled = false;
    let r = ProxyTakeoverRecord { version: 1, taken_at: 1, macos: Some(vec![rec]), windows: None, linux: None };
    assert_eq!(
        commands(&release_proxy(Platform::MacOs, Some(r))),
        vec![
            vec!["-setsocksfirewallproxystate", "Wi-Fi", "off"],
            vec!["-setautoproxyurl", "Wi-Fi", "http://127.0.0.1:1/user.pac"],
            vec!["-setautoproxystate", "Wi-Fi", "off"],
        ]
    );
}
