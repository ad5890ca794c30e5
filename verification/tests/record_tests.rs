use chatgpt_shell::records::MacServiceRecord;
use chatgpt_shell::takeover::{read_outcome, release_proxy, takeover_record, Platform, PlatformSnapshot, RecordFile, Step};

// The record that a takeover persists is the one a later read hands back, and once
// cleared it reads as none. The file itself is written and read by the application.
#[test]
fn test_takeover_record_roundtrip() {
    let record = takeover_record(
        42,
        PlatformSnapshot::Mac(vec![MacServiceRecord {
            name: "Wi-Fi".into(),
            auto_enabled: true,
            auto_url: "http://127.0.0.1:1/user.pac".into(),
            socks_enabled: false,
            socks_host: String::new(),
            socks_port: 0,
        }]),
    );
    let (back, delete) = read_outcome(RecordFile::Valid(record));
    assert!(!delete);
    let back = back.expect("记录应可读回");
    assert_eq!(back.version, 1);
    assert_eq!(back.taken_at, 42);
    let mac = back.macos.clone().expect("macos段存在");
    assert_eq!(mac[0].name, "Wi-Fi");
    assert_eq!(mac[0].auto_url, "http://127.0.0.1:1/user.pac");
    let steps = release_proxy(Platform::MacOs, Some(back));
    assert!(matches!(steps.last(), Some(Step::ClearRecord)));
    assert!(read_outcome(RecordFile::Missing).0.is_none(), "清除后记录应为空");
}

// A record file that does not parse reads as none and is deleted.
#[test]
fn test_corrupted_record_self_heals() {
    let (record, delete) = read_outcome(RecordFile::Corrupt);
    assert!(record.is_none(), "损坏记录应返回None并自删");
    assert!(delete, "损坏记录文件应被删除");
}
