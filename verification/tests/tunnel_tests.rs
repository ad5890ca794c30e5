use chatgpt_shell::singbox::singbox_config;
use chatgpt_shell::takeover::Platform;
use chatgpt_shell::tunnel::{
    browser_command, browser_url, connect_message, disconnect_message, mode_label, shell_port,
    TunnelConfig, TunnelState, TunnelStatus,
};

const SHELL_PORT: u16 = 1083;

fn config(plan: &str) -> TunnelConfig {
    TunnelConfig {
        server: "vpn.example.com".into(),
        server_port: 443,
        uuid: "11111111-2222".into(),
        flow: "xtls-rprx-vision".into(),
        server_name: "www.cloudflare.com".into(),
        public_key: "PUBKEY".into(),
        short_id: "0a1b".into(),
        route_domains: vec!["openai.com".into(), "chatgpt.com".into()],
        plan: plan.into(),
    }
}

/// The configuration text built with `format!`, as an independent reference.
fn expected(config: &TunnelConfig, geoip_path: &str, geosite_path: &str) -> String {
        let domains_json: Vec<String> = config.route_domains.iter()
            .map(|d| format!("\"{}\"", d))
            .collect();
        let domains_str = domains_json.join(",");

        let route_config = if config.plan == "pro" {
            r#""rules": [
              { "ip_is_private": true, "outbound": "direct" },
              { "geoip": ["cn"], "outbound": "direct" },
              { "geosite": ["cn"], "outbound": "direct" }
            ],
            "final": "proxy""#.to_string()
        } else {
            format!(r#""rules": [
              {{
                "domain_suffix": [{}],
                "outbound": "proxy"
              }},
              {{ "ip_is_private": true, "outbound": "direct" }},
              {{ "geoip": ["cn"], "outbound": "direct" }},
              {{ "geosite": ["cn"], "outbound": "direct" }}
            ],
            "final": "direct""#, domains_str)
        };

        let singbox_config = format!(r#"{{
  "log": {{ "level": "warn" }},
  "inbounds": [{{
    "type": "socks",
    "tag": "socks-in",
    "listen": "127.0.0.1",
    "listen_port": {}
  }}],
  "outbounds": [
    {{
      "type": "vless",
      "tag": "proxy",
      "server": "{}",
      "server_port": {},
      "uuid": "{}",
      "flow": "{}",
      "tls": {{
        "enabled": true,
        "server_name": "{}",
        "utls": {{ "enabled": true, "fingerprint": "chrome" }},
        "reality": {{
          "enabled": true,
          "public_key": "{}",
          "short_id": "{}"
        }}
      }}
    }},
    {{ "type": "direct", "tag": "direct" }}
  ],
  "route": {{
    "geoip": {{ "path": "{}" }},
    "geosite": {{ "path": "{}" }},
    {}
  }}
}}"#, SHELL_PORT, config.server, config.server_port, config.uuid,
        config.flow, config.server_name, config.public_key, config.short_id,
        geoip_path, geosite_path, route_config);
    singbox_config
}

#[test]
fn singbox_config_for_the_chatgpt_plan() {
    let c = config("basic");
    let got = singbox_config(&c, 1083, "/tmp/t/geoip.db", "/tmp/t/geosite.db");
    assert_eq!(got, expected(&c, "/tmp/t/geoip.db", "/tmp/t/geosite.db"));
    assert!(got.contains("\"domain_suffix\": [\"openai.com\",\"chatgpt.com\"]"));
    assert!(got.contains("\"listen_port\": 1083"));
}

#[test]
fn singbox_config_for_the_pro_plan() {
    let c = config("pro");
    let got = singbox_config(&c, 1083, "g1", "g2");
    assert_eq!(got, expected(&c, "g1", "g2"));
    assert!(got.contains("\"final\": \"proxy\""));
}

#[test]
fn singbox_config_with_no_domains() {
    let mut c = config("basic");
    c.route_domains = vec![];
    assert_eq!(singbox_config(&c, 1083, "a", "b"), expected(&c, "a", "b"));
}

#[test]
fn ports_and_labels() {
    assert_eq!(shell_port(Platform::MacOs), 18081);
    assert_eq!(shell_port(Platform::Windows), 1083);
    assert_eq!(shell_port(Platform::Linux), 1083);
    assert_eq!(mode_label(&"pro".to_string()), "全平台Pro");
    assert_eq!(mode_label(&"basic".to_string()), "ChatGPT");
    assert_eq!(browser_url(&"pro".to_string()), "https://www.google.com/");
    assert_eq!(browser_url(&"basic".to_string()), "https://chatgpt.com/");
    assert_eq!(connect_message(Platform::MacOs, &"pro".to_string()), "隧道已启动 · 全平台Pro模式 · Safari已打开");
    assert_eq!(connect_message(Platform::Linux, &"basic".to_string()), "隧道已启动 · ChatGPT模式 · 浏览器已打开");
    assert_eq!(connect_message(Platform::Windows, &"basic".to_string()), "隧道已启动 · ChatGPT模式 · 浏览器已打开");
    assert_eq!(disconnect_message(), "已断开连接 · 代理已恢复");
}

#[test]
fn browser_commands() {
    let mac = browser_command(Platform::MacOs, "https://chatgpt.com/".into());
    assert_eq!((mac.program.as_str(), mac.args.clone()), ("open", vec!["-a".to_string(), "Safari".into(), "https://chatgpt.com/".into()]));
    let win = browser_command(Platform::Windows, "u".into());
    assert_eq!((win.program.as_str(), win.args.clone()), ("cmd", vec!["/C".to_string(), "start".into(), "".into(), "u".into()]));
    let lin = browser_command(Platform::Linux, "u".into());
    assert_eq!((lin.program.as_str(), lin.args.clone()), ("xdg-open", vec!["u".to_string()]));
}

#[test]
fn tunnel_state_transitions() {
    let mut st = TunnelState::new();
    assert!(matches!(st.current_status(), TunnelStatus::Stopped));
    assert_eq!(st.activated_config().unwrap_err(), "未激活");
    st.spawned(SHELL_PORT, config("pro"));
    match st.current_status() {
        TunnelStatus::Running { port, mode } => {
            assert_eq!(port, 1083);
            assert_eq!(mode, "全平台Pro");
        }
        _ => panic!("running"),
    }
    assert_eq!(st.activated_config().unwrap().plan, "pro");
    st.stopped();
    assert!(matches!(st.current_status(), TunnelStatus::Stopped));
    assert!(st.config.is_none());
}

#[test]
fn daemon_probe_outcomes() {
    let mut st = TunnelState::new();
    assert_eq!(st.daemon_probed(false, config("basic")).unwrap_err(), "隧道daemon未运行，请先启动统一隧道daemon");
    assert!(st.config.is_none());
    assert_eq!(st.daemon_probed(true, config("basic")), Ok(18081));
    match st.current_status() {
        TunnelStatus::Running { port, mode } => assert_eq!((port, mode.as_str()), (18081, "ChatGPT")),
        _ => panic!("running"),
    }
    assert_eq!(st.daemon_probed(false, config("pro")).unwrap_err(), "隧道daemon未运行，请先启动统一隧道daemon");
    assert!(matches!(st.current_status(), TunnelStatus::Stopped));
    assert_eq!(st.config.as_ref().unwrap().plan, "basic");
}
