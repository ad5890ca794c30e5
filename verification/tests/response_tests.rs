use chatgpt_shell::response::{config_from_response, http_status_message, JsonDoc, JsonNode};

fn s(x: &str) -> JsonNode {
    JsonNode::Str(x.to_string())
}

/// {"ok": true, "data": {"plan": "pro", "tunnel": {...}}}
fn granted(tunnel: Vec<(String, usize)>, extra: Vec<JsonNode>) -> JsonDoc {
    let mut nodes = vec![
        JsonNode::Object(vec![("ok".into(), 1), ("data".into(), 2)]),
        JsonNode::Bool(true),
        JsonNode::Object(vec![("plan".into(), 3), ("tunnel".into(), 4)]),
        s("pro"),
        JsonNode::Object(tunnel),
    ];
    nodes.extend(extra);
    JsonDoc { nodes }
}

#[test]
fn a_granted_answer_gives_the_tunnel_configuration() {
    // tunnel members point at nodes 5..
    let doc = granted(
        vec![
            ("server".into(), 5),
            ("server_port".into(), 6),
            ("uuid".into(), 7),
            ("public_key".into(), 8),
            ("short_id".into(), 9),
            ("route_domains".into(), 10),
        ],
        vec![
            s("vpn.example.com"),
            JsonNode::Number(Some(8443)),
            s("0123-4567"),
            s("PK"),
            s("ab"),
            JsonNode::Array(vec![11, 12, 13]),
            s("openai.com"),
            JsonNode::Number(Some(1)),
            s("chatgpt.com"),
        ],
    );
    let c = config_from_response(&doc).expect("granted");
    assert_eq!(c.server, "vpn.example.com");
    assert_eq!(c.server_port, 8443);
    assert_eq!(c.uuid, "0123-4567");
    assert_eq!(c.flow, "xtls-rprx-vision");
    assert_eq!(c.server_name, "www.cloudflare.com");
    assert_eq!(c.public_key, "PK");
    assert_eq!(c.short_id, "ab");
    assert_eq!(c.route_domains, vec!["openai.com", "chatgpt.com"]);
    assert_eq!(c.plan, "pro");
}

#[test]
fn defaults_fill_what_the_answer_leaves_out() {
    let doc = granted(vec![("server_port".into(), 5)], vec![JsonNode::Number(Some(70000))]);
    let c = config_from_response(&doc).expect("granted");
    assert_eq!(c.server, "");
    assert_eq!(c.server_port, (70000u64 as u16));
    assert!(c.route_domains.is_empty());
    let doc = granted(vec![("server_port".into(), 5)], vec![s("443x")]);
    assert_eq!(config_from_response(&doc).unwrap().server_port, 443);
}

#[test]
fn a_missing_plan_is_basic() {
    let doc = JsonDoc {
        nodes: vec![
            JsonNode::Object(vec![("ok".into(), 1), ("data".into(), 2)]),
            JsonNode::Bool(true),
            JsonNode::Object(vec![("tunnel".into(), 3)]),
            JsonNode::Object(vec![]),
        ],
    };
    assert_eq!(config_from_response(&doc).unwrap().plan, "basic");
}

#[test]
fn a_refusal_carries_the_servers_message() {
    let doc = JsonDoc {
        nodes: vec![
            JsonNode::Object(vec![("ok".into(), 1), ("message".into(), 2)]),
            JsonNode::Bool(false),
            s("激活码已过期"),
        ],
    };
    assert_eq!(config_from_response(&doc).unwrap_err(), "激活码已过期");
    let doc = JsonDoc { nodes: vec![JsonNode::Object(vec![])] };
    assert_eq!(config_from_response(&doc).unwrap_err(), "激活码无效");
    let doc = JsonDoc { nodes: vec![JsonNode::Null] };
    assert_eq!(config_from_response(&doc).unwrap_err(), "激活码无效");
}

#[test]
fn no_tunnel_section_is_an_error() {
    let doc = JsonDoc {
        nodes: vec![
            JsonNode::Object(vec![("ok".into(), 1), ("data".into(), 2)]),
            JsonNode::Bool(true),
            JsonNode::Object(vec![("tunnel".into(), 3)]),
            JsonNode::Null,
        ],
    };
    assert_eq!(config_from_response(&doc).unwrap_err(), "服务端未配置隧道凭证，请联系管理员");
    let doc = JsonDoc { nodes: vec![JsonNode::Object(vec![("ok".into(), 1)]), JsonNode::Bool(true)] };
    assert_eq!(config_from_response(&doc).unwrap_err(), "服务端未配置隧道凭证，请联系管理员");
}

#[test]
fn http_status_messages() {
    assert_eq!(http_status_message(403), "服务器返回错误 (HTTP 403)");
}
