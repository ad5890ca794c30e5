//! The activation server's answer: a JSON document, and the tunnel configuration it grants.
use vstd::prelude::*;
use crate::command::{owned, strings_view};
use crate::text::{append_decimal, decimal};
use crate::tunnel::TunnelConfig;

verus! {

/// One value of a JSON document; arrays and objects refer to their items by their
/// position in the document.
#[derive(Debug, Clone)]
pub enum JsonNode {
    Null,
    Bool(bool),
    /// A number: its value when it is a non-negative integer that fits in `u64`.
    Number(Option<u64>),
    Str(String),
    Array(Vec<usize>),
    Object(Vec<(String, usize)>),
}

/// A JSON document, as the library reads a `serde_json::Value`: its values, the root first.
#[derive(Debug, Clone)]
pub struct JsonDoc {
    pub nodes: Vec<JsonNode>,
}

/// The value at position `i`, `null` where there is none.
pub open spec fn node(d: JsonDoc, i: int) -> JsonNode {
    if 0 <= i < d.nodes@.len() { d.nodes@[i] } else { JsonNode::Null }
}

/// The position of the first member named `key`.
pub open spec fn find_member(m: Seq<(String, usize)>, key: Seq<char>) -> Option<int>
    decreases m.len(),
{
    if m.len() == 0 {
        None
    } else if m[0].0@ == key {
        Some(m[0].1 as int)
    } else {
        find_member(m.drop_first(), key)
    }
}

/// `Value::get(key)` of the value at `i`: the member of an object, nothing for any other value.
pub open spec fn member(d: JsonDoc, i: int, key: Seq<char>) -> Option<int> {
    match node(d, i) {
        JsonNode::Object(m) => find_member(m@, key),
        _ => None,
    }
}

/// `value[key]` of the value at `i`: the member's position, or `-1` (a `null`) where there is none.
pub open spec fn index(d: JsonDoc, i: int, key: Seq<char>) -> int {
    match member(d, i, key) {
        Some(x) => x,
        None => -1,
    }
}

/// `value.as_str().unwrap_or(default)` of the value at `i`.
pub open spec fn str_or(d: JsonDoc, i: int, default: Seq<char>) -> Seq<char> {
    match node(d, i) {
        JsonNode::Str(s) => s@,
        _ => default,
    }
}

/// The strings among the values at the positions `a`, other items left out.
pub open spec fn string_items(d: JsonDoc, a: Seq<usize>) -> Seq<Seq<char>>
    decreases a.len(),
{
    if a.len() == 0 {
        Seq::empty()
    } else {
        string_items(d, a.drop_last()) + match node(d, a.last() as int) {
            JsonNode::Str(s) => seq![s@],
            _ => Seq::empty(),
        }
    }
}

/// The `route_domains` of the tunnel at `t`: its strings, or none where it is not an array.
pub open spec fn route_domains_of(d: JsonDoc, t: int) -> Seq<Seq<char>> {
    match member(d, t, "route_domains"@) {
        Some(a) => match node(d, a) {
            JsonNode::Array(items) => string_items(d, items@),
            _ => Seq::empty(),
        },
        None => Seq::empty(),
    }
}

/// The port of the tunnel at `t`: `server_port` as a `u16` (the low 16 bits of the
/// integer), 443 where it is not a non-negative integer.
pub open spec fn port_of(d: JsonDoc, t: int) -> u16 {
    match node(d, index(d, t, "server_port"@)) {
        JsonNode::Number(Some(n)) => #[verifier::truncate] (n as u16),
        _ => 443,
    }
}

/// The answer grants access: `ok` is `true`.
pub open spec fn answer_ok(d: JsonDoc) -> bool {
    match member(d, 0, "ok"@) {
        Some(i) => node(d, i) == JsonNode::Bool(true),
        None => false,
    }
}

/// The position of `data`.
pub open spec fn data_of(d: JsonDoc) -> int {
    index(d, 0, "data"@)
}

/// The tunnel section is there and not `null`.
pub open spec fn has_tunnel(d: JsonDoc) -> bool {
    match member(d, data_of(d), "tunnel"@) {
        Some(t) => node(d, t) != JsonNode::Null,
        None => false,
    }
}

/// The configuration that the tunnel section at `t` and the plan of `data` give; every
/// field has its default where the answer has no string (or number) for it.
pub open spec fn is_config_from(c: TunnelConfig, d: JsonDoc, data: int, t: int) -> bool {
    &&& c.server@ == str_or(d, index(d, t, "server"@), Seq::empty())
    &&& c.server_port == port_of(d, t)
    &&& c.uuid@ == str_or(d, index(d, t, "uuid"@), Seq::empty())
    &&& c.flow@ == str_or(d, index(d, t, "flow"@), "xtls-rprx-vision"@)
    &&& c.server_name@ == str_or(d, index(d, t, "server_name"@), "www.cloudflare.com"@)
    &&& c.public_key@ == str_or(d, index(d, t, "public_key"@), Seq::empty())
    &&& c.short_id@ == str_or(d, index(d, t, "short_id"@), Seq::empty())
    &&& strings_view(c.route_domains@) == route_domains_of(d, t)
    &&& c.plan@ == str_or(d, index(d, data, "plan"@), "basic"@)
}

/// The error message of a refusal: the answer's `message` string, or a generic one.
pub open spec fn refusal_message(d: JsonDoc) -> Seq<char> {
    str_or(d, index(d, 0, "message"@), "激活码无效"@)
}

/// The message when access is granted but no tunnel is configured.
pub open spec fn no_tunnel_message() -> Seq<char> {
    "服务端未配置隧道凭证，请联系管理员"@
}

/// The value at position `i`, `null` where there is none.
fn node_at<'a>(d: &'a JsonDoc, i: usize, null: &'a JsonNode) -> (r: &'a JsonNode)
    requires
        *null == JsonNode::Null,
    ensures
        *r == node(*d, i as int),
{
    if i < d.nodes.len() { &d.nodes[i] } else { null }
}

/// `value.get(key)` of the value at `i`.
pub fn get_member(d: &JsonDoc, i: usize, key: &str) -> (r: Option<usize>)
    ensures
        match r {
            Some(x) => member(*d, i as int, key@) == Some(x as int),
            None => member(*d, i as int, key@) is None,
        },
{
    let null = JsonNode::Null;
    match node_at(d, i, &null) {
        JsonNode::Object(m) => {
            let mut k: usize = 0;
            let ghost ms = m@;
            proof {
                assert(ms.skip(0) =~= ms);
            }
            while k < m.len()
                invariant
                    k <= m.len(),
                    ms == m@,
                    member(*d, i as int, key@) == find_member(ms, key@),
                    find_member(ms, key@) == find_member(ms.skip(k as int), key@),
                decreases m.len() - k,
            {
                let ghost rest = ms.skip(k as int);
                assert(rest[0] == m@[k as int]);
                if crate::text::str_eq(m[k].0.as_str(), key) {
                    return Some(m[k].1);
                }
                assert(rest.drop_first() =~= ms.skip(k + 1));
                k = k + 1;
            }
            None
        },
        _ => None,
    }
}

/// The spec position of an optional position: `-1` (a `null`) for none.
pub open spec fn pos(o: Option<usize>) -> int {
    match o {
        Some(i) => i as int,
        None => -1,
    }
}

/// `value.get(key)` of the value at an optional position.
fn get_member_at(d: &JsonDoc, i: Option<usize>, key: &str) -> (r: Option<usize>)
    ensures
        match r {
            Some(x) => member(*d, pos(i), key@) == Some(x as int),
            None => member(*d, pos(i), key@) is None,
        },
{
    match i {
        Some(i) => get_member(d, i, key),
        None => None,
    }
}

/// `value.as_str().unwrap_or(default)` of the member `key` of the value at `i`.
fn member_str_or(d: &JsonDoc, i: Option<usize>, key: &str, default: &str) -> (s: String)
    ensures
        s@ == str_or(*d, index(*d, pos(i), key@), default@),
{
    let null = JsonNode::Null;
    match get_member_at(d, i, key) {
        Some(x) => match node_at(d, x, &null) {
            JsonNode::Str(s) => s.clone(),
            _ => owned(default),
        },
        None => owned(default),
    }
}

/// The strings among the values at the positions `items`.
fn collect_strings(d: &JsonDoc, items: &Vec<usize>) -> (res: Vec<String>)
    ensures
        strings_view(res@) == string_items(*d, items@),
{
    let null = JsonNode::Null;
    let mut res: Vec<String> = Vec::new();
    let mut i: usize = 0;
    while i < items.len()
        invariant
            i <= items.len(),
            null == JsonNode::Null,
            strings_view(res@) == string_items(*d, items@.take(i as int)),
        decreases items.len() - i,
    {
        let ghost before = strings_view(res@);
        proof {
            assert(items@.take(i + 1).drop_last() =~= items@.take(i as int));
            assert(items@.take(i + 1).last() == items@[i as int]);
        }
        match node_at(d, items[i], &null) {
            JsonNode::Str(s) => {
                res.push(s.clone());
                assert(strings_view(res@) =~= before + seq![s@]);
            },
            _ => {
                assert(before + Seq::<Seq<char>>::empty() =~= before);
            },
        }
        i = i + 1;
    }
    proof {
        assert(items@.take(items.len() as int) =~= items@);
    }
    res
}

/// The `route_domains` strings of the tunnel at `t`.
fn route_domains(d: &JsonDoc, t: usize) -> (res: Vec<String>)
    ensures
        strings_view(res@) == route_domains_of(*d, t as int),
{
    let null = JsonNode::Null;
    match get_member(d, t, "route_domains") {
        Some(a) => match node_at(d, a, &null) {
            JsonNode::Array(items) => collect_strings(d, items),
            _ => {
                let v: Vec<String> = Vec::new();
                assert(strings_view(v@) =~= Seq::<Seq<char>>::empty());
                v
            },
        },
        None => {
            let v: Vec<String> = Vec::new();
            assert(strings_view(v@) =~= Seq::<Seq<char>>::empty());
            v
        },
    }
}

/// The tunnel configuration granted by the activation server's answer, or the error
/// message shown to the user: the answer's own message when `ok` is not `true`, and a
/// fixed message when there is no tunnel section.
pub fn config_from_response(d: &JsonDoc) -> (res: Result<TunnelConfig, String>)
    ensures
        !answer_ok(*d) ==> (res matches Err(e) && e@ == refusal_message(*d)),
        answer_ok(*d) && !has_tunnel(*d) ==> (res matches Err(e) && e@ == no_tunnel_message()),
        answer_ok(*d) && has_tunnel(*d) ==> (res matches Ok(c)
            && is_config_from(c, *d, data_of(*d), member(*d, data_of(*d), "tunnel"@)->0)),
{
    let null = JsonNode::Null;
    let ok = match get_member(d, 0, "ok") {
        Some(x) => match node_at(d, x, &null) {
            JsonNode::Bool(b) => *b,
            _ => false,
        },
        None => false,
    };
    if !ok {
        return Err(member_str_or(d, Some(0), "message", "激活码无效"));
    }
    let data = get_member(d, 0, "data");
    assert(pos(data) == data_of(*d));
    let t: usize = match get_member_at(d, data, "tunnel") {
        None => { return Err(owned("服务端未配置隧道凭证，请联系管理员")); },
        Some(t) => t,
    };
    if let JsonNode::Null = node_at(d, t, &null) {
        return Err(owned("服务端未配置隧道凭证，请联系管理员"));
    }
    let plan = member_str_or(d, data, "plan", "basic");
    let route_domains = route_domains(d, t);
    let server_port: u16 = match get_member(d, t, "server_port") {
        Some(x) => match node_at(d, x, &null) {
            JsonNode::Number(Some(n)) => #[verifier::truncate] (*n as u16),
            _ => 443,
        },
        None => 443,
    };
    let c = TunnelConfig {
        server: member_str_or(d, Some(t), "server", ""),
        server_port,
        uuid: member_str_or(d, Some(t), "uuid", ""),
        flow: member_str_or(d, Some(t), "flow", "xtls-rprx-vision"),
        server_name: member_str_or(d, Some(t), "server_name", "www.cloudflare.com"),
        public_key: member_str_or(d, Some(t), "public_key", ""),
        short_id: member_str_or(d, Some(t), "short_id", ""),
        route_domains,
        plan,
    };
    proof {
        reveal_strlit("");
    }
    assert(member(*d, data_of(*d), "tunnel"@)->0 == t as int);
    assert(c.server_port == port_of(*d, t as int));
    assert(strings_view(c.route_domains@) == route_domains_of(*d, t as int));
    assert(c.plan@ == str_or(*d, index(*d, data_of(*d), "plan"@), "basic"@));
    assert(c.server@ == str_or(*d, index(*d, t as int, "server"@), Seq::empty()));
    assert(c.uuid@ == str_or(*d, index(*d, t as int, "uuid"@), Seq::empty()));
    assert(c.flow@ == str_or(*d, index(*d, t as int, "flow"@), "xtls-rprx-vision"@));
    assert(c.server_name@ == str_or(*d, index(*d, t as int, "server_name"@), "www.cloudflare.com"@));
    assert(c.public_key@ == str_or(*d, index(*d, t as int, "public_key"@), Seq::empty()));
    assert(c.short_id@ == str_or(*d, index(*d, t as int, "short_id"@), Seq::empty()));
    assert(is_config_from(c, *d, data_of(*d), t as int));
    assert(answer_ok(*d));
    Ok(c)
}

/// The message for an HTTP error status from the activation server.
pub fn http_status_message(code: u16) -> (s: String)
    ensures
        s@ == "服务器返回错误 (HTTP "@ + decimal(code as nat) + ")"@,
{
    let mut s = owned("服务器返回错误 (HTTP ");
    append_decimal(&mut s, code as u64);
    s.append(")");
    s
}

} // verus!
