//! The sing-box configuration of the tunnel: a local SOCKS inbound, a VLESS/REALITY
//! outbound, and routing rules that depend on the plan.
use vstd::prelude::*;
use crate::text::{append_decimal, decimal};
use crate::tunnel::{TunnelConfig, is_pro};

verus! {

pub open spec fn head() -> Seq<char> {
    "{\n  \"log\": { \"level\": \"warn\" },\n  \"inbounds\": [{\n    \"type\": \"socks\",\n    \"tag\": \"socks-in\",\n    \"listen\": \"127.0.0.1\",\n    \"listen_port\": "@
}

pub open spec fn after_port() -> Seq<char> {
    "\n  }],\n  \"outbounds\": [\n    {\n      \"type\": \"vless\",\n      \"tag\": \"proxy\",\n      \"server\": \""@
}

pub open spec fn after_server() -> Seq<char> {
    "\",\n      \"server_port\": "@
}

pub open spec fn after_server_port() -> Seq<char> {
    ",\n      \"uuid\": \""@
}

pub open spec fn after_uuid() -> Seq<char> {
    "\",\n      \"flow\": \""@
}

pub open spec fn after_flow() -> Seq<char> {
    "\",\n      \"tls\": {\n        \"enabled\": true,\n        \"server_name\": \""@
}

pub open spec fn after_server_name() -> Seq<char> {
    "\",\n        \"utls\": { \"enabled\": true, \"fingerprint\": \"chrome\" },\n        \"reality\": {\n          \"enabled\": true,\n          \"public_key\": \""@
}

pub open spec fn after_public_key() -> Seq<char> {
    "\",\n          \"short_id\": \""@
}

pub open spec fn after_short_id() -> Seq<char> {
    "\"\n        }\n      }\n    },\n    { \"type\": \"direct\", \"tag\": \"direct\" }\n  ],\n  \"route\": {\n    \"geoip\": { \"path\": \""@
}

pub open spec fn after_geoip() -> Seq<char> {
    "\" },\n    \"geosite\": { \"path\": \""@
}

pub open spec fn after_geosite() -> Seq<char> {
    "\" },\n    "@
}

pub open spec fn tail() -> Seq<char> {
    "\n  }\n}"@
}

/// The routing of the Pro plan: private, Chinese IP and Chinese sites go direct,
/// everything else through the proxy.
pub open spec fn pro_route() -> Seq<char> {
    "\"rules\": [\n              { \"ip_is_private\": true, \"outbound\": \"direct\" },\n              { \"geoip\": [\"cn\"], \"outbound\": \"direct\" },\n              { \"geosite\": [\"cn\"], \"outbound\": \"direct\" }\n            ],\n            \"final\": \"proxy\""@
}

pub open spec fn domain_route_head() -> Seq<char> {
    "\"rules\": [\n              {\n                \"domain_suffix\": ["@
}

pub open spec fn domain_route_tail() -> Seq<char> {
    "],\n                \"outbound\": \"proxy\"\n              },\n              { \"ip_is_private\": true, \"outbound\": \"direct\" },\n              { \"geoip\": [\"cn\"], \"outbound\": \"direct\" },\n              { \"geosite\": [\"cn\"], \"outbound\": \"direct\" }\n            ],\n            \"final\": \"direct\""@
}

/// `"d1","d2",...`: every domain in double quotes, joined by commas.
pub open spec fn quoted_list(ds: Seq<Seq<char>>) -> Seq<char>
    decreases ds.len(),
{
    if ds.len() == 0 {
        Seq::empty()
    } else if ds.len() == 1 {
        seq!['"'] + ds[0] + seq!['"']
    } else {
        quoted_list(ds.drop_last()) + seq![','] + seq!['"'] + ds.last() + seq!['"']
    }
}

/// The routing section: the Pro routing for the `pro` plan; otherwise the granted domains
/// through the proxy, private, Chinese IP and Chinese sites direct, the rest direct.
pub open spec fn route_section(c: TunnelConfig) -> Seq<char> {
    if c.plan@ == "pro"@ {
        pro_route()
    } else {
        domain_route_head() + quoted_list(crate::command::strings_view(c.route_domains@)) + domain_route_tail()
    }
}

/// The whole configuration: SOCKS on `127.0.0.1:port`, the VLESS outbound from the
/// tunnel configuration, the geo databases at the given paths, and the routing section.
pub open spec fn singbox_config_text(c: TunnelConfig, port: u16, geoip: Seq<char>, geosite: Seq<char>) -> Seq<char> {
    head() + decimal(port as nat) + after_port() + c.server@ + after_server() + decimal(c.server_port as nat)
        + after_server_port() + c.uuid@ + after_uuid() + c.flow@ + after_flow() + c.server_name@
        + after_server_name() + c.public_key@ + after_public_key() + c.short_id@ + after_short_id()
        + geoip + after_geoip() + geosite + after_geosite() + route_section(c) + tail()
}

/// Appends the quoted, comma-joined domains.
fn append_quoted_list(s: &mut String, ds: &Vec<String>)
    ensures
        final(s)@ == old(s)@ + quoted_list(crate::command::strings_view(ds@)),
{
    let ghost v = crate::command::strings_view(ds@);
    let mut i: usize = 0;
    proof {
        assert(v.take(0) =~= Seq::<Seq<char>>::empty());
        assert(old(s)@ + Seq::<char>::empty() =~= old(s)@);
    }
    while i < ds.len()
        invariant
            i <= ds.len(),
            v == crate::command::strings_view(ds@),
            s@ == old(s)@ + quoted_list(v.take(i as int)),
        decreases ds.len() - i,
    {
        let ghost before = s@;
        if i > 0 {
            s.append(",");
        }
        s.append("\"");
        s.append(ds[i].as_str());
        s.append("\"");
        proof {
            reveal_strlit(",");
            reveal_strlit("\"");
            let t = v.take(i + 1);
            assert(t.drop_last() =~= v.take(i as int));
            assert(t.last() == ds@[i as int]@);
            if i == 0 {
                assert(v.take(0) =~= Seq::<Seq<char>>::empty());
                assert(s@ =~= old(s)@ + quoted_list(t));
            } else {
                assert(s@ =~= old(s)@ + quoted_list(t));
            }
        }
        i = i + 1;
    }
    proof {
        assert(v.take(ds.len() as int) =~= v);
    }
}

/// The routing section for a configuration.
pub fn route_section_string(c: &TunnelConfig) -> (s: String)
    ensures
        s@ == route_section(*c),
{
    if is_pro(&c.plan) {
        crate::command::owned("\"rules\": [\n              { \"ip_is_private\": true, \"outbound\": \"direct\" },\n              { \"geoip\": [\"cn\"], \"outbound\": \"direct\" },\n              { \"geosite\": [\"cn\"], \"outbound\": \"direct\" }\n            ],\n            \"final\": \"proxy\"")
    } else {
        let mut s = crate::command::owned("\"rules\": [\n              {\n                \"domain_suffix\": [");
        append_quoted_list(&mut s, &c.route_domains);
        s.append("],\n                \"outbound\": \"proxy\"\n              },\n              { \"ip_is_private\": true, \"outbound\": \"direct\" },\n              { \"geoip\": [\"cn\"], \"outbound\": \"direct\" },\n              { \"geosite\": [\"cn\"], \"outbound\": \"direct\" }\n            ],\n            \"final\": \"direct\"");
        s
    }
}

/// The sing-box configuration text for the tunnel, listening for SOCKS on `port`, with
/// the geo databases at `geoip_path` and `geosite_path`.
pub fn singbox_config(c: &TunnelConfig, port: u16, geoip_path: &str, geosite_path: &str) -> (s: String)
    ensures
        s@ == singbox_config_text(*c, port, geoip_path@, geosite_path@),
{
    let mut s = crate::command::owned("{\n  \"log\": { \"level\": \"warn\" },\n  \"inbounds\": [{\n    \"type\": \"socks\",\n    \"tag\": \"socks-in\",\n    \"listen\": \"127.0.0.1\",\n    \"listen_port\": ");
    append_decimal(&mut s, port as u64);
    s.append("\n  }],\n  \"outbounds\": [\n    {\n      \"type\": \"vless\",\n      \"tag\": \"proxy\",\n      \"server\": \"");
    s.append(c.server.as_str());
    s.append("\",\n      \"server_port\": ");
    append_decimal(&mut s, c.server_port as u64);
    s.append(",\n      \"uuid\": \"");
    s.append(c.uuid.as_str());
    s.append("\",\n      \"flow\": \"");
    s.append(c.flow.as_str());
    s.append("\",\n      \"tls\": {\n        \"enabled\": true,\n        \"server_name\": \"");
    s.append(c.server_name.as_str());
    s.append("\",\n        \"utls\": { \"enabled\": true, \"fingerprint\": \"chrome\" },\n        \"reality\": {\n          \"enabled\": true,\n          \"public_key\": \"");
    s.append(c.public_key.as_str());
    s.append("\",\n          \"short_id\": \"");
    s.append(c.short_id.as_str());
    s.append("\"\n        }\n      }\n    },\n    { \"type\": \"direct\", \"tag\": \"direct\" }\n  ],\n  \"route\": {\n    \"geoip\": { \"path\": \"");
    s.append(geoip_path);
    s.append("\" },\n    \"geosite\": { \"path\": \"");
    s.append(geosite_path);
    s.append("\" },\n    ");
    let route = route_section_string(c);
    s.append(route.as_str());
    s.append("\n  }\n}");
    s
}

} // verus!

verus! {

/// The domain list names each domain in double quotes, with a comma between every two
/// consecutive domains: appending a domain to a non-empty list appends a comma and the
/// quoted domain; a single domain is just quoted; no domains give an empty list.
pub proof fn lemma_quoted_list_joins(ds: Seq<Seq<char>>, d: Seq<char>)
    ensures
        quoted_list(Seq::<Seq<char>>::empty()) == Seq::<char>::empty(),
        quoted_list(seq![d]) == seq!['"'] + d + seq!['"'],
        ds.len() > 0 ==> quoted_list(ds.push(d)) == quoted_list(ds) + seq![','] + seq!['"'] + d + seq!['"'],
{
    assert(ds.push(d).drop_last() =~= ds);
    assert(ds.push(d).last() == d);
    assert(seq![d][0] == d);
}

/// The number of commas in `s`.
pub open spec fn comma_count(s: Seq<char>) -> nat
    decreases s.len(),
{
    if s.len() == 0 {
        0
    } else {
        comma_count(s.drop_last()) + if s.last() == ',' { 1nat } else { 0nat }
    }
}

proof fn lemma_comma_count_add(a: Seq<char>, b: Seq<char>)
    ensures
        comma_count(a + b) == comma_count(a) + comma_count(b),
    decreases b.len(),
{
    if b.len() == 0 {
        assert(a + b =~= a);
    } else {
        assert((a + b).drop_last() =~= a + b.drop_last());
        lemma_comma_count_add(a, b.drop_last());
    }
}

proof fn lemma_no_comma(d: Seq<char>)
    requires
        !d.contains(','),
    ensures
        comma_count(d) == 0,
    decreases d.len(),
{
    if d.len() > 0 {
        assert(!d.drop_last().contains(',')) by {
            if d.drop_last().contains(',') {
                let i = choose|i: int| 0 <= i < d.drop_last().len() && d.drop_last()[i] == ',';
                assert(d[i] == ',');
            }
        }
        lemma_no_comma(d.drop_last());
        assert(d[d.len() - 1] == d.last());
    }
}

/// Between domains that hold no comma of their own, the domain list has exactly one
/// comma fewer than there are domains: one between every two consecutive domains.
pub proof fn lemma_quoted_list_commas(ds: Seq<Seq<char>>)
    requires
        ds.len() > 0,
        forall|i: int| 0 <= i < ds.len() ==> !(#[trigger] ds[i]).contains(','),
    ensures
        comma_count(quoted_list(ds)) == ds.len() - 1,
    decreases ds.len(),
{
    let d = ds.last();
    assert(d == ds[ds.len() - 1]);
    lemma_no_comma(d);
    let q = seq!['"'] + d + seq!['"'];
    lemma_comma_count_add(seq!['"'], d);
    lemma_comma_count_add(seq!['"'] + d, seq!['"']);
    reveal_with_fuel(comma_count, 2);
    assert(seq!['"'].drop_last() =~= Seq::<char>::empty());
    assert(comma_count(q) == 0);
    if ds.len() == 1 {
        assert(quoted_list(ds) == seq!['"'] + ds[0] + seq!['"']);
    } else {
        assert forall|i: int| 0 <= i < ds.drop_last().len() implies !(#[trigger] ds.drop_last()[i]).contains(',') by {
            assert(ds.drop_last()[i] == ds[i]);
        }
        lemma_quoted_list_commas(ds.drop_last());
        let l = quoted_list(ds.drop_last());
        assert(quoted_list(ds) == l + seq![','] + q) by {
            assert(l + seq![','] + seq!['"'] + d + seq!['"'] =~= l + seq![','] + q);
        }
        lemma_comma_count_add(l, seq![',']);
        lemma_comma_count_add(l + seq![','], q);
        assert(seq![','].drop_last() =~= Seq::<char>::empty());
        assert(comma_count(seq![',']) == 1);
    }
}

} // verus!
