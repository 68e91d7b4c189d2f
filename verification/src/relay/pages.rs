//! The documents of a subscription.

use super::config::Config;
use super::nodes::{
    lemma_address_lacks, lemma_name_lacks, node_list, nodes, process_preferred_list, NodeInfo,
};
use super::routes::Document;
use crate::codec::{
    law_url_decoding_undoes_encoding, lemma_url_encoded_lacks, url_decoded, url_encode, url_encoded,
};
use crate::gateway::pages::lemma_link_shape;
use crate::preferred::NodeView;
use crate::reply::{plain, plain_document, Reply};
use crate::text::{
    after_first, all_parts, before_first, decimal, decimal_text, join, joined,
    law_joined_is_taken_apart, law_joined_parts, law_parts_add, law_parts_one, lemma_add_lacks,
    lemma_cut_first, lemma_decimal_lacks, lemma_lines_below, lines_below, parts_of, texts,
};
use vstd::prelude::*;

verus! {

// ---------------------------------------------------------------------------
// A list of links
// ---------------------------------------------------------------------------

/// The link to a node.
pub open spec fn link(config: Config, host: Seq<char>, node: NodeView) -> Seq<char> {
    "vless://"@ + config.uuid@ + "@"@ + node.address + ":"@ + decimal(node.port as nat)
        + "?encryption=none&security=tls&sni="@ + host + "&fp=chrome&type=ws&host="@ + host
        + "&path="@ + url_encoded("/?ed=2560"@) + "#"@ + url_encoded(node.name)
}

/// The links to nodes.
pub open spec fn links(config: Config, host: Seq<char>, list: Seq<NodeView>) -> Seq<Seq<char>> {
    Seq::new(list.len(), |i: int| link(config, host, list[i]))
}

fn write_link(config: &Config, host: &str, node: &NodeInfo) -> (out: String)
    ensures
        out@ == link(*config, host@, node@),
{
    let mut out = "vless://".to_owned();
    out.append(config.uuid.as_str());
    out.append("@");
    out.append(node.address.as_str());
    out.append(":");
    out.append(decimal_text(node.port as u64).as_str());
    out.append("?encryption=none&security=tls&sni=");
    out.append(host);
    out.append("&fp=chrome&type=ws&host=");
    out.append(host);
    out.append("&path=");
    out.append(url_encode("/?ed=2560").as_str());
    out.append("#");
    out.append(url_encode(node.name.as_str()).as_str());
    out
}

/// Makes the document for clients that read links: one link in each line, first the relay's own
/// and then those to the preferred nodes.
pub fn vless_config_file(config: &Config, preferred_list: &Vec<String>, host_name: &str) -> (r:
    Reply<String>)
    ensures
        r@ == plain(
            joined(
                links(*config, host_name@, node_list(texts(preferred_list@), host_name@)),
                "\n"@,
            ),
        ),
{
    broadcast use crate::text::lemma_texts_push;

    let ghost list = node_list(texts(preferred_list@), host_name@);
    let ghost want = links(*config, host_name@, list);
    let nodes_of = process_preferred_list(preferred_list, host_name);
    let mut lines: Vec<String> = Vec::new();
    let mut i: usize = 0;
    while i < nodes_of.len()
        invariant
            i <= nodes_of@.len(),
            nodes(nodes_of@) == list,
            want == links(*config, host_name@, list),
            texts(lines@) == want.take(i as int),
        decreases nodes_of.len() - i,
    {
        assert(list[i as int] == nodes(nodes_of@)[i as int]);
        lines.push(write_link(config, host_name, &nodes_of[i]));
        assert(want.take(i + 1) =~= want.take(i as int).push(want[i as int]));
        i += 1;
    }
    assert(list.len() == nodes(nodes_of@).len());
    assert(want.take(i as int) =~= want);
    plain_document(join(&lines, "\n"))
}

// ---------------------------------------------------------------------------
// A document in YAML
// ---------------------------------------------------------------------------

/// The entry for a node.
pub open spec fn proxy(config: Config, host: Seq<char>, node: NodeView) -> Seq<char> {
    "- name: "@ + node.name + "\n  type: vless\n  server: "@ + node.address + "\n  port: "@
        + decimal(node.port as nat) + "\n  uuid: "@ + config.uuid@
        + "\n  udp: true\n  tls: true\n  sni: "@ + host
        + "\n  network: ws\n  ws-opts:\n    path: \"/?ed=2560\"\n    headers:\n      Host: "@ + host
        + "\n      User-Agent: Chrome"@
}

/// The entries for nodes.
pub open spec fn proxies(config: Config, host: Seq<char>, list: Seq<NodeView>) -> Seq<Seq<char>> {
    Seq::new(list.len(), |i: int| proxy(config, host, list[i]))
}

/// The names of nodes, as the members of a group.
pub open spec fn members(list: Seq<NodeView>) -> Seq<Seq<char>> {
    Seq::new(list.len(), |i: int| "    - "@ + list[i].name)
}

/// The whole document.
pub open spec fn yaml(config: Config, host: Seq<char>, list: Seq<NodeView>) -> Seq<char> {
    let group = joined(members(list), "\n"@);
    "proxies:\n"@ + joined(proxies(config, host, list), "\n"@)
        + "\nproxy-groups:\n- name: 海外规则\n  type: select\n  proxies:\n    - 延迟优选\n    - 故障转移\n    - DIRECT\n    - REJECT\n"@
        + group
        + "\n- name: 国内规则\n  type: select\n  proxies:\n    - DIRECT\n    - 延迟优选\n    - 故障转移\n    - REJECT\n"@
        + group
        + "\n- name: 广告屏蔽\n  type: select\n  proxies:\n    - REJECT\n    - DIRECT\n    - 延迟优选\n    - 故障转移\n"@
        + group
        + "\n- name: 延迟优选\n  type: url-test\n  url: https://www.google.com/generate_204   \n  interval: 30\n  tolerance: 50\n  proxies:\n"@
        + group
        + "\n- name: 故障转移\n  type: fallback\n  url: https://www.google.com/generate_204   \n  interval: 30\n  proxies:\n"@
        + group
        + "\nrules:\n  - GEOSITE,category-ads-all,广告屏蔽\n  - GEOSITE,cn,国内规则\n  - GEOIP,CN,国内规则,no-resolve\n  - MATCH,海外规则"@
}

fn write_proxy(config: &Config, host: &str, node: &NodeInfo) -> (out: String)
    ensures
        out@ == proxy(*config, host@, node@),
{
    let mut out = "- name: ".to_owned();
    out.append(node.name.as_str());
    out.append("\n  type: vless\n  server: ");
    out.append(node.address.as_str());
    out.append("\n  port: ");
    out.append(decimal_text(node.port as u64).as_str());
    out.append("\n  uuid: ");
    out.append(config.uuid.as_str());
    out.append("\n  udp: true\n  tls: true\n  sni: ");
    out.append(host);
    out.append(
        "\n  network: ws\n  ws-opts:\n    path: \"/?ed=2560\"\n    headers:\n      Host: ",
    );
    out.append(host);
    out.append("\n      User-Agent: Chrome");
    out
}

/// Makes the document for clients that read YAML.
pub fn clash_config_file(config: &Config, preferred_list: &Vec<String>, host_name: &str) -> (r:
    Reply<String>)
    ensures
        r@ == plain(yaml(*config, host_name@, node_list(texts(preferred_list@), host_name@))),
{
    broadcast use crate::text::lemma_texts_push;

    let ghost list = node_list(texts(preferred_list@), host_name@);
    let ghost want = proxies(*config, host_name@, list);
    let ghost want_names = members(list);
    let nodes_of = process_preferred_list(preferred_list, host_name);
    let mut entries: Vec<String> = Vec::new();
    let mut names: Vec<String> = Vec::new();
    let mut i: usize = 0;
    while i < nodes_of.len()
        invariant
            i <= nodes_of@.len(),
            nodes(nodes_of@) == list,
            want == proxies(*config, host_name@, list),
            want_names == members(list),
            texts(entries@) == want.take(i as int),
            texts(names@) == want_names.take(i as int),
        decreases nodes_of.len() - i,
    {
        assert(list[i as int] == nodes(nodes_of@)[i as int]);
        entries.push(write_proxy(config, host_name, &nodes_of[i]));
        let mut name = "    - ".to_owned();
        name.append(nodes_of[i].name.as_str());
        names.push(name);
        assert(want.take(i + 1) =~= want.take(i as int).push(want[i as int]));
        assert(want_names.take(i + 1) =~= want_names.take(i as int).push(want_names[i as int]));
        i += 1;
    }
    assert(list.len() == nodes(nodes_of@).len());
    assert(want.take(i as int) =~= want);
    assert(want_names.take(i as int) =~= want_names);
    let group = join(&names, "\n");
    let mut out = "proxies:\n".to_owned();
    out.append(join(&entries, "\n").as_str());
    out.append(
        "\nproxy-groups:\n- name: 海外规则\n  type: select\n  proxies:\n    - 延迟优选\n    - 故障转移\n    - DIRECT\n    - REJECT\n",
    );
    out.append(group.as_str());
    out.append(
        "\n- name: 国内规则\n  type: select\n  proxies:\n    - DIRECT\n    - 延迟优选\n    - 故障转移\n    - REJECT\n",
    );
    out.append(group.as_str());
    out.append(
        "\n- name: 广告屏蔽\n  type: select\n  proxies:\n    - REJECT\n    - DIRECT\n    - 延迟优选\n    - 故障转移\n",
    );
    out.append(group.as_str());
    out.append(
        "\n- name: 延迟优选\n  type: url-test\n  url: https://www.google.com/generate_204   \n  interval: 30\n  tolerance: 50\n  proxies:\n",
    );
    out.append(group.as_str());
    out.append(
        "\n- name: 故障转移\n  type: fallback\n  url: https://www.google.com/generate_204   \n  interval: 30\n  proxies:\n",
    );
    out.append(group.as_str());
    out.append(
        "\nrules:\n  - GEOSITE,category-ads-all,广告屏蔽\n  - GEOSITE,cn,国内规则\n  - GEOIP,CN,国内规则,no-resolve\n  - MATCH,海外规则",
    );
    plain_document(out)
}

// ---------------------------------------------------------------------------
// A page for people
// ---------------------------------------------------------------------------

/// The page that tells which clients can read the subscription.
pub open spec fn tips(config: Config) -> Seq<char> {
    "<title>订阅-"@ + config.sub_path@
        + "</title>\n        <style>\n            body {\n                font-size: 25px;\n                text-align: center;\n            }\n        </style>\n        <strong>请把链接导入 "@
        + config.clash_text() + " 或 "@ + config.vless_text() + "</strong>"@
}

/// Makes the page that tells which clients can read the subscription.
pub fn tips_page(config: &Config) -> (r: Reply<String>)
    ensures
        r@ == Reply::Html(tips(*config)),
{
    let mut out = "<title>订阅-".to_owned();
    out.append(config.sub_path.as_str());
    out.append(
        "</title>\n        <style>\n            body {\n                font-size: 25px;\n                text-align: center;\n            }\n        </style>\n        <strong>请把链接导入 ",
    );
    out.append(config.clash().as_str());
    out.append(" 或 ");
    out.append(config.vless().as_str());
    out.append("</strong>");
    Reply::Html(out)
}

// ---------------------------------------------------------------------------
// Any of them
// ---------------------------------------------------------------------------

/// Makes a document.
pub fn make_document(
    document: Document,
    config: &Config,
    preferred_list: &Vec<String>,
    host_name: &str,
) -> (r: Reply<String>)
    ensures
        r@ == (match document {
            Document::Links => plain(
                joined(
                    links(*config, host_name@, node_list(texts(preferred_list@), host_name@)),
                    "\n"@,
                ),
            ),
            Document::Yaml => plain(
                yaml(*config, host_name@, node_list(texts(preferred_list@), host_name@)),
            ),
            Document::Tips => Reply::Html(tips(*config)),
        }),
{
    match document {
        Document::Links => vless_config_file(config, preferred_list, host_name),
        Document::Yaml => clash_config_file(config, preferred_list, host_name),
        Document::Tips => tips_page(config),
    }
}

// ---------------------------------------------------------------------------
// Laws
// ---------------------------------------------------------------------------

/// The key, the host name and the entries of a list hold no line feed.
pub open spec fn single_lines(config: Config, host: Seq<char>, list: Seq<Seq<char>>) -> bool {
    &&& !config.uuid@.contains('\n')
    &&& !host.contains('\n')
    &&& forall|i: int| 0 <= i < list.len() ==> !(#[trigger] list[i]).contains('\n')
}

proof fn lemma_node_lacks_line_feed(list: Seq<Seq<char>>, host: Seq<char>, i: int)
    requires
        0 <= i <= list.len(),
        !host.contains('\n'),
        forall|k: int| 0 <= k < list.len() ==> !(#[trigger] list[k]).contains('\n'),
    ensures
        !node_list(list, host)[i].address.contains('\n'),
        !node_list(list, host)[i].name.contains('\n'),
{
    reveal_strlit("原生节点");
    reveal_strlit("节点 ");
    if i > 0 {
        lemma_address_lacks(list[i - 1], i as nat, '\n');
        lemma_name_lacks(list[i - 1], i as nat, '\n');
    }
}

proof fn lemma_link_lacks(config: Config, host: Seq<char>, node: NodeView)
    requires
        !config.uuid@.contains('\n'),
        !host.contains('\n'),
        !node.address.contains('\n'),
    ensures
        !link(config, host, node).contains('\n'),
{
    reveal_strlit("vless://");
    reveal_strlit("@");
    reveal_strlit(":");
    reveal_strlit("?encryption=none&security=tls&sni=");
    reveal_strlit("&fp=chrome&type=ws&host=");
    reveal_strlit("&path=");
    reveal_strlit("#");
    lemma_decimal_lacks(node.port as nat, '\n');
    lemma_url_encoded_lacks("/?ed=2560"@, '\n');
    lemma_url_encoded_lacks(node.name, '\n');
    let b = "vless://"@ + config.uuid@;
    let c = b + "@"@;
    let d = c + node.address;
    let e = d + ":"@;
    let f = e + decimal(node.port as nat);
    let g = f + "?encryption=none&security=tls&sni="@;
    let h = g + host;
    let i = h + "&fp=chrome&type=ws&host="@;
    let j = i + host;
    let k = j + "&path="@;
    let l = k + url_encoded("/?ed=2560"@);
    let m = l + "#"@;
    lemma_add_lacks("vless://"@, config.uuid@, '\n');
    lemma_add_lacks(b, "@"@, '\n');
    lemma_add_lacks(c, node.address, '\n');
    lemma_add_lacks(d, ":"@, '\n');
    lemma_add_lacks(e, decimal(node.port as nat), '\n');
    lemma_add_lacks(f, "?encryption=none&security=tls&sni="@, '\n');
    lemma_add_lacks(g, host, '\n');
    lemma_add_lacks(h, "&fp=chrome&type=ws&host="@, '\n');
    lemma_add_lacks(i, host, '\n');
    lemma_add_lacks(j, "&path="@, '\n');
    lemma_add_lacks(k, url_encoded("/?ed=2560"@), '\n');
    lemma_add_lacks(l, "#"@, '\n');
    lemma_add_lacks(m, url_encoded(node.name), '\n');
}

/// The list of links has exactly one line for each node, in order: one more than the preferred list
/// has entries, and each line is the link to the node at its place.
pub proof fn law_one_link_for_each_node(
    config: Config,
    host: Seq<char>,
    list: Seq<Seq<char>>,
    i: int,
)
    requires
        single_lines(config, host, list),
        0 <= i <= list.len(),
    ensures
        ({
            let document = joined(links(config, host, node_list(list, host)), "\n"@);
            let lines = parts_of(document, '\n');
            &&& lines.len() == list.len() + 1
            &&& lines[i] == link(config, host, node_list(list, host)[i])
        }),
{
    let found = node_list(list, host);
    let want = links(config, host, found);
    assert forall|k: int| 0 <= k < want.len() implies !(#[trigger] want[k]).contains('\n') by {
        lemma_node_lacks_line_feed(list, host, k);
        lemma_link_lacks(config, host, found[k]);
    }
    reveal_strlit("\n");
    assert("\n"@ =~= seq!['\n']);
    law_joined_is_taken_apart(want, '\n');
}

/// A client that takes a link apart finds the protocol and the key before the first `@`, the
/// address and the port before the `?`, the parameters between the `&`, with the host name as
/// `sni` and as `host` and the path percent-encoded, and behind the `#` the name of the node.
pub proof fn law_link_is_read_back(config: Config, host: Seq<char>, node: NodeView)
    requires
        !config.uuid@.contains('@'),
        !node.address.contains('?'),
        !host.contains('#'),
        !host.contains('&'),
    ensures
        ({
            let text = link(config, host, node);
            let behind = after_first(text, '@')->0;
            let query = after_first(behind, '?')->0;
            let parameters = parts_of(before_first(query, '#'), '&');
            &&& before_first(text, '@') == "vless://"@ + config.uuid@
            &&& after_first(text, '@') is Some
            &&& before_first(behind, '?') == node.address + seq![':'] + decimal(node.port as nat)
            &&& after_first(behind, '?') is Some
            &&& parameters.len() == 7
            &&& parameters.take(6) == seq![
                "encryption=none"@,
                "security=tls"@,
                "sni="@ + host,
                "fp=chrome"@,
                "type=ws"@,
                "host="@ + host,
            ]
            &&& parameters[6].take(5) == "path="@
            &&& url_decoded(parameters[6].skip(5)) == Some("/?ed=2560"@)
            &&& after_first(query, '#') == Some(url_encoded(node.name))
            &&& url_decoded(after_first(query, '#')->0) == Some(node.name)
        }),
{
    let front = "vless://"@ + config.uuid@;
    let place = node.address + seq![':'] + decimal(node.port as nat);
    let name = url_encoded(node.name);
    let path = url_encoded("/?ed=2560"@);
    let q1 = "encryption=none"@;
    let q2 = "security=tls"@;
    let q3 = "sni="@ + host;
    let q4 = "fp=chrome"@;
    let q5 = "type=ws"@;
    let q6 = "host="@ + host;
    let q7 = "path="@ + path;
    let amp = seq!['&'];
    let p2 = q1 + amp + q2;
    let p3 = p2 + amp + q3;
    let p4 = p3 + amp + q4;
    let p5 = p4 + amp + q5;
    let p6 = p5 + amp + q6;
    let p7 = p6 + amp + q7;
    let query = p7 + seq!['#'] + name;
    let behind = place + seq!['?'] + query;
    let text = link(config, host, node);
    reveal_strlit("encryption=none");
    reveal_strlit("security=tls");
    reveal_strlit("sni=");
    reveal_strlit("fp=chrome");
    reveal_strlit("type=ws");
    reveal_strlit("host=");
    reveal_strlit("path=");
    reveal_strlit("vless://");
    reveal_strlit("@");
    reveal_strlit(":");
    reveal_strlit("#");
    reveal_strlit("?encryption=none&security=tls&sni=");
    reveal_strlit("&fp=chrome&type=ws&host=");
    reveal_strlit("&path=");
    assert("?encryption=none&security=tls&sni="@ =~= seq!['?'] + (q1 + amp + q2 + amp + "sni="@));
    assert("&fp=chrome&type=ws&host="@ =~= amp + q4 + amp + q5 + amp + "host="@);
    assert("&path="@ =~= amp + "path="@);
    assert("@"@ =~= seq!['@']);
    assert(":"@ =~= seq![':']);
    assert("#"@ =~= seq!['#']);
    lemma_link_shape(
        front,
        place,
        q1 + amp + q2 + amp + "sni="@,
        host,
        amp + q4 + amp + q5 + amp + "host="@,
        amp + q7,
        name,
    );
    assert(p7 =~= q1 + amp + q2 + amp + "sni="@ + host + (amp + q4 + amp + q5 + amp + "host="@)
        + host + (amp + q7));
    assert(text =~= front + seq!['@'] + place + (seq!['?'] + (q1 + amp + q2 + amp + "sni="@)) + host
        + (amp + q4 + amp + q5 + amp + "host="@) + host + (amp + q7 + seq!['#']) + name);
    assert(text == front + seq!['@'] + behind);
    lemma_add_lacks("vless://"@, config.uuid@, '@');
    lemma_cut_first(front, '@', behind);
    lemma_decimal_lacks(node.port as nat, '?');
    lemma_add_lacks(node.address, seq![':'], '?');
    lemma_add_lacks(node.address + seq![':'], decimal(node.port as nat), '?');
    lemma_cut_first(place, '?', query);
    lemma_url_encoded_lacks("/?ed=2560"@, '#');
    lemma_url_encoded_lacks("/?ed=2560"@, '&');
    lemma_query_lacks(host, path);
    lemma_cut_first(p7, '#', name);
    lemma_add_lacks("sni="@, host, '&');
    lemma_add_lacks("host="@, host, '&');
    lemma_add_lacks("path="@, path, '&');
    law_parts_add(q1, '&', q2);
    law_parts_add(p2, '&', q3);
    law_parts_add(p3, '&', q4);
    law_parts_add(p4, '&', q5);
    law_parts_add(p5, '&', q6);
    law_parts_add(p6, '&', q7);
    law_parts_one(q1, '&');
    law_parts_one(q2, '&');
    law_parts_one(q3, '&');
    law_parts_one(q4, '&');
    law_parts_one(q5, '&');
    law_parts_one(q6, '&');
    law_parts_one(q7, '&');
    let found = parts_of(p7, '&');
    assert(found =~= seq![q1, q2, q3, q4, q5, q6, q7]);
    assert(found.take(6) =~= seq![q1, q2, q3, q4, q5, q6]);
    assert(q7.take(5) =~= "path="@);
    assert(q7.skip(5) =~= path);
    law_url_decoding_undoes_encoding("/?ed=2560"@);
    law_url_decoding_undoes_encoding(node.name);
}

proof fn lemma_query_lacks(host: Seq<char>, path: Seq<char>)
    requires
        !host.contains('#'),
        !path.contains('#'),
    ensures
        ({
            let amp = seq!['&'];
            let p2 = "encryption=none"@ + amp + "security=tls"@;
            let p3 = p2 + amp + ("sni="@ + host);
            let p4 = p3 + amp + "fp=chrome"@;
            let p5 = p4 + amp + "type=ws"@;
            let p6 = p5 + amp + ("host="@ + host);
            !(p6 + amp + ("path="@ + path)).contains('#')
        }),
{
    reveal_strlit("encryption=none");
    reveal_strlit("security=tls");
    reveal_strlit("sni=");
    reveal_strlit("fp=chrome");
    reveal_strlit("type=ws");
    reveal_strlit("host=");
    reveal_strlit("path=");
    let amp = seq!['&'];
    let p2 = "encryption=none"@ + amp + "security=tls"@;
    let p3 = p2 + amp + ("sni="@ + host);
    let p4 = p3 + amp + "fp=chrome"@;
    let p5 = p4 + amp + "type=ws"@;
    let p6 = p5 + amp + ("host="@ + host);
    lemma_add_lacks("encryption=none"@, amp, '#');
    lemma_add_lacks("encryption=none"@ + amp, "security=tls"@, '#');
    lemma_add_lacks("sni="@, host, '#');
    lemma_add_lacks(p2, amp, '#');
    lemma_add_lacks(p2 + amp, "sni="@ + host, '#');
    lemma_add_lacks(p3, amp, '#');
    lemma_add_lacks(p3 + amp, "fp=chrome"@, '#');
    lemma_add_lacks(p4, amp, '#');
    lemma_add_lacks(p4 + amp, "type=ws"@, '#');
    lemma_add_lacks("host="@, host, '#');
    lemma_add_lacks(p5, amp, '#');
    lemma_add_lacks(p5 + amp, "host="@ + host, '#');
    lemma_add_lacks(p6, amp, '#');
    lemma_add_lacks("path="@, path, '#');
    lemma_add_lacks(p6 + amp, "path="@ + path, '#');
}

/// The lines of the entry for a node.
pub open spec fn entry_lines(config: Config, host: Seq<char>, node: NodeView) -> Seq<Seq<char>> {
    seq![
        "- name: "@ + node.name,
        "  type: vless"@,
        "  server: "@ + node.address,
        "  port: "@ + decimal(node.port as nat),
        "  uuid: "@ + config.uuid@,
        "  udp: true"@,
        "  tls: true"@,
        "  sni: "@ + host,
        "  network: ws"@,
        "  ws-opts:"@,
        "    path: \"/?ed=2560\""@,
        "    headers:"@,
        "      Host: "@ + host,
        "      User-Agent: Chrome"@,
    ]
}

/// The lines of the entries for nodes, in order.
pub open spec fn entries_lines(config: Config, host: Seq<char>, list: Seq<NodeView>) -> Seq<
    Seq<char>,
>
    decreases list.len(),
{
    if list.len() == 0 {
        Seq::empty()
    } else {
        entries_lines(config, host, list.drop_last()) + entry_lines(config, host, list.last())
    }
}

/// The entry for a node in YAML has these lines, one key in each: name, type, server, port, key and
/// the host name as `sni` and as `Host`.
pub proof fn law_yaml_entry_lines(config: Config, host: Seq<char>, node: NodeView)
    requires
        !config.uuid@.contains('\n'),
        !host.contains('\n'),
        !node.address.contains('\n'),
        !node.name.contains('\n'),
    ensures
        parts_of(proxy(config, host, node), '\n') == entry_lines(config, host, node),
{
    reveal_with_fuel(lines_below, 6);
    lemma_decimal_lacks(node.port as nat, '\n');
    let none = Seq::<char>::empty();
    reveal_strlit("- name: ");
    reveal_strlit("\n  type: vless\n  server: ");
    reveal_strlit("\n  port: ");
    reveal_strlit("\n  uuid: ");
    reveal_strlit("\n  udp: true\n  tls: true\n  sni: ");
    reveal_strlit("\n  network: ws\n  ws-opts:\n    path: \"/?ed=2560\"\n    headers:\n      Host: ");
    reveal_strlit("\n      User-Agent: Chrome");
    reveal_strlit("  type: vless");
    reveal_strlit("  server: ");
    reveal_strlit("  port: ");
    reveal_strlit("  uuid: ");
    reveal_strlit("  udp: true");
    reveal_strlit("  tls: true");
    reveal_strlit("  sni: ");
    reveal_strlit("  network: ws");
    reveal_strlit("  ws-opts:");
    reveal_strlit("    path: \"/?ed=2560\"");
    reveal_strlit("    headers:");
    reveal_strlit("      Host: ");
    reveal_strlit("      User-Agent: Chrome");
    let t0 = "- name: "@ + node.name;
    lemma_add_lacks("- name: "@, node.name, '\n');
    law_parts_one(t0, '\n');
    let l1 = seq!["  type: vless"@, "  server: "@];
    assert("\n  type: vless\n  server: "@ =~= lines_below(l1));
    lemma_lines_below(t0, l1, node.address);
    let t1 = t0 + "\n  type: vless\n  server: "@ + node.address;
    let l2 = seq!["  port: "@];
    assert("\n  port: "@ =~= lines_below(l2));
    lemma_lines_below(t1, l2, decimal(node.port as nat));
    let t2 = t1 + "\n  port: "@ + decimal(node.port as nat);
    let l3 = seq!["  uuid: "@];
    assert("\n  uuid: "@ =~= lines_below(l3));
    lemma_lines_below(t2, l3, config.uuid@);
    let t3 = t2 + "\n  uuid: "@ + config.uuid@;
    let l4 = seq!["  udp: true"@, "  tls: true"@, "  sni: "@];
    assert("\n  udp: true\n  tls: true\n  sni: "@ =~= lines_below(l4));
    lemma_lines_below(t3, l4, host);
    let t4 = t3 + "\n  udp: true\n  tls: true\n  sni: "@ + host;
    let l5 = seq![
        "  network: ws"@,
        "  ws-opts:"@,
        "    path: \"/?ed=2560\""@,
        "    headers:"@,
        "      Host: "@,
    ];
    assert("\n  network: ws\n  ws-opts:\n    path: \"/?ed=2560\"\n    headers:\n      Host: "@ =~= lines_below(l5));
    lemma_lines_below(t4, l5, host);
    let t5 = t4 + "\n  network: ws\n  ws-opts:\n    path: \"/?ed=2560\"\n    headers:\n      Host: "@ + host;
    let l6 = seq!["      User-Agent: Chrome"@];
    assert("\n      User-Agent: Chrome"@ =~= lines_below(l6));
    lemma_lines_below(t5, l6, none);
    let t6 = t5 + "\n      User-Agent: Chrome"@ + none;
    assert(proxy(config, host, node) =~= t6);
    assert("      User-Agent: Chrome"@ + none =~= "      User-Agent: Chrome"@);
    assert(parts_of(t6, '\n') =~= entry_lines(config, host, node));
}

proof fn lemma_entries_lines(config: Config, host: Seq<char>, list: Seq<NodeView>)
    requires
        !config.uuid@.contains('\n'),
        !host.contains('\n'),
        forall|i: int|
            0 <= i < list.len() ==> !(#[trigger] list[i]).address.contains('\n')
                && !list[i].name.contains('\n'),
    ensures
        all_parts(proxies(config, host, list), '\n') == entries_lines(config, host, list),
    decreases list.len(),
{
    let made = proxies(config, host, list);
    if list.len() > 0 {
        let less = list.drop_last();
        assert forall|i: int| 0 <= i < less.len() implies !(#[trigger] less[i]).address.contains(
            '\n',
        ) && !less[i].name.contains('\n') by {
            assert(less[i] == list[i]);
        }
        lemma_entries_lines(config, host, less);
        assert(made.drop_last() =~= proxies(config, host, less));
        assert(list.last() == list[list.len() - 1]);
        law_yaml_entry_lines(config, host, list.last());
    } else {
        assert(all_parts(made, '\n') =~= entries_lines(config, host, list));
    }
}

/// The lines with the names of nodes, as the members of a group.
pub open spec fn member_lines(list: Seq<NodeView>) -> Seq<Seq<char>> {
    Seq::new(list.len(), |i: int| "    - "@ + list[i].name)
}

/// The document in YAML has these lines: the entries for all nodes, and five groups that each name
/// all of them, in the order of the list and behind the relay's own.
pub proof fn law_yaml_lines(config: Config, host: Seq<char>, list: Seq<Seq<char>>)
    requires
        single_lines(config, host, list),
    ensures
        ({
            let found = node_list(list, host);
            parts_of(yaml(config, host, found), '\n') == seq!["proxies:"@] + entries_lines(
                config,
                host,
                found,
            ) + seq![
                "proxy-groups:"@,
                "- name: 海外规则"@,
                "  type: select"@,
                "  proxies:"@,
                "    - 延迟优选"@,
                "    - 故障转移"@,
                "    - DIRECT"@,
                "    - REJECT"@,
            ] + member_lines(found) + seq![
                "- name: 国内规则"@,
                "  type: select"@,
                "  proxies:"@,
                "    - DIRECT"@,
                "    - 延迟优选"@,
                "    - 故障转移"@,
                "    - REJECT"@,
            ] + member_lines(found) + seq![
                "- name: 广告屏蔽"@,
                "  type: select"@,
                "  proxies:"@,
                "    - REJECT"@,
                "    - DIRECT"@,
                "    - 延迟优选"@,
                "    - 故障转移"@,
            ] + member_lines(found) + seq![
                "- name: 延迟优选"@,
                "  type: url-test"@,
                "  url: https://www.google.com/generate_204   "@,
                "  interval: 30"@,
                "  tolerance: 50"@,
                "  proxies:"@,
            ] + member_lines(found) + seq![
                "- name: 故障转移"@,
                "  type: fallback"@,
                "  url: https://www.google.com/generate_204   "@,
                "  interval: 30"@,
                "  proxies:"@,
            ] + member_lines(found) + seq![
                "rules:"@,
                "  - GEOSITE,category-ads-all,广告屏蔽"@,
                "  - GEOSITE,cn,国内规则"@,
                "  - GEOIP,CN,国内规则,no-resolve"@,
                "  - MATCH,海外规则"@,
            ]
        }),
{
    let found = node_list(list, host);
    assert forall|i: int| 0 <= i < found.len() implies !(#[trigger] found[i]).address.contains('\n')
        && !found[i].name.contains('\n') by {
        lemma_node_lacks_line_feed(list, host, i);
    }
    lemma_entries_lines(config, host, found);
    let entries = joined(proxies(config, host, found), "\n"@);
    let group = joined(members(found), "\n"@);
    reveal_strlit("\n");
    reveal_strlit("    - ");
    assert("\n"@ =~= seq!['\n']);
    law_joined_parts(proxies(config, host, found), '\n');
    assert(members(found) =~= member_lines(found));
    assert forall|i: int| 0 <= i < found.len() implies !(#[trigger] members(found)[i]).contains(
        '\n',
    ) by {
        assert(!found[i].name.contains('\n'));
        lemma_add_lacks("    - "@, found[i].name, '\n');
    }
    law_joined_is_taken_apart(members(found), '\n');
    reveal_strlit("proxies:");
    reveal_strlit("proxies:\n");
    assert("proxies:\n"@ =~= "proxies:"@ + seq!['\n']);
    law_parts_one("proxies:"@, '\n');
    law_parts_add("proxies:"@, '\n', entries);
    let t0 = "proxies:\n"@ + entries;
    lemma_group_lines();
    let l1 = seq![
        "proxy-groups:"@,
        "- name: 海外规则"@,
        "  type: select"@,
        "  proxies:"@,
        "    - 延迟优选"@,
        "    - 故障转移"@,
        "    - DIRECT"@,
        "    - REJECT"@,
    ];
    lemma_group_below(t0, l1, "\nproxy-groups:\n- name: 海外规则\n  type: select\n  proxies:\n    - 延迟优选\n    - 故障转移\n    - DIRECT\n    - REJECT\n"@, group);
    let t1 = t0 + "\nproxy-groups:\n- name: 海外规则\n  type: select\n  proxies:\n    - 延迟优选\n    - 故障转移\n    - DIRECT\n    - REJECT\n"@ + group;
    let l2 = seq![
        "- name: 国内规则"@,
        "  type: select"@,
        "  proxies:"@,
        "    - DIRECT"@,
        "    - 延迟优选"@,
        "    - 故障转移"@,
        "    - REJECT"@,
    ];
    lemma_group_below(t1, l2, "\n- name: 国内规则\n  type: select\n  proxies:\n    - DIRECT\n    - 延迟优选\n    - 故障转移\n    - REJECT\n"@, group);
    let t2 = t1 + "\n- name: 国内规则\n  type: select\n  proxies:\n    - DIRECT\n    - 延迟优选\n    - 故障转移\n    - REJECT\n"@ + group;
    let l3 = seq![
        "- name: 广告屏蔽"@,
        "  type: select"@,
        "  proxies:"@,
        "    - REJECT"@,
        "    - DIRECT"@,
        "    - 延迟优选"@,
        "    - 故障转移"@,
    ];
    lemma_group_below(t2, l3, "\n- name: 广告屏蔽\n  type: select\n  proxies:\n    - REJECT\n    - DIRECT\n    - 延迟优选\n    - 故障转移\n"@, group);
    let t3 = t2 + "\n- name: 广告屏蔽\n  type: select\n  proxies:\n    - REJECT\n    - DIRECT\n    - 延迟优选\n    - 故障转移\n"@ + group;
    let l4 = seq![
        "- name: 延迟优选"@,
        "  type: url-test"@,
        "  url: https://www.google.com/generate_204   "@,
        "  interval: 30"@,
        "  tolerance: 50"@,
        "  proxies:"@,
    ];
    lemma_group_below(t3, l4, "\n- name: 延迟优选\n  type: url-test\n  url: https://www.google.com/generate_204   \n  interval: 30\n  tolerance: 50\n  proxies:\n"@, group);
    let t4 = t3 + "\n- name: 延迟优选\n  type: url-test\n  url: https://www.google.com/generate_204   \n  interval: 30\n  tolerance: 50\n  proxies:\n"@ + group;
    let l5 = seq![
        "- name: 故障转移"@,
        "  type: fallback"@,
        "  url: https://www.google.com/generate_204   "@,
        "  interval: 30"@,
        "  proxies:"@,
    ];
    lemma_group_below(t4, l5, "\n- name: 故障转移\n  type: fallback\n  url: https://www.google.com/generate_204   \n  interval: 30\n  proxies:\n"@, group);
    let t5 = t4 + "\n- name: 故障转移\n  type: fallback\n  url: https://www.google.com/generate_204   \n  interval: 30\n  proxies:\n"@ + group;
    let l6 = seq![
        "rules:"@,
        "  - GEOSITE,category-ads-all,广告屏蔽"@,
        "  - GEOSITE,cn,国内规则"@,
        "  - GEOIP,CN,国内规则,no-resolve"@,
        "  - MATCH,海外规则"@,
    ];
    let none = Seq::<char>::empty();
    lemma_lines_below(t5, l6, none);
    let t6 = t5 + "\nrules:\n  - GEOSITE,category-ads-all,广告屏蔽\n  - GEOSITE,cn,国内规则\n  - GEOIP,CN,国内规则,no-resolve\n  - MATCH,海外规则"@;
    assert(t6 + none =~= t6);
    assert(l6.drop_last().push(l6.last() + none) =~= l6) by {
        assert(l6.last() + none =~= l6.last());
    }
    assert(yaml(config, host, found) == t6);
}

/// The lines between two lists of members, and how they begin and end.
proof fn lemma_group_below(s: Seq<char>, lines: Seq<Seq<char>>, text: Seq<char>, group: Seq<char>)
    requires
        lines.len() > 0,
        forall|i: int| 0 <= i < lines.len() ==> !(#[trigger] lines[i]).contains('\n'),
        text == lines_below(lines) + seq!['\n'],
    ensures
        parts_of(s + text + group, '\n') == parts_of(s, '\n') + lines + parts_of(group, '\n'),
{
    let none = Seq::<char>::empty();
    let above = s + lines_below(lines);
    lemma_lines_below(s, lines, none);
    assert(above + none =~= above);
    assert(lines.last() + none =~= lines.last());
    assert(lines.drop_last().push(lines.last()) =~= lines);
    assert(s + text + group =~= above + seq!['\n'] + group);
    law_parts_add(above, '\n', group);
}

proof fn lemma_group_lines()
    ensures
        "\nproxy-groups:\n- name: 海外规则\n  type: select\n  proxies:\n    - 延迟优选\n    - 故障转移\n    - DIRECT\n    - REJECT\n"@ == lines_below(
            seq![
                "proxy-groups:"@,
                "- name: 海外规则"@,
                "  type: select"@,
                "  proxies:"@,
                "    - 延迟优选"@,
                "    - 故障转移"@,
                "    - DIRECT"@,
                "    - REJECT"@,
            ],
        ) + seq!['\n'],
        "\n- name: 国内规则\n  type: select\n  proxies:\n    - DIRECT\n    - 延迟优选\n    - 故障转移\n    - REJECT\n"@ == lines_below(
            seq![
                "- name: 国内规则"@,
                "  type: select"@,
                "  proxies:"@,
                "    - DIRECT"@,
                "    - 延迟优选"@,
                "    - 故障转移"@,
                "    - REJECT"@,
            ],
        ) + seq!['\n'],
        "\n- name: 广告屏蔽\n  type: select\n  proxies:\n    - REJECT\n    - DIRECT\n    - 延迟优选\n    - 故障转移\n"@ == lines_below(
            seq![
                "- name: 广告屏蔽"@,
                "  type: select"@,
                "  proxies:"@,
                "    - REJECT"@,
                "    - DIRECT"@,
                "    - 延迟优选"@,
                "    - 故障转移"@,
            ],
        ) + seq!['\n'],
        "\n- name: 延迟优选\n  type: url-test\n  url: https://www.google.com/generate_204   \n  interval: 30\n  tolerance: 50\n  proxies:\n"@ == lines_below(
            seq![
                "- name: 延迟优选"@,
                "  type: url-test"@,
                "  url: https://www.google.com/generate_204   "@,
                "  interval: 30"@,
                "  tolerance: 50"@,
                "  proxies:"@,
            ],
        ) + seq!['\n'],
        "\n- name: 故障转移\n  type: fallback\n  url: https://www.google.com/generate_204   \n  interval: 30\n  proxies:\n"@ == lines_below(
            seq![
                "- name: 故障转移"@,
                "  type: fallback"@,
                "  url: https://www.google.com/generate_204   "@,
                "  interval: 30"@,
                "  proxies:"@,
            ],
        ) + seq!['\n'],
        "\nrules:\n  - GEOSITE,category-ads-all,广告屏蔽\n  - GEOSITE,cn,国内规则\n  - GEOIP,CN,国内规则,no-resolve\n  - MATCH,海外规则"@ == lines_below(
            seq![
                "rules:"@,
                "  - GEOSITE,category-ads-all,广告屏蔽"@,
                "  - GEOSITE,cn,国内规则"@,
                "  - GEOIP,CN,国内规则,no-resolve"@,
                "  - MATCH,海外规则"@,
            ],
        ),
        !("proxy-groups:"@).contains('\n'),
        !("- name: 海外规则"@).contains('\n'),
        !("  type: select"@).contains('\n'),
        !("  proxies:"@).contains('\n'),
        !("    - 延迟优选"@).contains('\n'),
        !("    - 故障转移"@).contains('\n'),
        !("    - DIRECT"@).contains('\n'),
        !("    - REJECT"@).contains('\n'),
        !("- name: 国内规则"@).contains('\n'),
        !("- name: 广告屏蔽"@).contains('\n'),
        !("- name: 延迟优选"@).contains('\n'),
        !("  type: url-test"@).contains('\n'),
        !("  url: https://www.google.com/generate_204   "@).contains('\n'),
        !("  interval: 30"@).contains('\n'),
        !("  tolerance: 50"@).contains('\n'),
        !("- name: 故障转移"@).contains('\n'),
        !("  type: fallback"@).contains('\n'),
        !("rules:"@).contains('\n'),
        !("  - GEOSITE,category-ads-all,广告屏蔽"@).contains('\n'),
        !("  - GEOSITE,cn,国内规则"@).contains('\n'),
        !("  - GEOIP,CN,国内规则,no-resolve"@).contains('\n'),
        !("  - MATCH,海外规则"@).contains('\n'),
{
    reveal_with_fuel(lines_below, 10);
    reveal_strlit("proxy-groups:");
    reveal_strlit("- name: 海外规则");
    reveal_strlit("  type: select");
    reveal_strlit("  proxies:");
    reveal_strlit("    - 延迟优选");
    reveal_strlit("    - 故障转移");
    reveal_strlit("    - DIRECT");
    reveal_strlit("    - REJECT");
    reveal_strlit("- name: 国内规则");
    reveal_strlit("- name: 广告屏蔽");
    reveal_strlit("- name: 延迟优选");
    reveal_strlit("  type: url-test");
    reveal_strlit("  url: https://www.google.com/generate_204   ");
    reveal_strlit("  interval: 30");
    reveal_strlit("  tolerance: 50");
    reveal_strlit("- name: 故障转移");
    reveal_strlit("  type: fallback");
    reveal_strlit("rules:");
    reveal_strlit("  - GEOSITE,category-ads-all,广告屏蔽");
    reveal_strlit("  - GEOSITE,cn,国内规则");
    reveal_strlit("  - GEOIP,CN,国内规则,no-resolve");
    reveal_strlit("  - MATCH,海外规则");
    assert("\nproxy-groups:\n- name: 海外规则\n  type: select\n  proxies:\n    - 延迟优选\n    - 故障转移\n    - DIRECT\n    - REJECT\n"@ =~= lines_below(seq!["proxy-groups:"@, "- name: 海外规则"@, "  type: select"@, "  proxies:"@, "    - 延迟优选"@, "    - 故障转移"@, "    - DIRECT"@, "    - REJECT"@]) + seq!['\n']) by {
        reveal_strlit("\nproxy-groups:\n- name: 海外规则\n  type: select\n  proxies:\n    - 延迟优选\n    - 故障转移\n    - DIRECT\n    - REJECT\n");
    }
    assert("\n- name: 国内规则\n  type: select\n  proxies:\n    - DIRECT\n    - 延迟优选\n    - 故障转移\n    - REJECT\n"@ =~= lines_below(seq!["- name: 国内规则"@, "  type: select"@, "  proxies:"@, "    - DIRECT"@, "    - 延迟优选"@, "    - 故障转移"@, "    - REJECT"@]) + seq!['\n']) by {
        reveal_strlit("\n- name: 国内规则\n  type: select\n  proxies:\n    - DIRECT\n    - 延迟优选\n    - 故障转移\n    - REJECT\n");
    }
    assert("\n- name: 广告屏蔽\n  type: select\n  proxies:\n    - REJECT\n    - DIRECT\n    - 延迟优选\n    - 故障转移\n"@ =~= lines_below(seq!["- name: 广告屏蔽"@, "  type: select"@, "  proxies:"@, "    - REJECT"@, "    - DIRECT"@, "    - 延迟优选"@, "    - 故障转移"@]) + seq!['\n']) by {
        reveal_strlit("\n- name: 广告屏蔽\n  type: select\n  proxies:\n    - REJECT\n    - DIRECT\n    - 延迟优选\n    - 故障转移\n");
    }
    assert("\n- name: 延迟优选\n  type: url-test\n  url: https://www.google.com/generate_204   \n  interval: 30\n  tolerance: 50\n  proxies:\n"@ =~= lines_below(seq!["- name: 延迟优选"@, "  type: url-test"@, "  url: https://www.google.com/generate_204   "@, "  interval: 30"@, "  tolerance: 50"@, "  proxies:"@]) + seq!['\n']) by {
        reveal_strlit("\n- name: 延迟优选\n  type: url-test\n  url: https://www.google.com/generate_204   \n  interval: 30\n  tolerance: 50\n  proxies:\n");
    }
    assert("\n- name: 故障转移\n  type: fallback\n  url: https://www.google.com/generate_204   \n  interval: 30\n  proxies:\n"@ =~= lines_below(seq!["- name: 故障转移"@, "  type: fallback"@, "  url: https://www.google.com/generate_204   "@, "  interval: 30"@, "  proxies:"@]) + seq!['\n']) by {
        reveal_strlit("\n- name: 故障转移\n  type: fallback\n  url: https://www.google.com/generate_204   \n  interval: 30\n  proxies:\n");
    }
    assert("\nrules:\n  - GEOSITE,category-ads-all,广告屏蔽\n  - GEOSITE,cn,国内规则\n  - GEOIP,CN,国内规则,no-resolve\n  - MATCH,海外规则"@ =~= lines_below(seq!["rules:"@, "  - GEOSITE,category-ads-all,广告屏蔽"@, "  - GEOSITE,cn,国内规则"@, "  - GEOIP,CN,国内规则,no-resolve"@, "  - MATCH,海外规则"@])) by {
        reveal_strlit("\nrules:\n  - GEOSITE,category-ads-all,广告屏蔽\n  - GEOSITE,cn,国内规则\n  - GEOIP,CN,国内规则,no-resolve\n  - MATCH,海外规则");
    }
}

/// A page made of fixed texts around the secret path and the names of the two clients.
pub open spec fn page_around(
    config: Config,
    start: Seq<char>,
    middle: Seq<char>,
    end: Seq<char>,
) -> Seq<char> {
    start + config.sub_path@ + middle + config.clash_text() + " 或 "@ + config.vless_text() + end
}

/// The pages for people of any two settings differ in nothing but the secret path, behind the
/// title's beginning, and the names of the two clients, behind the call to import the link.
pub proof fn law_tips_pages_differ_in_names_only(a: Config, b: Config)
    ensures
        exists|start: Seq<char>, middle: Seq<char>, end: Seq<char>|
            {
                &&& tips(a) == #[trigger] page_around(a, start, middle, end)
                &&& tips(b) == page_around(b, start, middle, end)
                &&& start.len() >= "<title>订阅-"@.len()
                &&& start.skip(start.len() - "<title>订阅-"@.len()) == "<title>订阅-"@
                &&& middle.len() >= "<strong>请把链接导入 "@.len()
                &&& middle.skip(middle.len() - "<strong>请把链接导入 "@.len())
                    == "<strong>请把链接导入 "@
            },
{
    let start = "<title>订阅-"@;
    let middle = "</title>\n        <style>\n            body {\n                font-size: 25px;\n                text-align: center;\n            }\n        </style>\n        <strong>请把链接导入 "@;
    let end = "</strong>"@;
    reveal_strlit("<strong>请把链接导入 ");
    reveal_strlit("<title>订阅-");
    reveal_strlit("</title>\n        <style>\n            body {\n                font-size: 25px;\n                text-align: center;\n            }\n        </style>\n        <strong>请把链接导入 ");
    assert(start.skip(start.len() - "<title>订阅-"@.len()) =~= "<title>订阅-"@);
    assert(middle.skip(middle.len() - "<strong>请把链接导入 "@.len()) =~= "<strong>请把链接导入 "@);
    assert(tips(a) == page_around(a, start, middle, end));
    assert(tips(b) == page_around(b, start, middle, end));
}

} // verus!
