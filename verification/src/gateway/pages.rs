//! The documents of a subscription.

use super::config::AppConfig;
use super::nodes::{lemma_address_lacks, lemma_name_lacks, node_list, nodes, process_nodes};
use super::routes::Document;
use crate::codec::{
    law_url_decoding_undoes_encoding, lemma_url_encoded_lacks, url_decoded, url_encode, url_encoded,
};
use crate::preferred::NodeView;
use crate::reply::{plain, plain_document, Reply};
use crate::text::{
    after_first, all_parts, before_first, decimal, decimal_text, join, joined,
    law_joined_is_taken_apart, law_joined_parts, law_parts_add, law_parts_one, lemma_add_lacks,
    lemma_cut_first, lemma_decimal_lacks, lemma_lines_below, lines_below, parts_of, texts,
};
use vstd::prelude::*;

verus! {

// ---------------------------------------------------------------------------
// A list of links
// ---------------------------------------------------------------------------

/// The link to a node.
pub open spec fn link(config: AppConfig, host: Seq<char>, node: NodeView) -> Seq<char> {
    config.vless_text() + "://"@ + config.uuid@ + "@"@ + node.address + ":"@ + decimal(
        node.port as nat,
    ) + "?encryption=none&security=tls&sni="@ + host + "&fp=chrome&type=ws&host="@ + host
        + "&path=%2F%3Fed%3D2560#"@ + url_encoded(node.name)
}

/// The links to nodes.
pub open spec fn links(config: AppConfig, host: Seq<char>, list: Seq<NodeView>) -> Seq<Seq<char>> {
    Seq::new(list.len(), |i: int| link(config, host, list[i]))
}

fn write_link(config: &AppConfig, host: &str, node: &(String, u16, String)) -> (out: String)
    ensures
        out@ == link(
            *config,
            host@,
            NodeView { address: node.0@, port: node.1, name: node.2@ },
        ),
{
    let mut out = config.vless();
    out.append("://");
    out.append(config.uuid.as_str());
    out.append("@");
    out.append(node.0.as_str());
    out.append(":");
    out.append(decimal_text(node.1 as u64).as_str());
    out.append("?encryption=none&security=tls&sni=");
    out.append(host);
    out.append("&fp=chrome&type=ws&host=");
    out.append(host);
    out.append("&path=%2F%3Fed%3D2560#");
    out.append(url_encode(node.2.as_str()).as_str());
    out
}

/// Makes the document for clients that read links: one link in each line, first the gateway's own
/// and then those to the preferred nodes.
pub fn generate_v2ray_config(host: &str, config: &AppConfig, preferred_list: Vec<String>) -> (r:
    Reply<String>)
    ensures
        r@ == plain(
            joined(links(*config, host@, node_list(texts(preferred_list@), host@)), "\n"@),
        ),
{
    broadcast use crate::text::lemma_texts_push;

    let ghost list = node_list(texts(preferred_list@), host@);
    let nodes_of = process_nodes(preferred_list, host);
    let mut lines: Vec<String> = Vec::new();
    let mut i: usize = 0;
    while i < nodes_of.len()
        invariant
            i <= nodes_of@.len(),
            nodes(nodes_of@) == list,
            texts(lines@) == links(*config, host@, list).take(i as int),
        decreases nodes_of.len() - i,
    {
        assert(list[i as int] == nodes(nodes_of@)[i as int]);
        lines.push(write_link(config, host, &nodes_of[i]));
        assert(links(*config, host@, list).take(i + 1) =~= links(*config, host@, list).take(
            i as int,
        ).push(links(*config, host@, list)[i as int]));
        i += 1;
    }
    assert(list.len() == nodes(nodes_of@).len());
    assert(links(*config, host@, list).take(i as int) =~= links(*config, host@, list));
    plain_document(join(&lines, "\n"))
}

// ---------------------------------------------------------------------------
// A document in YAML
// ---------------------------------------------------------------------------

/// The entry for a node.
pub open spec fn proxy(config: AppConfig, host: Seq<char>, node: NodeView) -> Seq<char> {
    "  - name: "@ + node.name + "\n    type: "@ + config.vless_text() + "\n    server: "@
        + node.address + "\n    port: "@ + decimal(node.port as nat) + "\n    uuid: "@
        + config.uuid@ + "\n    udp: true\n    tls: true\n    sni: "@ + host
        + "\n    network: ws\n    ws-opts:\n      path: \"/?ed=2560\"\n      headers:\n        Host: "@
        + host
}

/// The entries for nodes.
pub open spec fn proxies(config: AppConfig, host: Seq<char>, list: Seq<NodeView>) -> Seq<
    Seq<char>,
> {
    Seq::new(list.len(), |i: int| proxy(config, host, list[i]))
}

/// The names of nodes, as the members of a group.
pub open spec fn members(list: Seq<NodeView>) -> Seq<Seq<char>> {
    Seq::new(list.len(), |i: int| "    - "@ + list[i].name)
}

/// The whole document.
pub open spec fn yaml(config: AppConfig, host: Seq<char>, list: Seq<NodeView>) -> Seq<char> {
    "proxies:\n"@ + joined(proxies(config, host, list), "\n"@)
        + "\n\nproxy-groups:\n  - name: 节点选择\n    type: select\n    proxies:\n"@ + joined(
        members(list),
        "\n"@,
    )
        + "\n  - name: 自动选择\n    type: url-test\n    url: https://www.google.com/generate_204\n    interval: 300\n    proxies:\n"@
        + joined(members(list), "\n"@) + "\n\nrules:\n  - MATCH,节点选择\n"@
}

fn write_proxy(config: &AppConfig, host: &str, node: &(String, u16, String)) -> (out: String)
    ensures
        out@ == proxy(
            *config,
            host@,
            NodeView { address: node.0@, port: node.1, name: node.2@ },
        ),
{
    let mut out = "  - name: ".to_owned();
    out.append(node.2.as_str());
    out.append("\n    type: ");
    out.append(config.vless().as_str());
    out.append("\n    server: ");
    out.append(node.0.as_str());
    out.append("\n    port: ");
    out.append(decimal_text(node.1 as u64).as_str());
    out.append("\n    uuid: ");
    out.append(config.uuid.as_str());
    out.append("\n    udp: true\n    tls: true\n    sni: ");
    out.append(host);
    out.append(
        "\n    network: ws\n    ws-opts:\n      path: \"/?ed=2560\"\n      headers:\n        Host: ",
    );
    out.append(host);
    out
}

/// Makes the document for clients that read YAML.
pub fn generate_clash_config(host: &str, config: &AppConfig, preferred_list: Vec<String>) -> (r:
    Reply<String>)
    ensures
        r@ == plain(yaml(*config, host@, node_list(texts(preferred_list@), host@))),
{
    broadcast use crate::text::lemma_texts_push;

    let ghost list = node_list(texts(preferred_list@), host@);
    let nodes_of = process_nodes(preferred_list, host);
    let mut entries: Vec<String> = Vec::new();
    let mut names: Vec<String> = Vec::new();
    let mut i: usize = 0;
    while i < nodes_of.len()
        invariant
            i <= nodes_of@.len(),
            nodes(nodes_of@) == list,
            texts(entries@) == proxies(*config, host@, list).take(i as int),
            texts(names@) == members(list).take(i as int),
        decreases nodes_of.len() - i,
    {
        assert(list[i as int] == nodes(nodes_of@)[i as int]);
        entries.push(write_proxy(config, host, &nodes_of[i]));
        let mut name = "    - ".to_owned();
        name.append(nodes_of[i].2.as_str());
        names.push(name);
        assert(proxies(*config, host@, list).take(i + 1) =~= proxies(*config, host@, list).take(
            i as int,
        ).push(proxies(*config, host@, list)[i as int]));
        assert(members(list).take(i + 1) =~= members(list).take(i as int).push(
            members(list)[i as int],
        ));
        i += 1;
    }
    assert(list.len() == nodes(nodes_of@).len());
    assert(proxies(*config, host@, list).take(i as int) =~= proxies(*config, host@, list));
    assert(members(list).take(i as int) =~= members(list));
    let group = join(&names, "\n");
    let mut out = "proxies:\n".to_owned();
    out.append(join(&entries, "\n").as_str());
    out.append("\n\nproxy-groups:\n  - name: 节点选择\n    type: select\n    proxies:\n");
    out.append(group.as_str());
    out.append(
        "\n  - name: 自动选择\n    type: url-test\n    url: https://www.google.com/generate_204\n    interval: 300\n    proxies:\n",
    );
    out.append(group.as_str());
    out.append("\n\nrules:\n  - MATCH,节点选择\n");
    plain_document(out)
}

// ---------------------------------------------------------------------------
// A page for people
// ---------------------------------------------------------------------------

/// The page that tells which clients can read the subscription.
pub open spec fn tips(config: AppConfig) -> Seq<char> {
    "\n<!DOCTYPE html>\n<html>\n<head>\n    <title>订阅-"@ + config.sub_path@
        + "</title>\n    <meta charset=\"utf-8\">\n    <style>\n      body { font-size: 25px; text-align: center; font-family: sans-serif; }\n      strong { color: #4a4a4a; }\n    </style>\n</head>\n<body>\n    <strong>请把链接导入 "@
        + config.clash_text() + " 或 "@ + config.v2ray_text()
        + " 客户端</strong>\n</body>\n</html>\n"@
}

/// Makes the page that tells which clients can read the subscription.
pub fn tips_page(config: &AppConfig) -> (r: Reply<String>)
    ensures
        r@ == Reply::Html(tips(*config)),
{
    let mut out = "\n<!DOCTYPE html>\n<html>\n<head>\n    <title>订阅-".to_owned();
    out.append(config.sub_path.as_str());
    out.append(
        "</title>\n    <meta charset=\"utf-8\">\n    <style>\n      body { font-size: 25px; text-align: center; font-family: sans-serif; }\n      strong { color: #4a4a4a; }\n    </style>\n</head>\n<body>\n    <strong>请把链接导入 ",
    );
    out.append(config.clash().as_str());
    out.append(" 或 ");
    out.append(config.v2ray().as_str());
    out.append(" 客户端</strong>\n</body>\n</html>\n");
    Reply::Html(out)
}

// ---------------------------------------------------------------------------
// Any of them
// ---------------------------------------------------------------------------

/// Whether a document names the preferred nodes.
pub fn names_nodes(document: Document) -> (yes: bool)
    ensures
        yes == (document != Document::Tips),
{
    document != Document::Tips
}

/// Makes a document.
pub fn make_document(
    document: Document,
    host: &str,
    config: &AppConfig,
    preferred_list: Vec<String>,
) -> (r: Reply<String>)
    ensures
        r@ == (match document {
            Document::V2ray => plain(
                joined(links(*config, host@, node_list(texts(preferred_list@), host@)), "\n"@),
            ),
            Document::Clash => plain(
                yaml(*config, host@, node_list(texts(preferred_list@), host@)),
            ),
            Document::Tips => Reply::Html(tips(*config)),
        }),
{
    match document {
        Document::V2ray => generate_v2ray_config(host, config, preferred_list),
        Document::Clash => generate_clash_config(host, config, preferred_list),
        Document::Tips => tips_page(config),
    }
}

// ---------------------------------------------------------------------------
// Laws
// ---------------------------------------------------------------------------

/// The settings, the host name and the entries of a list hold no line feed.
pub open spec fn single_lines(config: AppConfig, host: Seq<char>, list: Seq<Seq<char>>) -> bool {
    &&& !config.vless_text().contains('\n')
    &&& !config.uuid@.contains('\n')
    &&& !host.contains('\n')
    &&& forall|i: int| 0 <= i < list.len() ==> !(#[trigger] list[i]).contains('\n')
}

proof fn lemma_node_lacks_line_feed(list: Seq<Seq<char>>, host: Seq<char>, i: int)
    requires
        0 <= i <= list.len(),
        !host.contains('\n'),
        forall|k: int| 0 <= k < list.len() ==> !(#[trigger] list[k]).contains('\n'),
    ensures
        !node_list(list, host)[i].address.contains('\n'),
        !node_list(list, host)[i].name.contains('\n'),
{
    reveal_strlit("#原生节点");
    reveal_strlit("节点 ");
    let line = if i == 0 {
        host + "#原生节点"@
    } else {
        list[i - 1]
    };
    lemma_add_lacks(host, "#原生节点"@, '\n');
    lemma_address_lacks(line, (i + 1) as nat, '\n');
    lemma_name_lacks(line, (i + 1) as nat, '\n');
}

proof fn lemma_link_lacks(config: AppConfig, host: Seq<char>, node: NodeView)
    requires
        !config.vless_text().contains('\n'),
        !config.uuid@.contains('\n'),
        !host.contains('\n'),
        !node.address.contains('\n'),
    ensures
        !link(config, host, node).contains('\n'),
{
    reveal_strlit("://");
    reveal_strlit("@");
    reveal_strlit(":");
    reveal_strlit("?encryption=none&security=tls&sni=");
    reveal_strlit("&fp=chrome&type=ws&host=");
    reveal_strlit("&path=%2F%3Fed%3D2560#");
    lemma_decimal_lacks(node.port as nat, '\n');
    lemma_url_encoded_lacks(node.name, '\n');
    let a = config.vless_text() + "://"@;
    let b = a + config.uuid@;
    let c = b + "@"@;
    let d = c + node.address;
    let e = d + ":"@;
    let f = e + decimal(node.port as nat);
    let g = f + "?encryption=none&security=tls&sni="@;
    let h = g + host;
    let i = h + "&fp=chrome&type=ws&host="@;
    let j = i + host;
    let k = j + "&path=%2F%3Fed%3D2560#"@;
    lemma_add_lacks(config.vless_text(), "://"@, '\n');
    lemma_add_lacks(a, config.uuid@, '\n');
    lemma_add_lacks(b, "@"@, '\n');
    lemma_add_lacks(c, node.address, '\n');
    lemma_add_lacks(d, ":"@, '\n');
    lemma_add_lacks(e, decimal(node.port as nat), '\n');
    lemma_add_lacks(f, "?encryption=none&security=tls&sni="@, '\n');
    lemma_add_lacks(g, host, '\n');
    lemma_add_lacks(h, "&fp=chrome&type=ws&host="@, '\n');
    lemma_add_lacks(i, host, '\n');
    lemma_add_lacks(j, "&path=%2F%3Fed%3D2560#"@, '\n');
    lemma_add_lacks(k, url_encoded(node.name), '\n');
}

/// The list of links has exactly one line for each node, in order: one more than the preferred list
/// has entries, and each line is the link to the node at its place.
pub proof fn law_one_link_for_each_node(
    config: AppConfig,
    host: Seq<char>,
    list: Seq<Seq<char>>,
    i: int,
)
    requires
        single_lines(config, host, list),
        0 <= i <= list.len(),
    ensures
        ({
            let document = joined(links(config, host, node_list(list, host)), "\n"@);
            let lines = parts_of(document, '\n');
            &&& lines.len() == list.len() + 1
            &&& lines[i] == link(config, host, node_list(list, host)[i])
        }),
{
    let found = node_list(list, host);
    let want = links(config, host, found);
    assert forall|k: int| 0 <= k < want.len() implies !(#[trigger] want[k]).contains('\n') by {
        lemma_node_lacks_line_feed(list, host, k);
        lemma_link_lacks(config, host, found[k]);
    }
    reveal_strlit("\n");
    assert("\n"@ =~= seq!['\n']);
    law_joined_is_taken_apart(want, '\n');
}

/// A client that takes a link apart finds the protocol and the key before the first `@`, the
/// address and the port before the `?`, the parameters between the `&`, with the host name as
/// `sni` and as `host`, and behind the `#` the name of the node.
pub proof fn law_link_is_read_back(config: AppConfig, host: Seq<char>, node: NodeView)
    requires
        !config.vless_text().contains('@'),
        !config.uuid@.contains('@'),
        !node.address.contains('?'),
        !host.contains('#'),
        !host.contains('&'),
    ensures
        ({
            let text = link(config, host, node);
            let behind = after_first(text, '@')->0;
            let query = after_first(behind, '?')->0;
            &&& before_first(text, '@') == config.vless_text() + "://"@ + config.uuid@
            &&& after_first(text, '@') is Some
            &&& before_first(behind, '?') == node.address + seq![':'] + decimal(node.port as nat)
            &&& after_first(behind, '?') is Some
            &&& parts_of(before_first(query, '#'), '&') == seq![
                "encryption=none"@,
                "security=tls"@,
                "sni="@ + host,
                "fp=chrome"@,
                "type=ws"@,
                "host="@ + host,
                "path=%2F%3Fed%3D2560"@,
            ]
            &&& after_first(query, '#') == Some(url_encoded(node.name))
            &&& url_decoded(after_first(query, '#')->0) == Some(node.name)
        }),
{
    let front = config.vless_text() + "://"@ + config.uuid@;
    let place = node.address + seq![':'] + decimal(node.port as nat);
    let name = url_encoded(node.name);
    let q1 = "encryption=none"@;
    let q2 = "security=tls"@;
    let q3 = "sni="@ + host;
    let q4 = "fp=chrome"@;
    let q5 = "type=ws"@;
    let q6 = "host="@ + host;
    let q7 = "path=%2F%3Fed%3D2560"@;
    let amp = seq!['&'];
    let p2 = q1 + amp + q2;
    let p3 = p2 + amp + q3;
    let p4 = p3 + amp + q4;
    let p5 = p4 + amp + q5;
    let p6 = p5 + amp + q6;
    let p7 = p6 + amp + q7;
    let query = p7 + seq!['#'] + name;
    let behind = place + seq!['?'] + query;
    let text = link(config, host, node);
    reveal_strlit("encryption=none");
    reveal_strlit("security=tls");
    reveal_strlit("sni=");
    reveal_strlit("fp=chrome");
    reveal_strlit("type=ws");
    reveal_strlit("host=");
    reveal_strlit("path=%2F%3Fed%3D2560");
    reveal_strlit("://");
    reveal_strlit("@");
    reveal_strlit(":");
    reveal_strlit("?encryption=none&security=tls&sni=");
    reveal_strlit("&fp=chrome&type=ws&host=");
    reveal_strlit("&path=%2F%3Fed%3D2560#");
    assert("?encryption=none&security=tls&sni="@ =~= seq!['?'] + (q1 + amp + q2 + amp + "sni="@));
    assert("&fp=chrome&type=ws&host="@ =~= amp + q4 + amp + q5 + amp + "host="@);
    assert("&path=%2F%3Fed%3D2560#"@ =~= amp + q7 + seq!['#']);
    assert("@"@ =~= seq!['@']);
    assert(":"@ =~= seq![':']);
    lemma_link_shape(
        front,
        place,
        q1 + amp + q2 + amp + "sni="@,
        host,
        amp + q4 + amp + q5 + amp + "host="@,
        amp + q7,
        name,
    );
    assert(p7 =~= q1 + amp + q2 + amp + "sni="@ + host + (amp + q4 + amp + q5 + amp + "host="@)
        + host + (amp + q7));
    assert(text =~= front + seq!['@'] + place + (seq!['?'] + (q1 + amp + q2 + amp + "sni="@)) + host
        + (amp + q4 + amp + q5 + amp + "host="@) + host + (amp + q7 + seq!['#']) + name);
    assert(text == front + seq!['@'] + behind);
    lemma_add_lacks(config.vless_text(), "://"@, '@');
    lemma_add_lacks(config.vless_text() + "://"@, config.uuid@, '@');
    lemma_cut_first(front, '@', behind);
    lemma_decimal_lacks(node.port as nat, '?');
    lemma_add_lacks(node.address, seq![':'], '?');
    lemma_add_lacks(node.address + seq![':'], decimal(node.port as nat), '?');
    lemma_cut_first(place, '?', query);
    lemma_query_lacks(host, '#');
    lemma_cut_first(p7, '#', name);
    lemma_add_lacks("sni="@, host, '&');
    lemma_add_lacks("host="@, host, '&');
    let want = seq![q1, q2, q3, q4, q5, q6, q7];
    law_parts_add(q1, '&', q2);
    law_parts_add(p2, '&', q3);
    law_parts_add(p3, '&', q4);
    law_parts_add(p4, '&', q5);
    law_parts_add(p5, '&', q6);
    law_parts_add(p6, '&', q7);
    law_parts_one(q1, '&');
    law_parts_one(q2, '&');
    law_parts_one(q3, '&');
    law_parts_one(q4, '&');
    law_parts_one(q5, '&');
    law_parts_one(q6, '&');
    law_parts_one(q7, '&');
    assert(parts_of(p7, '&') =~= want);
    law_url_decoding_undoes_encoding(node.name);
}

/// The parts of a link, put together from the left and from the right.
pub proof fn lemma_link_shape(
    front: Seq<char>,
    place: Seq<char>,
    a: Seq<char>,
    host: Seq<char>,
    b: Seq<char>,
    c: Seq<char>,
    name: Seq<char>,
)
    ensures
        front + seq!['@'] + place + (seq!['?'] + a) + host + b + host + (c + seq!['#']) + name
            == front + seq!['@'] + (place + seq!['?'] + (a + host + b + host + c + seq!['#']
            + name)),
{
    assert(front + seq!['@'] + place + (seq!['?'] + a) + host + b + host + (c + seq!['#']) + name
        =~= front + seq!['@'] + (place + seq!['?'] + (a + host + b + host + c + seq!['#'] + name)));
}

proof fn lemma_query_lacks(host: Seq<char>, c: char)
    requires
        c == '#',
        !host.contains(c),
    ensures
        ({
            let amp = seq!['&'];
            let p2 = "encryption=none"@ + amp + "security=tls"@;
            let p3 = p2 + amp + ("sni="@ + host);
            let p4 = p3 + amp + "fp=chrome"@;
            let p5 = p4 + amp + "type=ws"@;
            let p6 = p5 + amp + ("host="@ + host);
            !(p6 + amp + "path=%2F%3Fed%3D2560"@).contains(c)
        }),
{
    reveal_strlit("encryption=none");
    reveal_strlit("security=tls");
    reveal_strlit("sni=");
    reveal_strlit("fp=chrome");
    reveal_strlit("type=ws");
    reveal_strlit("host=");
    reveal_strlit("path=%2F%3Fed%3D2560");
    let amp = seq!['&'];
    let p2 = "encryption=none"@ + amp + "security=tls"@;
    let p3 = p2 + amp + ("sni="@ + host);
    let p4 = p3 + amp + "fp=chrome"@;
    let p5 = p4 + amp + "type=ws"@;
    let p6 = p5 + amp + ("host="@ + host);
    lemma_add_lacks("encryption=none"@, amp, c);
    lemma_add_lacks("encryption=none"@ + amp, "security=tls"@, c);
    lemma_add_lacks("sni="@, host, c);
    lemma_add_lacks(p2, amp, c);
    lemma_add_lacks(p2 + amp, "sni="@ + host, c);
    lemma_add_lacks(p3, amp, c);
    lemma_add_lacks(p3 + amp, "fp=chrome"@, c);
    lemma_add_lacks(p4, amp, c);
    lemma_add_lacks(p4 + amp, "type=ws"@, c);
    lemma_add_lacks("host="@, host, c);
    lemma_add_lacks(p5, amp, c);
    lemma_add_lacks(p5 + amp, "host="@ + host, c);
    lemma_add_lacks(p6, amp, c);
    lemma_add_lacks(p6 + amp, "path=%2F%3Fed%3D2560"@, c);
}

/// The lines of the entry for a node.
pub open spec fn entry_lines(config: AppConfig, host: Seq<char>, node: NodeView) -> Seq<Seq<char>> {
    seq![
        "  - name: "@ + node.name,
        "    type: "@ + config.vless_text(),
        "    server: "@ + node.address,
        "    port: "@ + decimal(node.port as nat),
        "    uuid: "@ + config.uuid@,
        "    udp: true"@,
        "    tls: true"@,
        "    sni: "@ + host,
        "    network: ws"@,
        "    ws-opts:"@,
        "      path: \"/?ed=2560\""@,
        "      headers:"@,
        "        Host: "@ + host,
    ]
}

/// The lines of the entries for nodes, in order.
pub open spec fn entries_lines(config: AppConfig, host: Seq<char>, list: Seq<NodeView>) -> Seq<
    Seq<char>,
>
    decreases list.len(),
{
    if list.len() == 0 {
        Seq::empty()
    } else {
        entries_lines(config, host, list.drop_last()) + entry_lines(config, host, list.last())
    }
}

/// The entry for a node in YAML has these lines, one key in each: name, type, server, port, key and
/// the host name as `sni` and as `Host`.
pub proof fn law_yaml_entry_lines(config: AppConfig, host: Seq<char>, node: NodeView)
    requires
        !config.vless_text().contains('\n'),
        !config.uuid@.contains('\n'),
        !host.contains('\n'),
        !node.address.contains('\n'),
        !node.name.contains('\n'),
    ensures
        parts_of(proxy(config, host, node), '\n') == entry_lines(config, host, node),
{
    reveal_with_fuel(lines_below, 6);
    lemma_decimal_lacks(node.port as nat, '\n');
    reveal_strlit("  - name: ");
    reveal_strlit("\n    type: ");
    reveal_strlit("\n    server: ");
    reveal_strlit("\n    port: ");
    reveal_strlit("\n    uuid: ");
    reveal_strlit("\n    udp: true\n    tls: true\n    sni: ");
    reveal_strlit("\n    network: ws\n    ws-opts:\n      path: \"/?ed=2560\"\n      headers:\n        Host: ");
    reveal_strlit("    type: ");
    reveal_strlit("    server: ");
    reveal_strlit("    port: ");
    reveal_strlit("    uuid: ");
    reveal_strlit("    udp: true");
    reveal_strlit("    tls: true");
    reveal_strlit("    sni: ");
    reveal_strlit("    network: ws");
    reveal_strlit("    ws-opts:");
    reveal_strlit("      path: \"/?ed=2560\"");
    reveal_strlit("      headers:");
    reveal_strlit("        Host: ");
    let t0 = "  - name: "@ + node.name;
    lemma_add_lacks("  - name: "@, node.name, '\n');
    law_parts_one(t0, '\n');
    let l1 = seq!["    type: "@];
    assert("\n    type: "@ =~= lines_below(l1));
    lemma_lines_below(t0, l1, config.vless_text());
    let t1 = t0 + "\n    type: "@ + config.vless_text();
    let l2 = seq!["    server: "@];
    assert("\n    server: "@ =~= lines_below(l2));
    lemma_lines_below(t1, l2, node.address);
    let t2 = t1 + "\n    server: "@ + node.address;
    let l3 = seq!["    port: "@];
    assert("\n    port: "@ =~= lines_below(l3));
    lemma_lines_below(t2, l3, decimal(node.port as nat));
    let t3 = t2 + "\n    port: "@ + decimal(node.port as nat);
    let l4 = seq!["    uuid: "@];
    assert("\n    uuid: "@ =~= lines_below(l4));
    lemma_lines_below(t3, l4, config.uuid@);
    let t4 = t3 + "\n    uuid: "@ + config.uuid@;
    let l5 = seq!["    udp: true"@, "    tls: true"@, "    sni: "@];
    assert("\n    udp: true\n    tls: true\n    sni: "@ =~= lines_below(l5));
    lemma_lines_below(t4, l5, host);
    let t5 = t4 + "\n    udp: true\n    tls: true\n    sni: "@ + host;
    let l6 = seq![
        "    network: ws"@,
        "    ws-opts:"@,
        "      path: \"/?ed=2560\""@,
        "      headers:"@,
        "        Host: "@,
    ];
    assert("\n    network: ws\n    ws-opts:\n      path: \"/?ed=2560\"\n      headers:\n        Host: "@ =~= lines_below(l6));
    lemma_lines_below(t5, l6, host);
    let t6 = t5 + "\n    network: ws\n    ws-opts:\n      path: \"/?ed=2560\"\n      headers:\n        Host: "@ + host;
    assert(proxy(config, host, node) == t6);
    assert(parts_of(t6, '\n') =~= entry_lines(config, host, node));
}

proof fn lemma_entries_lines(config: AppConfig, host: Seq<char>, list: Seq<NodeView>)
    requires
        !config.vless_text().contains('\n'),
        !config.uuid@.contains('\n'),
        !host.contains('\n'),
        forall|i: int|
            0 <= i < list.len() ==> !(#[trigger] list[i]).address.contains('\n')
                && !list[i].name.contains('\n'),
    ensures
        all_parts(proxies(config, host, list), '\n') == entries_lines(config, host, list),
    decreases list.len(),
{
    let made = proxies(config, host, list);
    if list.len() > 0 {
        let less = list.drop_last();
        assert forall|i: int| 0 <= i < less.len() implies !(#[trigger] less[i]).address.contains(
            '\n',
        ) && !less[i].name.contains('\n') by {
            assert(less[i] == list[i]);
        }
        lemma_entries_lines(config, host, less);
        assert(made.drop_last() =~= proxies(config, host, less));
        assert(list.last() == list[list.len() - 1]);
        law_yaml_entry_lines(config, host, list.last());
    } else {
        assert(all_parts(made, '\n') =~= entries_lines(config, host, list));
    }
}

/// The lines with the names of nodes, as the members of a group.
pub open spec fn member_lines(list: Seq<NodeView>) -> Seq<Seq<char>> {
    Seq::new(list.len(), |i: int| "    - "@ + list[i].name)
}

/// The document in YAML has these lines: the entries for all nodes, and two groups that each name
/// all of them, in the order of the list and behind the gateway's own.
pub proof fn law_yaml_lines(config: AppConfig, host: Seq<char>, list: Seq<Seq<char>>)
    requires
        single_lines(config, host, list),
    ensures
        ({
            let found = node_list(list, host);
            parts_of(yaml(config, host, found), '\n') == seq!["proxies:"@] + entries_lines(
                config,
                host,
                found,
            ) + seq![
                ""@,
                "proxy-groups:"@,
                "  - name: 节点选择"@,
                "    type: select"@,
                "    proxies:"@,
            ] + member_lines(found) + seq![
                "  - name: 自动选择"@,
                "    type: url-test"@,
                "    url: https://www.google.com/generate_204"@,
                "    interval: 300"@,
                "    proxies:"@,
            ] + member_lines(found) + seq![""@, "rules:"@, "  - MATCH,节点选择"@, ""@]
        }),
{
    let found = node_list(list, host);
    assert forall|i: int| 0 <= i < found.len() implies !(#[trigger] found[i]).address.contains('\n')
        && !found[i].name.contains('\n') by {
        lemma_node_lacks_line_feed(list, host, i);
    }
    lemma_entries_lines(config, host, found);
    let entries = joined(proxies(config, host, found), "\n"@);
    let group = joined(members(found), "\n"@);
    reveal_strlit("\n");
    reveal_strlit("    - ");
    assert("\n"@ =~= seq!['\n']);
    law_joined_parts(proxies(config, host, found), '\n');
    assert(members(found) =~= member_lines(found));
    assert forall|i: int| 0 <= i < found.len() implies !(#[trigger] members(found)[i]).contains(
        '\n',
    ) by {
        assert(!found[i].name.contains('\n'));
        lemma_add_lacks("    - "@, found[i].name, '\n');
    }
    law_joined_is_taken_apart(members(found), '\n');
    reveal_with_fuel(lines_below, 6);
    let none = Seq::<char>::empty();
    reveal_strlit("proxies:");
    reveal_strlit("proxies:\n");
    reveal_strlit("");
    reveal_strlit("proxy-groups:");
    reveal_strlit("  - name: 节点选择");
    reveal_strlit("    type: select");
    reveal_strlit("    proxies:");
    reveal_strlit("  - name: 自动选择");
    reveal_strlit("    type: url-test");
    reveal_strlit("    url: https://www.google.com/generate_204");
    reveal_strlit("    interval: 300");
    reveal_strlit("rules:");
    reveal_strlit("  - MATCH,节点选择");
    reveal_strlit("\n\nproxy-groups:\n  - name: 节点选择\n    type: select\n    proxies:\n");
    reveal_strlit("\n  - name: 自动选择\n    type: url-test\n    url: https://www.google.com/generate_204\n    interval: 300\n    proxies:\n");
    reveal_strlit("\n\nrules:\n  - MATCH,节点选择\n");
    assert("proxies:\n"@ =~= "proxies:"@ + seq!['\n']);
    law_parts_one("proxies:"@, '\n');
    law_parts_add("proxies:"@, '\n', entries);
    let t0 = "proxies:\n"@ + entries;
    let l1 = seq![""@, "proxy-groups:"@, "  - name: 节点选择"@, "    type: select"@, "    proxies:"@];
    assert("\n\nproxy-groups:\n  - name: 节点选择\n    type: select\n    proxies:\n"@ =~= lines_below(l1) + seq!['\n']);
    let t1 = t0 + lines_below(l1);
    lemma_lines_below(t0, l1, none);
    assert(t1 + none =~= t1);
    assert(l1.drop_last().push(l1.last() + none) =~= l1) by {
        assert(l1.last() + none =~= l1.last());
    }
    law_parts_add(t1, '\n', group);
    let t2 = t0 + "\n\nproxy-groups:\n  - name: 节点选择\n    type: select\n    proxies:\n"@ + group;
    assert(t2 =~= t1 + seq!['\n'] + group);
    let l2 = seq![
        "  - name: 自动选择"@,
        "    type: url-test"@,
        "    url: https://www.google.com/generate_204"@,
        "    interval: 300"@,
        "    proxies:"@,
    ];
    assert("\n  - name: 自动选择\n    type: url-test\n    url: https://www.google.com/generate_204\n    interval: 300\n    proxies:\n"@ =~= lines_below(l2) + seq!['\n']);
    let t3 = t2 + lines_below(l2);
    lemma_lines_below(t2, l2, none);
    assert(t3 + none =~= t3);
    assert(l2.drop_last().push(l2.last() + none) =~= l2) by {
        assert(l2.last() + none =~= l2.last());
    }
    law_parts_add(t3, '\n', group);
    let t4 = t2 + "\n  - name: 自动选择\n    type: url-test\n    url: https://www.google.com/generate_204\n    interval: 300\n    proxies:\n"@ + group;
    assert(t4 =~= t3 + seq!['\n'] + group);
    let l3 = seq![""@, "rules:"@, "  - MATCH,节点选择"@, ""@];
    assert("\n\nrules:\n  - MATCH,节点选择\n"@ =~= lines_below(l3));
    let t5 = t4 + "\n\nrules:\n  - MATCH,节点选择\n"@;
    lemma_lines_below(t4, l3, none);
    assert(t5 + none =~= t5);
    assert(l3.drop_last().push(l3.last() + none) =~= l3) by {
        assert(l3.last() + none =~= l3.last());
    }
    assert(yaml(config, host, found) == t5);
}

/// A page made of fixed texts around the secret path and the names of the two clients.
pub open spec fn page_around(
    config: AppConfig,
    start: Seq<char>,
    middle: Seq<char>,
    end: Seq<char>,
) -> Seq<char> {
    start + config.sub_path@ + middle + config.clash_text() + " 或 "@ + config.v2ray_text() + end
}

/// The pages for people of any two settings differ in nothing but the secret path, behind the
/// title's beginning, and the names of the two clients, behind the call to import the link.
pub proof fn law_tips_pages_differ_in_names_only(a: AppConfig, b: AppConfig)
    ensures
        exists|start: Seq<char>, middle: Seq<char>, end: Seq<char>|
            {
                &&& tips(a) == #[trigger] page_around(a, start, middle, end)
                &&& tips(b) == page_around(b, start, middle, end)
                &&& start.len() >= "<title>订阅-"@.len()
                &&& start.skip(start.len() - "<title>订阅-"@.len()) == "<title>订阅-"@
                &&& middle.len() >= "<strong>请把链接导入 "@.len()
                &&& middle.skip(middle.len() - "<strong>请把链接导入 "@.len())
                    == "<strong>请把链接导入 "@
            },
{
    let start = "\n<!DOCTYPE html>\n<html>\n<head>\n    <title>订阅-"@;
    let middle = "</title>\n    <meta charset=\"utf-8\">\n    <style>\n      body { font-size: 25px; text-align: center; font-family: sans-serif; }\n      strong { color: #4a4a4a; }\n    </style>\n</head>\n<body>\n    <strong>请把链接导入 "@;
    let end = " 客户端</strong>\n</body>\n</html>\n"@;
    reveal_strlit("<title>订阅-");
    reveal_strlit("<strong>请把链接导入 ");
    reveal_strlit("\n<!DOCTYPE html>\n<html>\n<head>\n    <title>订阅-");
    reveal_strlit("</title>\n    <meta charset=\"utf-8\">\n    <style>\n      body { font-size: 25px; text-align: center; font-family: sans-serif; }\n      strong { color: #4a4a4a; }\n    </style>\n</head>\n<body>\n    <strong>请把链接导入 ");
    assert(start.skip(start.len() - "<title>订阅-"@.len()) =~= "<title>订阅-"@);
    assert(middle.skip(middle.len() - "<strong>请把链接导入 "@.len()) =~= "<strong>请把链接导入 "@);
    assert(tips(a) == page_around(a, start, middle, end));
    assert(tips(b) == page_around(b, start, middle, end));
}

} // verus!
