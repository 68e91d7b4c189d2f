//! The nodes that a subscription offers.

use crate::preferred::NodeView;
use crate::text::{
    after_first, after_last, before_first, before_last, decimal, decimal_text, find,
    lemma_add_lacks, lemma_cut_first, lemma_cut_last, lemma_decimal_lacks, lemma_find, lemma_no_cut,
    lemma_range_lacks, lemma_rfind, parse_u16, rfind, split_first, split_last, texts, u16_of,
};
use vstd::prelude::*;

verus! {

/// A node that clients can connect to.
pub struct NodeInfo {
    pub address: String,
    pub port: u16,
    pub name: String,
}

impl View for NodeInfo {
    type V = NodeView;

    open spec fn view(&self) -> NodeView {
        NodeView { address: self.address@, port: self.port, name: self.name@ }
    }
}

/// Whether there is a list to fetch: the place is given.
pub fn has_list(txt_url: &str) -> (yes: bool)
    ensures
        yes == (txt_url@.len() > 0),
{
    !txt_url.is_empty()
}

/// The node in an entry `address:port#name`. The name is what stands between the first and the
/// second `#`; without any the node is numbered. The port is what follows the last `:` before the
/// first `#`, or 443 where that is no port, and the address what stands before it; without a `:`
/// the address is empty.
pub open spec fn node_of(item: Seq<char>, number: nat) -> NodeView {
    let place = before_first(item, '#');
    NodeView {
        address: match before_last(place, ':') {
            Some(address) => address,
            None => Seq::empty(),
        },
        port: match (before_last(place, ':'), u16_of(after_last(place, ':'))) {
            (Some(_), Some(port)) => port,
            _ => 443,
        },
        name: match after_first(item, '#') {
            Some(rest) => before_first(rest, '#'),
            None => "节点 "@ + decimal(number),
        },
    }
}

/// The relay's own node.
pub open spec fn own_node(host: Seq<char>) -> NodeView {
    NodeView { address: host, port: 443, name: "原生节点"@ }
}

/// The relay's own node, and then those in the entries, which are numbered from one on.
pub open spec fn node_list(list: Seq<Seq<char>>, host: Seq<char>) -> Seq<NodeView> {
    Seq::new(
        list.len() + 1,
        |i: int|
            if i == 0 {
                own_node(host)
            } else {
                node_of(list[i - 1], i as nat)
            },
    )
}

/// What a list of nodes holds.
pub open spec fn nodes(v: Seq<NodeInfo>) -> Seq<NodeView> {
    Seq::new(v.len(), |i: int| v[i]@)
}

fn read_node(item: &str, number: u64) -> (node: NodeInfo)
    ensures
        node@ == node_of(item@, number as nat),
{
    let (place, rest) = split_first(item, '#');
    let name = match rest {
        Some(rest) => {
            let (name, _) = split_first(rest.as_str(), '#');
            name
        },
        None => {
            let mut name = "节点 ".to_owned();
            name.append(decimal_text(number).as_str());
            name
        },
    };
    let (address, port) = split_last(place.as_str(), ':');
    match address {
        Some(address) => {
            let port: u16 = match parse_u16(port.as_str()) {
                Some(port) => port,
                None => 443,
            };
            NodeInfo { address, port, name }
        },
        None => NodeInfo { address: String::new(), port: 443, name },
    }
}

/// Makes the nodes of a subscription: the relay itself under `host_name`, then the preferred.
pub fn process_preferred_list(preferred_list: &Vec<String>, host_name: &str) -> (out: Vec<
    NodeInfo,
>)
    ensures
        nodes(out@) == node_list(texts(preferred_list@), host_name@),
{
    let ghost list = texts(preferred_list@);
    let ghost want = node_list(list, host_name@);
    let mut out: Vec<NodeInfo> = Vec::new();
    out.push(
        NodeInfo { address: host_name.to_owned(), port: 443, name: "原生节点".to_owned() },
    );
    assert(nodes(out@) =~= want.take(1));
    let mut i: usize = 0;
    while i < preferred_list.len()
        invariant
            i <= preferred_list@.len(),
            list == texts(preferred_list@),
            want == node_list(list, host_name@),
            nodes(out@) == want.take(i + 1),
        decreases preferred_list.len() - i,
    {
        let ghost before = out@;
        out.push(read_node(preferred_list[i].as_str(), i as u64 + 1));
        assert(nodes(out@) =~= nodes(before).push(want[i + 1]));
        assert(want.take(i + 2) =~= want.take(i + 1).push(want[i + 1]));
        i += 1;
    }
    assert(want.take(i + 1) =~= want);
    out
}

/// An entry `address:port#name` is read back as it was written, for every address without a `#`
/// (colons are allowed), every port and every name without a `#`.
pub proof fn law_node_is_read_as_written(
    address: Seq<char>,
    port: u16,
    name: Seq<char>,
    number: nat,
)
    requires
        !address.contains('#'),
        !name.contains('#'),
    ensures
        node_of(
            address + seq![':'] + decimal(port as nat) + seq!['#'] + name,
            number,
        ) == (NodeView { address, port, name }),
{
    let digits = decimal(port as nat);
    let place = address + seq![':'] + digits;
    lemma_decimal_lacks(port as nat, '#');
    lemma_decimal_lacks(port as nat, ':');
    assert(!place.contains('#')) by {
        assert forall|i: int| 0 <= i < place.len() implies place[i] != '#' by {
            if i < address.len() {
                assert(address.contains(address[i]));
            } else if i > address.len() {
                assert(digits.contains(digits[i - address.len() - 1]));
            }
        }
    }
    lemma_cut_first(place, '#', name);
    lemma_no_cut(name, '#');
    lemma_cut_last(address, ':', digits);
    crate::text::law_u16_reads_decimal(port);
}

/// What an entry has behind its place: a name, and perhaps more behind a second `#`.
pub open spec fn name_part(name: Option<Seq<char>>, more: Option<Seq<char>>) -> Seq<char> {
    match (name, more) {
        (Some(name), Some(more)) => seq!['#'] + name + seq!['#'] + more,
        (Some(name), None) => seq!['#'] + name,
        _ => Seq::empty(),
    }
}

/// An entry with a `:` is read for every address, everything that can stand where the port does,
/// and every name or none: the address is kept, what is no port counts as 443, a node without a
/// name gets its number, and what follows the name is passed over.
pub proof fn law_entry_with_a_port(
    address: Seq<char>,
    port: Seq<char>,
    name: Option<Seq<char>>,
    more: Option<Seq<char>>,
    number: nat,
)
    requires
        !address.contains('#'),
        !port.contains('#'),
        !port.contains(':'),
        name matches Some(text) ==> !text.contains('#'),
    ensures
        ({
            let node = node_of(address + seq![':'] + port + name_part(name, more), number);
            &&& node.address == address
            &&& u16_of(port) matches Some(n) ==> node.port == n
            &&& u16_of(port) is None ==> node.port == 443
            &&& name matches Some(text) ==> node.name == text
            &&& name is None ==> node.name == "节点 "@ + decimal(number)
        }),
{
    let place = address + seq![':'] + port;
    lemma_add_lacks(address, seq![':'], '#');
    lemma_add_lacks(address + seq![':'], port, '#');
    lemma_cut_last(address, ':', port);
    lemma_name(place, name, more);
}

/// An entry without a `:` has no address and port 443, whatever stands there, and every name or
/// none is read as with a port.
pub proof fn law_entry_without_a_port(
    place: Seq<char>,
    name: Option<Seq<char>>,
    more: Option<Seq<char>>,
    number: nat,
)
    requires
        !place.contains('#'),
        !place.contains(':'),
        name matches Some(text) ==> !text.contains('#'),
    ensures
        ({
            let node = node_of(place + name_part(name, more), number);
            &&& node.address.len() == 0
            &&& node.port == 443
            &&& name matches Some(text) ==> node.name == text
            &&& name is None ==> node.name == "节点 "@ + decimal(number)
        }),
{
    lemma_no_cut(place, ':');
    lemma_name(place, name, more);
}

proof fn lemma_name(place: Seq<char>, name: Option<Seq<char>>, more: Option<Seq<char>>)
    requires
        !place.contains('#'),
        name matches Some(text) ==> !text.contains('#'),
    ensures
        ({
            let item = place + name_part(name, more);
            &&& before_first(item, '#') == place
            &&& name matches Some(text) ==> after_first(item, '#') is Some && before_first(
                after_first(item, '#')->0,
                '#',
            ) == text
            &&& name is None ==> after_first(item, '#') is None
        }),
{
    match (name, more) {
        (Some(text), Some(rest)) => {
            assert(place + name_part(name, more) =~= place + seq!['#'] + (text + seq!['#'] + rest));
            lemma_cut_first(place, '#', text + seq!['#'] + rest);
            lemma_cut_first(text, '#', rest);
        },
        (Some(text), None) => {
            assert(place + name_part(name, more) =~= place + seq!['#'] + text);
            lemma_cut_first(place, '#', text);
            lemma_no_cut(text, '#');
        },
        _ => {
            assert(place + name_part(name, more) =~= place);
            lemma_no_cut(place, '#');
        },
    }
}

/// An entry `address:port` without a name is read back as it was written, and the node gets its
/// number for a name.
pub proof fn law_nameless_node_is_read_as_written(address: Seq<char>, port: u16, number: nat)
    requires
        !address.contains('#'),
    ensures
        node_of(address + seq![':'] + decimal(port as nat), number) == (NodeView {
            address,
            port,
            name: "节点 "@ + decimal(number),
        }),
{
    let digits = decimal(port as nat);
    lemma_decimal_lacks(port as nat, '#');
    lemma_decimal_lacks(port as nat, ':');
    crate::text::law_u16_reads_decimal(port);
    law_entry_with_a_port(address, digits, None, None, number);
    assert(address + seq![':'] + digits + name_part(None, None) =~= address + seq![':'] + digits);
}

/// A subscription has a node for every entry of the list, in its order and behind the relay's own,
/// whose host name is kept as it is. The numbers do not count that one.
pub proof fn law_every_entry_is_a_node(list: Seq<Seq<char>>, host: Seq<char>, i: int)
    ensures
        node_list(list, host).len() == list.len() + 1,
        0 <= i < list.len() ==> node_list(list, host)[i + 1] == node_of(
            list[i],
            (i + 1) as nat,
        ),
{
}

/// Every subscription starts with the relay's own node, whatever its host name.
pub proof fn law_own_node_comes_first(list: Seq<Seq<char>>, host: Seq<char>)
    ensures
        node_list(list, host).len() == list.len() + 1,
        node_list(list, host)[0] == (NodeView { address: host, port: 443, name: "原生节点"@ }),
{
}

/// What an entry lacks, the address of its node lacks too.
pub proof fn lemma_address_lacks(item: Seq<char>, number: nat, c: char)
    requires
        !item.contains(c),
    ensures
        !node_of(item, number).address.contains(c),
{
    lemma_find(item, '#', 0);
    let place = before_first(item, '#');
    lemma_range_lacks(item, 0, place.len() as int, c);
    lemma_rfind(place, ':', place.len() as int);
    let at = rfind(place, ':', place.len() as int);
    if at >= 0 {
        lemma_range_lacks(place, 0, at, c);
    }
}

/// What an entry lacks, the name of its node lacks too, unless it is a character of the numbered
/// names.
pub proof fn lemma_name_lacks(item: Seq<char>, number: nat, c: char)
    requires
        !item.contains(c),
        !("节点 "@).contains(c),
        !('0' <= c <= '9'),
    ensures
        !node_of(item, number).name.contains(c),
{
    lemma_find(item, '#', 0);
    let at = find(item, '#', 0);
    if at < item.len() {
        lemma_range_lacks(item, at + 1, item.len() as int, c);
        let rest = item.skip(at + 1);
        lemma_find(rest, '#', 0);
        lemma_range_lacks(rest, 0, find(rest, '#', 0), c);
    } else {
        lemma_decimal_lacks(number, c);
        lemma_add_lacks("节点 "@, decimal(number), c);
    }
}

/// A list of nodes is seen as it is, node for node.
pub proof fn law_nodes_are_seen_as_they_are(v: Seq<NodeInfo>, i: int)
    requires
        0 <= i < v.len(),
    ensures
        nodes(v).len() == v.len(),
        nodes(v)[i].address == v[i].address@,
        nodes(v)[i].port == v[i].port,
        nodes(v)[i].name == v[i].name@,
{
}

} // verus!
