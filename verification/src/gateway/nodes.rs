//! The nodes that a subscription offers.

use super::error::Error;
use crate::preferred::{entries, read_entries, NodeView};
use crate::text::{
    after_first, after_last, before_first, before_last, decimal, decimal_text, find,
    lemma_cut_first, lemma_add_lacks, lemma_cut_last, lemma_decimal_lacks, lemma_find, lemma_no_cut,
    lemma_range_lacks, lemma_rfind, parse_u16, rfind, split_first, split_last, texts, trim, trimmed,
    u16_of,
};
use vstd::prelude::*;

verus! {

// ---------------------------------------------------------------------------
// The list of preferred nodes
// ---------------------------------------------------------------------------

/// Whether an answer is refused for its status: the complement of the status is held against 200,
/// so 65335 is the only status that is refused.
pub open spec fn status_refused(status: u16) -> bool {
    status == 65335
}

/// Whether an answer is refused for its status.
pub fn refuses_status(status: u16) -> (yes: bool)
    ensures
        yes == status_refused(status),
{
    assert(!status == 200u16 <==> status == 65335u16) by (bit_vector);
    !status == 200
}

/// Whether there is a list to fetch: the place is given and is more than white space.
pub fn has_list(txt_url: &str) -> (yes: bool)
    ensures
        yes == (trimmed(txt_url@).len() > 0),
{
    let place = trim(txt_url);
    !place.as_str().is_empty()
}

/// Reads the answer to a request for the list.
pub fn get_preferred_list(status: u16, text: &str) -> (r: Result<Vec<String>, Error<String>>)
    ensures
        match r {
            Ok(list) => !status_refused(status) && texts(list@) == entries(text@),
            Err(e) => status_refused(status) && e@ == Error::<Seq<char>>::ListStatus(status),
        },
{
    if refuses_status(status) {
        return Err(Error::ListStatus(status));
    }
    Ok(read_entries(text))
}

// ---------------------------------------------------------------------------
// Nodes
// ---------------------------------------------------------------------------

/// The node in an entry `address:port#name`. The name is what follows the first `#`; without one
/// the node is numbered. The port is what follows the last `:` before it, or 443 where that is no
/// port; without a `:` the address is the whole of what stands before the `#`.
pub open spec fn node_of(line: Seq<char>, number: nat) -> NodeView {
    let place = before_first(line, '#');
    NodeView {
        address: match before_last(place, ':') {
            Some(address) => address,
            None => place,
        },
        port: match u16_of(after_last(place, ':')) {
            Some(port) => port,
            None => 443,
        },
        name: match after_first(line, '#') {
            Some(name) => name,
            None => "节点 "@ + decimal(number),
        },
    }
}

/// The gateway's own node, and then those in the entries, numbered from one on.
pub open spec fn node_list(list: Seq<Seq<char>>, host: Seq<char>) -> Seq<NodeView> {
    Seq::new(
        list.len() + 1,
        |i: int|
            node_of(
                if i == 0 {
                    host + "#原生节点"@
                } else {
                    list[i - 1]
                },
                (i + 1) as nat,
            ),
    )
}

/// What a list of nodes holds.
pub open spec fn nodes(v: Seq<(String, u16, String)>) -> Seq<NodeView> {
    Seq::new(v.len(), |i: int| NodeView { address: v[i].0@, port: v[i].1, name: v[i].2@ })
}

fn read_node(line: &str, number: u64) -> (node: (String, u16, String))
    ensures
        (NodeView { address: node.0@, port: node.1, name: node.2@ }) == node_of(
            line@,
            number as nat,
        ),
{
    let (place, name) = split_first(line, '#');
    let name = match name {
        Some(name) => name,
        None => {
            let mut name = "节点 ".to_owned();
            name.append(decimal_text(number).as_str());
            name
        },
    };
    let (address, port) = split_last(place.as_str(), ':');
    let port: u16 = match parse_u16(port.as_str()) {
        Some(port) => port,
        None => 443,
    };
    let address = match address {
        Some(address) => address,
        None => place,
    };
    (address, port, name)
}

/// Makes the nodes of a subscription: the gateway itself under `host_name`, then the preferred.
pub fn process_nodes(preferred_list: Vec<String>, host_name: &str) -> (out: Vec<
    (String, u16, String),
>)
    ensures
        nodes(out@) == node_list(texts(preferred_list@), host_name@),
{
    let ghost list = texts(preferred_list@);
    let mut own = host_name.to_owned();
    own.append("#原生节点");
    let mut lines = preferred_list;
    lines.insert(0, own);
    let mut out: Vec<(String, u16, String)> = Vec::new();
    let mut i: usize = 0;
    while i < lines.len()
        invariant
            i <= lines@.len(),
            lines@.len() == list.len() + 1,
            lines@[0]@ == host_name@ + "#原生节点"@,
            forall|j: int| 1 <= j < lines@.len() ==> #[trigger] lines@[j]@ == list[j - 1],
            nodes(out@) == node_list(list, host_name@).take(i as int),
        decreases lines.len() - i,
    {
        let ghost before = out@;
        let node = read_node(lines[i].as_str(), i as u64 + 1);
        out.push(node);
        assert(nodes(out@) =~= nodes(before).push(node_list(list, host_name@)[i as int]));
        assert(node_list(list, host_name@).take(i + 1) =~= node_list(list, host_name@).take(
            i as int,
        ).push(node_list(list, host_name@)[i as int]));
        i += 1;
    }
    assert(node_list(list, host_name@).take(i as int) =~= node_list(list, host_name@));
    out
}

// ---------------------------------------------------------------------------
// Laws
// ---------------------------------------------------------------------------

/// An entry `address:port#name` is read back as it was written, for every address without a `#`
/// (colons are allowed), every port and every name.
pub proof fn law_node_is_read_as_written(
    address: Seq<char>,
    port: u16,
    name: Seq<char>,
    number: nat,
)
    requires
        !address.contains('#'),
    ensures
        node_of(
            address + seq![':'] + decimal(port as nat) + seq!['#'] + name,
            number,
        ) == (NodeView { address, port, name }),
{
    let digits = decimal(port as nat);
    let place = address + seq![':'] + digits;
    lemma_decimal_lacks(port as nat, '#');
    lemma_decimal_lacks(port as nat, ':');
    assert(!place.contains('#')) by {
        assert forall|i: int| 0 <= i < place.len() implies place[i] != '#' by {
            if i < address.len() {
                assert(address.contains(address[i]));
            } else if i > address.len() {
                assert(digits.contains(digits[i - address.len() - 1]));
            }
        }
    }
    lemma_cut_first(place, '#', name);
    lemma_cut_last(address, ':', digits);
    crate::text::law_u16_reads_decimal(port);
}

/// Every subscription starts with the gateway's own node: its host name, port 443 and the name of
/// the native node. This holds of a host name that holds neither `#` nor `:` and is not itself a
/// number that names another port.
pub proof fn law_own_node_comes_first(list: Seq<Seq<char>>, host: Seq<char>)
    requires
        !host.contains('#'),
        !host.contains(':'),
        u16_of(host) is None || u16_of(host) == Some(443u16),
    ensures
        node_list(list, host).len() == list.len() + 1,
        node_list(list, host)[0] == (NodeView { address: host, port: 443, name: "原生节点"@ }),
{
    reveal_strlit("#原生节点");
    reveal_strlit("原生节点");
    assert("#原生节点"@ =~= seq!['#'] + "原生节点"@);
    assert(host + "#原生节点"@ =~= host + seq!['#'] + "原生节点"@);
    lemma_cut_first(host, '#', "原生节点"@);
    lemma_no_cut(host, ':');
}

/// What an entry has behind its place.
pub open spec fn name_part(name: Option<Seq<char>>) -> Seq<char> {
    match name {
        Some(name) => seq!['#'] + name,
        None => Seq::empty(),
    }
}

/// An entry with a `:` is read for every address, everything that can stand where the port does,
/// and every name or none: the address is kept, what is no port counts as 443, and a node without
/// a name gets its number.
pub proof fn law_entry_with_a_port(
    address: Seq<char>,
    port: Seq<char>,
    name: Option<Seq<char>>,
    number: nat,
)
    requires
        !address.contains('#'),
        !port.contains('#'),
        !port.contains(':'),
    ensures
        ({
            let node = node_of(address + seq![':'] + port + name_part(name), number);
            &&& node.address == address
            &&& u16_of(port) matches Some(n) ==> node.port == n
            &&& u16_of(port) is None ==> node.port == 443
            &&& name matches Some(text) ==> node.name == text
            &&& name is None ==> node.name == "节点 "@ + decimal(number)
        }),
{
    let place = address + seq![':'] + port;
    lemma_add_lacks(address, seq![':'], '#');
    lemma_add_lacks(address + seq![':'], port, '#');
    lemma_cut_last(address, ':', port);
    match name {
        Some(text) => {
            assert(place + name_part(name) =~= place + seq!['#'] + text);
            lemma_cut_first(place, '#', text);
        },
        None => {
            assert(place + name_part(name) =~= place);
            lemma_no_cut(place, '#');
        },
    }
}

/// An entry without a `:` is read for every address and every name or none: the address is kept,
/// and it is also the port where it is a number, which is 443 otherwise.
pub proof fn law_entry_without_a_port(
    address: Seq<char>,
    name: Option<Seq<char>>,
    number: nat,
)
    requires
        !address.contains('#'),
        !address.contains(':'),
    ensures
        ({
            let node = node_of(address + name_part(name), number);
            &&& node.address == address
            &&& u16_of(address) matches Some(n) ==> node.port == n
            &&& u16_of(address) is None ==> node.port == 443
            &&& name matches Some(text) ==> node.name == text
            &&& name is None ==> node.name == "节点 "@ + decimal(number)
        }),
{
    lemma_no_cut(address, ':');
    match name {
        Some(text) => {
            assert(address + name_part(name) =~= address + seq!['#'] + text);
            lemma_cut_first(address, '#', text);
        },
        None => {
            assert(address + name_part(name) =~= address);
            lemma_no_cut(address, '#');
        },
    }
}

/// An entry `address:port` without a name is read back as it was written, and the node gets its
/// number for a name.
pub proof fn law_nameless_node_is_read_as_written(address: Seq<char>, port: u16, number: nat)
    requires
        !address.contains('#'),
    ensures
        node_of(address + seq![':'] + decimal(port as nat), number) == (NodeView {
            address,
            port,
            name: "节点 "@ + decimal(number),
        }),
{
    let digits = decimal(port as nat);
    lemma_decimal_lacks(port as nat, '#');
    lemma_decimal_lacks(port as nat, ':');
    crate::text::law_u16_reads_decimal(port);
    law_entry_with_a_port(address, digits, None, number);
    assert(address + seq![':'] + digits + name_part(None) =~= address + seq![':'] + digits);
}

/// A subscription has a node for every entry of the list, in its order and behind the gateway's
/// own, and the numbers count that one too.
pub proof fn law_every_entry_is_a_node(list: Seq<Seq<char>>, host: Seq<char>, i: int)
    ensures
        node_list(list, host).len() == list.len() + 1,
        0 <= i < list.len() ==> node_list(list, host)[i + 1] == node_of(
            list[i],
            (i + 2) as nat,
        ),
        node_list(list, host)[0] == node_of(host + "#原生节点"@, 1),
{
}

/// What an entry lacks, the address of its node lacks too.
pub proof fn lemma_address_lacks(line: Seq<char>, number: nat, c: char)
    requires
        !line.contains(c),
    ensures
        !node_of(line, number).address.contains(c),
{
    lemma_find(line, '#', 0);
    let place = before_first(line, '#');
    lemma_range_lacks(line, 0, place.len() as int, c);
    lemma_rfind(place, ':', place.len() as int);
    let at = rfind(place, ':', place.len() as int);
    if at >= 0 {
        lemma_range_lacks(place, 0, at, c);
    }
}

/// What an entry lacks, the name of its node lacks too, unless it is a character of the numbered
/// names.
pub proof fn lemma_name_lacks(line: Seq<char>, number: nat, c: char)
    requires
        !line.contains(c),
        !("节点 "@).contains(c),
        !('0' <= c <= '9'),
    ensures
        !node_of(line, number).name.contains(c),
{
    lemma_find(line, '#', 0);
    let at = find(line, '#', 0);
    if at < line.len() {
        lemma_range_lacks(line, at + 1, line.len() as int, c);
    } else {
        lemma_decimal_lacks(number, c);
        lemma_add_lacks("节点 "@, decimal(number), c);
    }
}

/// An answer is refused for exactly one status, the one that makes 65535 with 200.
pub proof fn law_one_status_is_refused(status: u16)
    ensures
        status_refused(status) <==> status + 200 == 65535,
{
}

/// A list of nodes is seen as it is, node for node.
pub proof fn law_nodes_are_seen_as_they_are(v: Seq<(String, u16, String)>, i: int)
    requires
        0 <= i < v.len(),
    ensures
        nodes(v).len() == v.len(),
        nodes(v)[i].address == v[i].0@,
        nodes(v)[i].port == v[i].1,
        nodes(v)[i].name == v[i].2@,
{
}

} // verus!
