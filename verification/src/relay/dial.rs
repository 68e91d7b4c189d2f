//! Connecting to the far end of a tunnel: directly, through NAT64, or through a proxy.

use super::config::Config;
use super::error::Error;
use crate::address::{ipv4_of, parse_ipv4};
use crate::gateway::dial::{doh_query, doh_url, law_doh_query_is_read_back};
use crate::text::{
    after_first, all_hex, before_first, hex_number, hex_pair, law_hex_pairs_make_a_number,
    lemma_cut_first, lemma_no_cut, parse_u16, parts_of, push_hex_pair, split_first, u16_of,
};
use vstd::prelude::*;

verus! {

// ---------------------------------------------------------------------------
// NAT64 and the proxy
// ---------------------------------------------------------------------------

/// An IPv4 address behind a NAT64 prefix, in brackets. What follows a slash in the prefix is left
/// out.
pub open spec fn nat64_text(o: Seq<u8>, prefix: Seq<char>) -> Seq<char> {
    "["@ + before_first(prefix, '/') + hex_pair(o[0]) + hex_pair(o[1]) + ":"@ + hex_pair(o[2])
        + hex_pair(o[3]) + "]"@
}

/// Puts an IPv4 address behind a NAT64 prefix.
pub fn convert_ipv4_to_nat64(ipv4: [u8; 4], nat64_prefix: &str) -> (out: String)
    ensures
        out@ == nat64_text(ipv4@, nat64_prefix@),
{
    let (clean_prefix, _) = split_first(nat64_prefix, '/');
    let mut out = "[".to_owned();
    out.append(clean_prefix.as_str());
    push_hex_pair(&mut out, ipv4[0]);
    push_hex_pair(&mut out, ipv4[1]);
    out.append(":");
    push_hex_pair(&mut out, ipv4[2]);
    push_hex_pair(&mut out, ipv4[3]);
    out.append("]");
    out
}

/// The port of a proxy `host:port`: what stands between the first and the second `:`, or 443.
pub open spec fn proxy_port(proxy: Seq<char>) -> u16 {
    match after_first(proxy, ':') {
        Some(rest) => match u16_of(before_first(rest, ':')) {
            Some(port) => port,
            None => 443,
        },
        None => 443,
    }
}

/// Takes a proxy `host:port` apart.
pub fn proxy_target(proxy: &str) -> (r: (String, u16))
    ensures
        r.0@ == before_first(proxy@, ':'),
        r.1 == proxy_port(proxy@),
{
    let (host, rest) = split_first(proxy, ':');
    let port: u16 = match rest {
        Some(rest) => {
            let (port, _) = split_first(rest.as_str(), ':');
            match parse_u16(port.as_str()) {
                Some(port) => port,
                None => 443,
            }
        },
        None => 443,
    };
    (host, port)
}

// ---------------------------------------------------------------------------
// Resolving a name
// ---------------------------------------------------------------------------

/// An answer of a name server: its kind, where that is a number, and its data, where that is text.
pub struct DnsRecord {
    pub type_code: Option<u64>,
    pub data: Option<String>,
}

/// The address in the first answer that is an IPv4 address and has data.
pub open spec fn first_a(answers: Seq<DnsRecord>) -> Result<Seq<u8>, Error<Seq<char>>>
    decreases answers.len(),
{
    if answers.len() == 0 {
        Err(Error::NoARecord)
    } else {
        match (answers[0].type_code, answers[0].data) {
            (Some(1), Some(data)) => match ipv4_of(data@) {
                Some(o) => Ok(o),
                None => Err(Error::ParseIpv4Failed),
            },
            _ => first_a(answers.skip(1)),
        }
    }
}

/// Takes the first IPv4 address out of the answers of a name server, where it gave any.
pub fn resolve_domain_to_ipv4(answers: Option<Vec<DnsRecord>>) -> (r: Result<
    [u8; 4],
    Error<String>,
>)
    ensures
        match r {
            Ok(o) => answers matches Some(a) && first_a(a@) == Ok::<Seq<u8>, Error<Seq<char>>>(o@),
            Err(e) => match answers {
                Some(a) => first_a(a@) == Err::<Seq<u8>, Error<Seq<char>>>(e@),
                None => e@ == Error::<Seq<char>>::NoARecord,
            },
        },
{
    match &answers {
        Some(list) => {
            let mut i: usize = 0;
            assert(list@.skip(0) =~= list@);
            while i < list.len()
                invariant
                    i <= list@.len(),
                    answers == Some(*list),
                    first_a(list@) == first_a(list@.skip(i as int)),
                decreases list.len() - i,
            {
                if let (Some(kind), Some(data)) = (&list[i].type_code, &list[i].data) {
                    if *kind == 1 {
                        return match parse_ipv4(data.as_str()) {
                            Some(o) => Ok(o),
                            None => Err(Error::ParseIpv4Failed),
                        };
                    }
                }
                assert(list@.skip(i as int).skip(1) =~= list@.skip(i + 1));
                i += 1;
            }
            Err(Error::NoARecord)
        },
        None => Err(Error::NoARecord),
    }
}

// ---------------------------------------------------------------------------
// The attempts
// ---------------------------------------------------------------------------

/// How far the attempts have come.
#[derive(Clone, Copy, PartialEq, Eq, Structural)]
pub enum Stage {
    Direct,
    Resolving,
    Nat64,
    /// The proxy, after NAT64 refused.
    ProxyAfterNat64,
    /// The proxy, where there is no NAT64.
    ProxyOnly,
    Done,
}

/// What came of the last action.
pub enum Event {
    Connected,
    Refused,
    Resolved([u8; 4]),
    Unresolved,
}

/// What to do next.
pub enum Action<T> {
    /// Connect to this host and port.
    Connect(T, u16),
    /// Ask a name server at this URL.
    Resolve(T),
    /// Use the connection.
    Use,
    /// Give up.
    Fail(Error<T>),
}

impl View for Action<String> {
    type V = Action<Seq<char>>;

    open spec fn view(&self) -> Action<Seq<char>> {
        match *self {
            Action::Connect(host, port) => Action::Connect(host@, port),
            Action::Resolve(url) => Action::Resolve(url@),
            Action::Use => Action::Use,
            Action::Fail(e) => Action::Fail(e@),
        }
    }
}

/// Whether an event can come of the action that a stage waits for.
pub open spec fn answers(stage: Stage, event: Event) -> bool {
    match event {
        Event::Connected | Event::Refused => stage != Stage::Resolving && stage != Stage::Done,
        Event::Resolved(_) | Event::Unresolved => stage == Stage::Resolving,
    }
}

/// The proxy, as a place to connect to.
pub open spec fn to_proxy(config: Config) -> Action<Seq<char>> {
    Action::Connect(before_first(config.proxy_ip@, ':'), proxy_port(config.proxy_ip@))
}

/// An IPv4 address through NAT64, as a place to connect to.
pub open spec fn to_nat64(o: Seq<u8>, port: u16, config: Config) -> Action<Seq<char>> {
    Action::Connect(nat64_text(o, config.nat64_prefix@), port)
}

/// What follows an event.
pub open spec fn next(
    stage: Stage,
    event: Event,
    address: Seq<char>,
    port: u16,
    config: Config,
) -> (Stage, Action<Seq<char>>) {
    match (stage, event) {
        (_, Event::Connected) => (Stage::Done, Action::Use),
        (_, Event::Resolved(o)) => (Stage::Nat64, to_nat64(o@, port, config)),
        (_, Event::Unresolved) => (Stage::Done, Action::Fail(Error::ResolveFailed)),
        (Stage::Direct, Event::Refused) => if config.nat64_prefix@.len() > 0 {
            match ipv4_of(address) {
                Some(o) => (Stage::Nat64, to_nat64(o, port, config)),
                None => (
                    Stage::Resolving,
                    Action::Resolve(doh_query(config.doh_address@, address)),
                ),
            }
        } else if config.proxy_ip@.len() > 0 {
            (Stage::ProxyOnly, to_proxy(config))
        } else {
            (Stage::Done, Action::Fail(Error::NoFallback))
        },
        (Stage::Nat64, Event::Refused) => if config.proxy_ip@.len() > 0 {
            (Stage::ProxyAfterNat64, to_proxy(config))
        } else {
            (Stage::Done, Action::Fail(Error::Nat64FailedNoProxy))
        },
        (Stage::ProxyOnly, Event::Refused) => (
            Stage::Done,
            Action::Fail(Error::DirectAndProxyFailed),
        ),
        _ => (Stage::Done, Action::Fail(Error::AllConnectionsFailed)),
    }
}

fn try_proxy(config: &Config) -> (action: Action<String>)
    ensures
        action@ == to_proxy(*config),
{
    let (host, port) = proxy_target(config.proxy_ip.as_str());
    Action::Connect(host, port)
}

fn try_nat64(ipv4: [u8; 4], port: u16, config: &Config) -> (action: Action<String>)
    ensures
        action@ == to_nat64(ipv4@, port, *config),
{
    Action::Connect(convert_ipv4_to_nat64(ipv4, config.nat64_prefix.as_str()), port)
}

/// Starts to connect: directly, to the address and the port that were asked for.
pub fn connect_socket(address: &str, port: u16) -> (r: (Stage, Action<String>))
    ensures
        r.0 == Stage::Direct,
        r.1@ == Action::Connect(address@, port),
{
    (Stage::Direct, Action::Connect(address.to_owned(), port))
}

/// Goes on to connect: what to do after an event.
pub fn continue_connection(
    stage: Stage,
    event: Event,
    address: &str,
    port: u16,
    config: &Config,
) -> (r: (Stage, Action<String>))
    requires
        answers(stage, event),
    ensures
        (r.0, r.1@) == next(stage, event, address@, port, *config),
{
    match event {
        Event::Connected => (Stage::Done, Action::Use),
        Event::Resolved(ipv4) => (Stage::Nat64, try_nat64(ipv4, port, config)),
        Event::Unresolved => (Stage::Done, Action::Fail(Error::ResolveFailed)),
        Event::Refused => match stage {
            Stage::Direct => if !config.nat64_prefix.as_str().is_empty() {
                match parse_ipv4(address) {
                    Some(ipv4) => (Stage::Nat64, try_nat64(ipv4, port, config)),
                    None => (
                        Stage::Resolving,
                        Action::Resolve(doh_url(address, config.doh_address.as_str())),
                    ),
                }
            } else if !config.proxy_ip.as_str().is_empty() {
                (Stage::ProxyOnly, try_proxy(config))
            } else {
                (Stage::Done, Action::Fail(Error::NoFallback))
            },
            Stage::Nat64 => if !config.proxy_ip.as_str().is_empty() {
                (Stage::ProxyAfterNat64, try_proxy(config))
            } else {
                (Stage::Done, Action::Fail(Error::Nat64FailedNoProxy))
            },
            Stage::ProxyOnly => (Stage::Done, Action::Fail(Error::DirectAndProxyFailed)),
            _ => (Stage::Done, Action::Fail(Error::AllConnectionsFailed)),
        },
    }
}

// ---------------------------------------------------------------------------
// Laws
// ---------------------------------------------------------------------------

/// How many stages can still follow.
pub open spec fn rank(stage: Stage) -> nat {
    match stage {
        Stage::Direct => 4,
        Stage::Resolving => 3,
        Stage::Nat64 => 2,
        Stage::ProxyAfterNat64 | Stage::ProxyOnly => 1,
        Stage::Done => 0,
    }
}

/// Every event moves on to a later stage, so connecting comes to an end.
pub proof fn law_connecting_ends(
    stage: Stage,
    event: Event,
    address: Seq<char>,
    port: u16,
    config: Config,
)
    requires
        answers(stage, event),
    ensures
        rank(next(stage, event, address, port, config).0) < rank(stage),
        next(stage, event, address, port, config).0 == Stage::Done <==> (next(
            stage,
            event,
            address,
            port,
            config,
        ).1 is Use || next(stage, event, address, port, config).1 is Fail),
{
}

/// The places that are tried from an action on when every one of them refuses and the name server
/// answers with `answer`, and the action at the end.
pub open spec fn all_refused(
    stage: Stage,
    action: Action<Seq<char>>,
    address: Seq<char>,
    port: u16,
    config: Config,
    answer: Option<[u8; 4]>,
) -> (Seq<(Seq<char>, u16)>, Action<Seq<char>>)
    decreases rank(stage),
{
    let event = match (action, answer) {
        (Action::Resolve(_), Some(ipv4)) => Event::Resolved(ipv4),
        (Action::Resolve(_), None) => Event::Unresolved,
        _ => Event::Refused,
    };
    let (later, then) = next(stage, event, address, port, config);
    if (action is Use || action is Fail) || rank(later) >= rank(stage) {
        (Seq::empty(), action)
    } else {
        let (rest, last) = all_refused(later, then, address, port, config, answer);
        match action {
            Action::Connect(host, port) => (seq![(host, port)] + rest, last),
            _ => (rest, last),
        }
    }
}

/// The IPv4 address that NAT64 is tried with: the destination itself, or what the name server
/// answered for it.
pub open spec fn nat64_source(address: Seq<char>, answer: Option<[u8; 4]>) -> Option<Seq<u8>> {
    match (ipv4_of(address), answer) {
        (Some(o), _) => Some(o),
        (None, Some(o)) => Some(o@),
        (None, None) => None,
    }
}

/// Where every connection is refused, the attempts are the direct one, then the one through NAT64
/// where a prefix is set, then the one through the proxy where one is set. A name that cannot be
/// resolved for NAT64 ends them before the proxy. The error says which of them there were.
pub proof fn law_order_of_attempts(
    address: Seq<char>,
    port: u16,
    config: Config,
    answer: Option<[u8; 4]>,
)
    ensures
        all_refused(Stage::Direct, Action::Connect(address, port), address, port, config, answer)
            == ({
            let direct = (address, port);
            let proxy = (before_first(config.proxy_ip@, ':'), proxy_port(config.proxy_ip@));
            let has_proxy = config.proxy_ip@.len() > 0;
            if config.nat64_prefix@.len() > 0 {
                match nat64_source(address, answer) {
                    None => (seq![direct], Action::<Seq<char>>::Fail(Error::ResolveFailed)),
                    Some(o) => {
                        let nat64 = (nat64_text(o, config.nat64_prefix@), port);
                        if has_proxy {
                            (
                                seq![direct, nat64, proxy],
                                Action::<Seq<char>>::Fail(Error::AllConnectionsFailed),
                            )
                        } else {
                            (
                                seq![direct, nat64],
                                Action::<Seq<char>>::Fail(Error::Nat64FailedNoProxy),
                            )
                        }
                    },
                }
            } else if has_proxy {
                (seq![direct, proxy], Action::<Seq<char>>::Fail(Error::DirectAndProxyFailed))
            } else {
                (seq![direct], Action::<Seq<char>>::Fail(Error::NoFallback))
            }
        }),
{
    reveal_with_fuel(all_refused, 5);
    let start = Action::Connect(address, port);
    let tried = all_refused(Stage::Direct, start, address, port, config, answer).0;
    let direct = (address, port);
    let proxy = (before_first(config.proxy_ip@, ':'), proxy_port(config.proxy_ip@));
    if config.nat64_prefix@.len() > 0 {
        match nat64_source(address, answer) {
            None => {
                assert(tried =~= seq![direct]);
            },
            Some(o) => {
                let nat64 = (nat64_text(o, config.nat64_prefix@), port);
                if config.proxy_ip@.len() > 0 {
                    assert(tried =~= seq![direct, nat64, proxy]);
                } else {
                    assert(tried =~= seq![direct, nat64]);
                }
            },
        }
    } else if config.proxy_ip@.len() > 0 {
        assert(tried =~= seq![direct, proxy]);
    } else {
        assert(tried =~= seq![direct]);
    }
}

/// A connection that succeeds is used, at every stage that waits for one and whatever the
/// destination and the settings; nothing else is tried behind it.
pub proof fn law_a_connection_is_used(
    stage: Stage,
    address: Seq<char>,
    port: u16,
    config: Config,
)
    ensures
        next(stage, Event::Connected, address, port, config).0 == Stage::Done,
        next(stage, Event::Connected, address, port, config).1 == Action::<Seq<char>>::Use,
{
}

/// Only a connection that succeeds is used: no other event leads to `Use`. Giving up after a
/// refusal names no resolving, and giving up over a name that is not resolved names nothing else.
pub proof fn law_nothing_else_is_used(
    stage: Stage,
    event: Event,
    address: Seq<char>,
    port: u16,
    config: Config,
)
    requires
        answers(stage, event),
        event !is Connected,
    ensures
        next(stage, event, address, port, config).1 !is Use,
        next(stage, event, address, port, config).1 matches Action::Fail(e) ==> (e
            == Error::<Seq<char>>::ResolveFailed <==> event is Unresolved),
        event is Resolved ==> next(stage, event, address, port, config).1 is Connect,
{
}

/// A name server is asked exactly where the destination refused, there is a NAT64 prefix and the
/// destination is not itself an IPv4 address, and it is asked for that name.
pub proof fn law_names_are_resolved(address: Seq<char>, port: u16, config: Config)
    requires
        !config.doh_address@.contains('?'),
        !address.contains('&'),
    ensures
        ({
            let action = next(Stage::Direct, Event::Refused, address, port, config).1;
            &&& action is Resolve <==> config.nat64_prefix@.len() > 0 && ipv4_of(address) is None
            &&& action matches Action::Resolve(url) ==> {
                &&& before_first(url, '?') == "https://"@ + config.doh_address@ + "/dns-query"@
                &&& after_first(url, '?') is Some
                &&& parts_of(after_first(url, '?')->0, '&') == seq!["name="@ + address, "type=A"@]
            }
        }),
{
    law_doh_query_is_read_back(config.doh_address@, address);
}

/// A NAT64 address stands in brackets: the prefix up to its first slash, and two groups of four
/// digits in base sixteen, with a colon between them, that stand for the four octets.
pub proof fn law_nat64_shows_the_address(
    o: Seq<u8>,
    prefix: Seq<char>,
    length: Option<Seq<char>>,
)
    requires
        o.len() == 4,
        !prefix.contains('/'),
    ensures
        ({
            let t = nat64_text(
                o,
                match length {
                    Some(length) => prefix + seq!['/'] + length,
                    None => prefix,
                },
            );
            let n: int = prefix.len() as int;
            &&& t.len() == n + 11
            &&& t[0] == '['
            &&& t.subrange(1, 1 + n) == prefix
            &&& all_hex(t.subrange(1 + n, 5 + n))
            &&& hex_number(t.subrange(1 + n, 5 + n)) == o[0] * 256 + o[1]
            &&& t[5 + n] == ':'
            &&& all_hex(t.subrange(6 + n, 10 + n))
            &&& hex_number(t.subrange(6 + n, 10 + n)) == o[2] * 256 + o[3]
            &&& t[10 + n] == ']'
        }),
{
    let whole = match length {
        Some(length) => prefix + seq!['/'] + length,
        None => prefix,
    };
    let t = nat64_text(o, whole);
    let n: int = prefix.len() as int;
    match length {
        Some(length) => {
            lemma_cut_first(prefix, '/', length);
        },
        None => {
            lemma_no_cut(prefix, '/');
        },
    }
    law_hex_pairs_make_a_number(o[0], o[1]);
    law_hex_pairs_make_a_number(o[2], o[3]);
    reveal_strlit("[");
    reveal_strlit(":");
    reveal_strlit("]");
    assert(t.subrange(1, 1 + n) =~= prefix);
    assert(t.subrange(1 + n, 5 + n) =~= hex_pair(o[0]) + hex_pair(o[1]));
    assert(t.subrange(6 + n, 10 + n) =~= hex_pair(o[2]) + hex_pair(o[3]));
}

/// A proxy is connected to at the host before its first `:`, and at the port behind it: up to
/// another `:`, where there is one, and 443 where that is no port or there is none.
pub proof fn law_proxy_is_read_as_written(
    host: Seq<char>,
    port: Seq<char>,
    more: Option<Seq<char>>,
    config: Config,
)
    requires
        !host.contains(':'),
        !port.contains(':'),
    ensures
        config.proxy_ip@ == host ==> to_proxy(config) == Action::Connect(host, 443),
        config.proxy_ip@ == host + seq![':'] + (match more {
            Some(more) => port + seq![':'] + more,
            None => port,
        }) ==> to_proxy(config) == Action::Connect(
            host,
            match u16_of(port) {
                Some(n) => n,
                None => 443,
            },
        ),
{
    let rest = match more {
        Some(more) => port + seq![':'] + more,
        None => port,
    };
    lemma_no_cut(host, ':');
    lemma_cut_first(host, ':', rest);
    match more {
        Some(more) => {
            lemma_cut_first(port, ':', more);
        },
        None => {
            lemma_no_cut(port, ':');
        },
    }
}

/// A name is resolved by the first answer that is an IPv4 address and has data, wherever in the
/// list it stands: to that address, or to an error where the data is none. Without such an answer
/// there is no address.
pub proof fn law_first_address_is_taken(
    before: Seq<DnsRecord>,
    found: DnsRecord,
    rest: Seq<DnsRecord>,
)
    requires
        forall|i: int|
            0 <= i < before.len() ==> (#[trigger] before[i]).type_code != Some(1u64)
                || before[i].data is None,
    ensures
        first_a(before) == Err::<Seq<u8>, Error<Seq<char>>>(Error::NoARecord),
        found.type_code == Some(1u64) && found.data is Some ==> first_a(
            before + seq![found] + rest,
        ) == (match ipv4_of(found.data->0@) {
            Some(o) => Ok::<Seq<u8>, Error<Seq<char>>>(o),
            None => Err(Error::ParseIpv4Failed),
        }),
    decreases before.len(),
{
    let all = before + seq![found] + rest;
    if before.len() > 0 {
        let less = before.skip(1);
        assert(before[0].type_code != Some(1u64) || before[0].data is None);
        assert forall|i: int| 0 <= i < less.len() implies (#[trigger] less[i]).type_code != Some(
            1u64,
        ) || less[i].data is None by {
            assert(less[i] == before[i + 1]);
        }
        law_first_address_is_taken(less, found, rest);
        assert(all[0] == before[0]);
        assert(all.skip(1) =~= less + seq![found] + rest);
    } else {
        assert(all[0] == found);
    }
}

/// What to do next is seen as it is.
pub proof fn law_actions_are_seen_as_they_are(text: String, port: u16, e: Error<String>)
    ensures
        Action::Connect(text, port)@ == Action::Connect(text@, port),
        Action::Resolve(text)@ == Action::Resolve(text@),
        Action::<String>::Use@ == Action::<Seq<char>>::Use,
        Action::<String>::Fail(e)@ == Action::Fail(e@),
{
}

} // verus!
