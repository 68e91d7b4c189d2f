//! Connecting to the far end of a tunnel: directly, through NAT64, or through a proxy.

use super::config::AppConfig;
use super::error::Error;
use super::header::DestinationAddress;
use super::nodes::{refuses_status, status_refused};
use crate::address::{ipv4_of, parse_ipv4};
use crate::environment::optional;
use crate::text::{
    after_first, after_last, all_hex, before_first, before_last, decimal, decimal_text, hex_number,
    hex_pair, law_hex_pairs_make_a_number, law_parts_add, law_parts_one, law_trimming_end_of,
    law_u16_reads_decimal, lemma_add_lacks, lemma_cut_first, lemma_cut_last, lemma_decimal_lacks,
    lemma_no_cut, parse_u16, parts_of, push_hex_pair, split_last, trim_end_of, trimmed_end_of,
    u16_of,
};
use vstd::prelude::*;

verus! {

// ---------------------------------------------------------------------------
// NAT64
// ---------------------------------------------------------------------------

/// An IPv4 address behind a NAT64 prefix, in brackets. Slashes at the end of the prefix are left
/// out.
pub open spec fn nat64_text(o: Seq<u8>, prefix: Seq<char>) -> Seq<char> {
    "["@ + trimmed_end_of(prefix, '/') + ":"@ + hex_pair(o[0]) + hex_pair(o[1]) + ":"@ + hex_pair(
        o[2],
    ) + hex_pair(o[3]) + "]"@
}

/// Puts an IPv4 address behind a NAT64 prefix.
pub fn convert_ipv4_to_nat64(ipv4: &str, prefix: &str) -> (r: Result<String, Error<String>>)
    ensures
        match r {
            Ok(t) => ipv4_of(ipv4@) matches Some(o) && t@ == nat64_text(o, prefix@),
            Err(e) => ipv4_of(ipv4@) is None && e@ == Error::<Seq<char>>::InvalidIpv4,
        },
{
    let clean_prefix = trim_end_of(prefix, '/');
    match parse_ipv4(ipv4) {
        Some(o) => {
            let mut out = "[".to_owned();
            out.append(clean_prefix.as_str());
            out.append(":");
            push_hex_pair(&mut out, o[0]);
            push_hex_pair(&mut out, o[1]);
            out.append(":");
            push_hex_pair(&mut out, o[2]);
            push_hex_pair(&mut out, o[3]);
            out.append("]");
            Ok(out)
        },
        None => Err(Error::InvalidIpv4),
    }
}

// ---------------------------------------------------------------------------
// Resolving a name
// ---------------------------------------------------------------------------

/// An answer of a name server.
pub struct DohAnswer {
    pub data: String,
    pub type_code: u16,
}

/// The answers of a name server, where it gave any.
pub struct DohResponse {
    pub answer: Option<Vec<DohAnswer>>,
}

/// Where to ask a name server for the IPv4 address of a domain name.
pub open spec fn doh_query(doh_address: Seq<char>, domain: Seq<char>) -> Seq<char> {
    "https://"@ + doh_address + "/dns-query?name="@ + domain + "&type=A"@
}

/// Where to ask a name server for the IPv4 address of a domain name.
pub fn doh_url(domain: &str, doh_address: &str) -> (out: String)
    ensures
        out@ == doh_query(doh_address@, domain@),
{
    let mut out = "https://".to_owned();
    out.append(doh_address);
    out.append("/dns-query?name=");
    out.append(domain);
    out.append("&type=A");
    out
}

/// Refuses the answer of a name server for its status.
pub fn check_doh_status(status: u16) -> (r: Result<(), Error<String>>)
    ensures
        match r {
            Ok(_) => !status_refused(status),
            Err(e) => status_refused(status) && e@ == Error::<Seq<char>>::DohStatus(status),
        },
{
    if refuses_status(status) {
        Err(Error::DohStatus(status))
    } else {
        Ok(())
    }
}

/// The data of the first answer that is an IPv4 address.
pub open spec fn first_a(answers: Seq<DohAnswer>) -> Option<Seq<char>>
    decreases answers.len(),
{
    if answers.len() == 0 {
        None
    } else if answers[0].type_code == 1 {
        Some(answers[0].data@)
    } else {
        first_a(answers.skip(1))
    }
}

/// Takes the first IPv4 address out of the answers of a name server.
pub fn resolve_domain_to_ipv4(response: DohResponse) -> (r: Result<String, Error<String>>)
    ensures
        match r {
            Ok(t) => response.answer matches Some(answers) && first_a(answers@) == Some(t@),
            Err(e) => {
                &&& response.answer matches Some(answers) ==> first_a(answers@) is None
                &&& e@ == Error::<Seq<char>>::NoARecord
            },
        },
{
    match response.answer {
        Some(answers) => {
            let mut i: usize = 0;
            assert(answers@.skip(0) =~= answers@);
            while i < answers.len()
                invariant
                    i <= answers@.len(),
                    response.answer == Some(answers),
                    first_a(answers@) == first_a(answers@.skip(i as int)),
                decreases answers.len() - i,
            {
                if answers[i].type_code == 1 {
                    return Ok(answers[i].data.clone());
                }
                assert(answers@.skip(i as int).skip(1) =~= answers@.skip(i + 1));
                i += 1;
            }
            Err(Error::NoARecord)
        },
        None => Err(Error::NoARecord),
    }
}

// ---------------------------------------------------------------------------
// The attempts
// ---------------------------------------------------------------------------

/// How far the attempts have come.
#[derive(Clone, Copy, PartialEq, Eq, Structural)]
pub enum Stage {
    Direct,
    Resolving,
    Nat64,
    Proxy,
    Done,
}

/// What came of the last action.
pub enum Event<T> {
    Connected,
    Refused,
    Resolved(T),
    Unresolved,
}

/// What to do next.
pub enum Action<T> {
    /// Connect to this address.
    Connect(T),
    /// Ask a name server at this URL.
    Resolve(T),
    /// Use the connection.
    Use,
    /// Give up.
    Fail(Error<T>),
}

impl View for Event<String> {
    type V = Event<Seq<char>>;

    open spec fn view(&self) -> Event<Seq<char>> {
        match *self {
            Event::Connected => Event::Connected,
            Event::Refused => Event::Refused,
            Event::Resolved(t) => Event::Resolved(t@),
            Event::Unresolved => Event::Unresolved,
        }
    }
}

impl View for Action<String> {
    type V = Action<Seq<char>>;

    open spec fn view(&self) -> Action<Seq<char>> {
        match *self {
            Action::Connect(t) => Action::Connect(t@),
            Action::Resolve(t) => Action::Resolve(t@),
            Action::Use => Action::Use,
            Action::Fail(e) => Action::Fail(e@),
        }
    }
}

/// Whether an event can come of the action that a stage waits for.
pub open spec fn answers(stage: Stage, event: Event<Seq<char>>) -> bool {
    match event {
        Event::Connected | Event::Refused => {
            stage == Stage::Direct || stage == Stage::Nat64 || stage == Stage::Proxy
        },
        Event::Resolved(_) | Event::Unresolved => stage == Stage::Resolving,
    }
}

/// `host:port`.
pub open spec fn with_port(host: Seq<char>, port: u16) -> Seq<char> {
    host + ":"@ + decimal(port as nat)
}

/// The proxy is the last attempt, where there is one.
pub open spec fn to_proxy(config: AppConfig) -> (Stage, Action<Seq<char>>) {
    match optional(config.proxy_ip) {
        Some(proxy) => (Stage::Proxy, Action::Connect(proxy)),
        None => (Stage::Done, Action::Fail(Error::AllConnectionsFailed)),
    }
}

/// NAT64 is tried with an IPv4 address. Anything else is passed over.
pub open spec fn to_nat64(
    ipv4: Seq<char>,
    prefix: Seq<char>,
    port: u16,
    config: AppConfig,
) -> (Stage, Action<Seq<char>>) {
    match ipv4_of(ipv4) {
        Some(o) => (Stage::Nat64, Action::Connect(with_port(nat64_text(o, prefix), port))),
        None => to_proxy(config),
    }
}

/// What follows an event.
pub open spec fn next(
    stage: Stage,
    event: Event<Seq<char>>,
    dest: DestinationAddress,
    config: AppConfig,
) -> (Stage, Action<Seq<char>>) {
    match event {
        Event::Connected => (Stage::Done, Action::Use),
        Event::Refused => match (stage, optional(config.nat64_prefix)) {
            (Stage::Direct, Some(prefix)) => if dest.addr_type == 1 {
                to_nat64(dest.host@, prefix, dest.port, config)
            } else if dest.addr_type == 2 {
                (
                    Stage::Resolving,
                    Action::Resolve(doh_query(config.doh_address@, dest.host@)),
                )
            } else {
                to_proxy(config)
            },
            (Stage::Proxy, _) => (Stage::Done, Action::Fail(Error::AllConnectionsFailed)),
            _ => to_proxy(config),
        },
        Event::Resolved(ipv4) => match optional(config.nat64_prefix) {
            Some(prefix) => to_nat64(ipv4, prefix, dest.port, config),
            None => to_proxy(config),
        },
        Event::Unresolved => to_proxy(config),
    }
}

fn join_port(host: &str, port: u16) -> (out: String)
    ensures
        out@ == with_port(host@, port),
{
    let mut out = host.to_owned();
    out.append(":");
    out.append(decimal_text(port as u64).as_str());
    out
}

fn try_proxy(config: &AppConfig) -> (r: (Stage, Action<String>))
    ensures
        (r.0, r.1@) == to_proxy(*config),
{
    match &config.proxy_ip {
        Some(proxy) => (Stage::Proxy, Action::Connect(proxy.clone())),
        None => (Stage::Done, Action::Fail(Error::AllConnectionsFailed)),
    }
}

fn try_nat64(ipv4: &str, prefix: &str, port: u16, config: &AppConfig) -> (r: (
    Stage,
    Action<String>,
))
    ensures
        (r.0, r.1@) == to_nat64(ipv4@, prefix@, port, *config),
{
    match convert_ipv4_to_nat64(ipv4, prefix) {
        Ok(address) => (Stage::Nat64, Action::Connect(join_port(address.as_str(), port))),
        Err(_) => try_proxy(config),
    }
}

/// Starts to connect: directly, to the host and the port that were asked for.
pub fn establish_tcp_connection(dest: &DestinationAddress) -> (r: (Stage, Action<String>))
    ensures
        r.0 == Stage::Direct,
        r.1@ == Action::Connect(with_port(dest.host@, dest.port)),
{
    (Stage::Direct, Action::Connect(join_port(dest.host.as_str(), dest.port)))
}

/// Goes on to connect: what to do after an event.
pub fn continue_connection(
    stage: Stage,
    event: Event<String>,
    dest: &DestinationAddress,
    config: &AppConfig,
) -> (r: (Stage, Action<String>))
    requires
        answers(stage, event@),
    ensures
        (r.0, r.1@) == next(stage, event@, *dest, *config),
{
    match event {
        Event::Connected => (Stage::Done, Action::Use),
        Event::Refused => match stage {
            Stage::Direct => match &config.nat64_prefix {
                Some(prefix) => if dest.addr_type == 1 {
                    try_nat64(dest.host.as_str(), prefix.as_str(), dest.port, config)
                } else if dest.addr_type == 2 {
                    (
                        Stage::Resolving,
                        Action::Resolve(doh_url(dest.host.as_str(), config.doh_address.as_str())),
                    )
                } else {
                    try_proxy(config)
                },
                None => try_proxy(config),
            },
            Stage::Proxy => (Stage::Done, Action::Fail(Error::AllConnectionsFailed)),
            _ => try_proxy(config),
        },
        Event::Resolved(ipv4) => match &config.nat64_prefix {
            Some(prefix) => try_nat64(ipv4.as_str(), prefix.as_str(), dest.port, config),
            None => try_proxy(config),
        },
        Event::Unresolved => try_proxy(config),
    }
}

/// The host and the port of `host:port`: what stands before and behind the last `:`.
pub open spec fn target(address: Seq<char>) -> Option<(Seq<char>, u16)> {
    match (before_last(address, ':'), u16_of(after_last(address, ':'))) {
        (Some(host), Some(port)) => Some((host, port)),
        _ => None,
    }
}

/// Takes `host:port` apart.
pub fn target_of(address: &str) -> (r: Option<(String, u16)>)
    ensures
        match r {
            Some((host, port)) => target(address@) == Some((host@, port)),
            None => target(address@) is None,
        },
{
    let (host, port) = split_last(address, ':');
    match (host, parse_u16(port.as_str())) {
        (Some(host), Some(port)) => Some((host, port)),
        _ => None,
    }
}

// ---------------------------------------------------------------------------
// Laws
// ---------------------------------------------------------------------------

/// A host and a port that are put together are taken apart again.
pub proof fn law_target_is_read_as_written(host: Seq<char>, port: u16)
    ensures
        target(with_port(host, port)) == Some((host, port)),
{
    reveal_strlit(":");
    assert(":"@ =~= seq![':']);
    lemma_decimal_lacks(port as nat, ':');
    lemma_cut_last(host, ':', decimal(port as nat));
    law_u16_reads_decimal(port);
}

/// How many stages can still follow.
pub open spec fn rank(stage: Stage) -> nat {
    match stage {
        Stage::Direct => 4,
        Stage::Resolving => 3,
        Stage::Nat64 => 2,
        Stage::Proxy => 1,
        Stage::Done => 0,
    }
}

/// Every event moves on to a later stage, so connecting comes to an end.
pub proof fn law_connecting_ends(
    stage: Stage,
    event: Event<Seq<char>>,
    dest: DestinationAddress,
    config: AppConfig,
)
    requires
        answers(stage, event),
    ensures
        rank(next(stage, event, dest, config).0) < rank(stage),
        next(stage, event, dest, config).0 == Stage::Done <==> (next(
            stage,
            event,
            dest,
            config,
        ).1 is Use || next(stage, event, dest, config).1 is Fail),
{
}

/// The addresses that are tried from an action on when every one of them refuses and the name
/// server answers with `answer`, and the action at the end.
pub open spec fn all_refused(
    stage: Stage,
    action: Action<Seq<char>>,
    dest: DestinationAddress,
    config: AppConfig,
    answer: Option<Seq<char>>,
) -> (Seq<Seq<char>>, Action<Seq<char>>)
    decreases rank(stage),
{
    let event = match (action, answer) {
        (Action::Resolve(_), Some(ipv4)) => Event::Resolved(ipv4),
        (Action::Resolve(_), None) => Event::Unresolved,
        _ => Event::Refused,
    };
    let (later, then) = next(stage, event, dest, config);
    if (action is Use || action is Fail) || rank(later) >= rank(stage) {
        (Seq::empty(), action)
    } else {
        let (rest, last) = all_refused(later, then, dest, config, answer);
        match action {
            Action::Connect(address) => (seq![address] + rest, last),
            _ => (rest, last),
        }
    }
}

/// The IPv4 address that NAT64 is tried with: the destination itself, or what the name server
/// answered for it.
pub open spec fn nat64_source(dest: DestinationAddress, answer: Option<Seq<char>>) -> Option<
    Seq<char>,
> {
    if dest.addr_type == 1 {
        Some(dest.host@)
    } else if dest.addr_type == 2 {
        answer
    } else {
        None
    }
}

/// The attempts through NAT64: at most one.
pub open spec fn nat64_attempts(
    dest: DestinationAddress,
    config: AppConfig,
    answer: Option<Seq<char>>,
) -> Seq<Seq<char>> {
    match (optional(config.nat64_prefix), nat64_source(dest, answer)) {
        (Some(prefix), Some(ipv4)) => match ipv4_of(ipv4) {
            Some(o) => seq![with_port(nat64_text(o, prefix), dest.port)],
            None => Seq::empty(),
        },
        _ => Seq::empty(),
    }
}

/// The attempts through a proxy: at most one.
pub open spec fn proxy_attempts(config: AppConfig) -> Seq<Seq<char>> {
    match optional(config.proxy_ip) {
        Some(proxy) => seq![proxy],
        None => Seq::empty(),
    }
}

/// Where every connection is refused, the attempts are the direct one, then the one through NAT64,
/// then the one through the proxy, as far as there are such, and then all connections have failed.
pub proof fn law_order_of_attempts(
    dest: DestinationAddress,
    config: AppConfig,
    answer: Option<Seq<char>>,
)
    ensures
        all_refused(
            Stage::Direct,
            Action::Connect(with_port(dest.host@, dest.port)),
            dest,
            config,
            answer,
        ) == (
            seq![with_port(dest.host@, dest.port)] + nat64_attempts(dest, config, answer)
                + proxy_attempts(config),
            Action::<Seq<char>>::Fail(Error::AllConnectionsFailed),
        ),
{
    reveal_with_fuel(all_refused, 5);
    let start = Action::Connect(with_port(dest.host@, dest.port));
    assert(all_refused(Stage::Direct, start, dest, config, answer).0 =~= seq![
        with_port(dest.host@, dest.port),
    ] + nat64_attempts(dest, config, answer) + proxy_attempts(config));
}

/// A connection that succeeds is used, at every stage that waits for one and whatever the
/// destination and the settings; nothing else is tried behind it.
pub proof fn law_a_connection_is_used(stage: Stage, dest: DestinationAddress, config: AppConfig)
    ensures
        next(stage, Event::Connected, dest, config).0 == Stage::Done,
        next(stage, Event::Connected, dest, config).1 == Action::<Seq<char>>::Use,
{
}

/// Only a connection that succeeds is used: no other event leads to `Use`, and giving up follows
/// nothing but a refusal or a name that was not resolved to an address.
pub proof fn law_nothing_else_is_used(
    stage: Stage,
    event: Event<Seq<char>>,
    dest: DestinationAddress,
    config: AppConfig,
)
    requires
        answers(stage, event),
        event !is Connected,
    ensures
        next(stage, event, dest, config).1 !is Use,
        next(stage, event, dest, config).1 matches Action::Fail(e) ==> e
            == Error::<Seq<char>>::AllConnectionsFailed,
        optional(config.proxy_ip) is Some && stage != Stage::Proxy ==> next(
            stage,
            event,
            dest,
            config,
        ).1 !is Fail,
{
}

/// A name server is asked exactly where a domain name refused and there is a NAT64 prefix, and it
/// is asked for that name: the URL leads to the name server and its parameters are the name and the
/// kind of answer.
pub proof fn law_names_are_resolved(dest: DestinationAddress, config: AppConfig)
    requires
        !config.doh_address@.contains('?'),
        !dest.host@.contains('&'),
    ensures
        ({
            let action = next(Stage::Direct, Event::Refused, dest, config).1;
            &&& action is Resolve <==> dest.addr_type == 2 && optional(config.nat64_prefix) is Some
            &&& action matches Action::Resolve(url) ==> {
                &&& before_first(url, '?') == "https://"@ + config.doh_address@ + "/dns-query"@
                &&& after_first(url, '?') is Some
                &&& parts_of(after_first(url, '?')->0, '&') == seq![
                    "name="@ + dest.host@,
                    "type=A"@,
                ]
            }
        }),
{
    law_doh_query_is_read_back(config.doh_address@, dest.host@);
}

/// The URL for a name server leads to it, and its parameters are the name and the kind of answer.
pub proof fn law_doh_query_is_read_back(doh_address: Seq<char>, domain: Seq<char>)
    requires
        !doh_address.contains('?'),
        !domain.contains('&'),
    ensures
        ({
            let url = doh_query(doh_address, domain);
            &&& before_first(url, '?') == "https://"@ + doh_address + "/dns-query"@
            &&& after_first(url, '?') is Some
            &&& parts_of(after_first(url, '?')->0, '&') == seq!["name="@ + domain, "type=A"@]
        }),
{
    let url = doh_query(doh_address, domain);
    let front = "https://"@ + doh_address + "/dns-query"@;
    let name = "name="@ + domain;
    let query = name + seq!['&'] + "type=A"@;
    reveal_strlit("https://");
    reveal_strlit("/dns-query");
    reveal_strlit("/dns-query?name=");
    reveal_strlit("name=");
    reveal_strlit("type=A");
    reveal_strlit("&type=A");
    assert("/dns-query?name="@ =~= "/dns-query"@ + seq!['?'] + "name="@);
    assert("&type=A"@ =~= seq!['&'] + "type=A"@);
    assert(url =~= front + seq!['?'] + query);
    lemma_add_lacks("https://"@, doh_address, '?');
    lemma_add_lacks("https://"@ + doh_address, "/dns-query"@, '?');
    lemma_cut_first(front, '?', query);
    lemma_add_lacks("name="@, domain, '&');
    law_parts_one(name, '&');
    law_parts_one("type=A"@, '&');
    law_parts_add(name, '&', "type=A"@);
    assert(parts_of(query, '&') =~= seq![name, "type=A"@]);
}

/// A NAT64 address stands in brackets: the prefix without the slashes at its end, a colon, and two
/// groups of four digits in base sixteen that stand for the four octets.
pub proof fn law_nat64_shows_the_address(o: Seq<u8>, prefix: Seq<char>, slashes: nat)
    requires
        o.len() == 4,
        prefix.len() > 0 ==> prefix.last() != '/',
    ensures
        ({
            let t = nat64_text(o, prefix + Seq::new(slashes, |i: int| '/'));
            let n: int = prefix.len() as int;
            &&& t.len() == n + 12
            &&& t[0] == '['
            &&& t.subrange(1, 1 + n) == prefix
            &&& t[1 + n] == ':'
            &&& all_hex(t.subrange(2 + n, 6 + n))
            &&& hex_number(t.subrange(2 + n, 6 + n)) == o[0] * 256 + o[1]
            &&& t[6 + n] == ':'
            &&& all_hex(t.subrange(7 + n, 11 + n))
            &&& hex_number(t.subrange(7 + n, 11 + n)) == o[2] * 256 + o[3]
            &&& t[11 + n] == ']'
        }),
{
    let t = nat64_text(o, prefix + Seq::new(slashes, |i: int| '/'));
    let n: int = prefix.len() as int;
    law_trimming_end_of(prefix, slashes, '/');
    law_hex_pairs_make_a_number(o[0], o[1]);
    law_hex_pairs_make_a_number(o[2], o[3]);
    reveal_strlit("[");
    reveal_strlit(":");
    reveal_strlit("]");
    assert(t.subrange(1, 1 + n) =~= prefix);
    assert(t.subrange(2 + n, 6 + n) =~= hex_pair(o[0]) + hex_pair(o[1]));
    assert(t.subrange(7 + n, 11 + n) =~= hex_pair(o[2]) + hex_pair(o[3]));
}

/// A name is resolved to the data of the first answer that is an IPv4 address, wherever in the list
/// it stands, and to nothing where there is none.
pub proof fn law_first_address_is_taken(
    before: Seq<DohAnswer>,
    found: DohAnswer,
    rest: Seq<DohAnswer>,
)
    requires
        forall|i: int| 0 <= i < before.len() ==> (#[trigger] before[i]).type_code != 1,
    ensures
        found.type_code == 1 ==> first_a(before + seq![found] + rest) == Some(found.data@),
        first_a(before) is None,
    decreases before.len(),
{
    let all = before + seq![found] + rest;
    if before.len() > 0 {
        let less = before.skip(1);
        assert(before[0].type_code != 1);
        assert forall|i: int| 0 <= i < less.len() implies (#[trigger] less[i]).type_code != 1 by {
            assert(less[i] == before[i + 1]);
        }
        law_first_address_is_taken(less, found, rest);
        assert(all[0] == before[0]);
        assert(all.skip(1) =~= less + seq![found] + rest);
    } else {
        assert(all[0] == found);
    }
}

/// An address to connect to is the host before its last `:` and the port behind it.
pub proof fn law_port_stands_behind_the_host(host: Seq<char>, port: u16)
    ensures
        before_last(with_port(host, port), ':') == Some(host),
        u16_of(after_last(with_port(host, port), ':')) == Some(port),
        with_port(host, port).len() <= host.len() + 6,
{
    reveal_strlit(":");
    assert(":"@ =~= seq![':']);
    lemma_decimal_lacks(port as nat, ':');
    lemma_cut_last(host, ':', decimal(port as nat));
    law_u16_reads_decimal(port);
    lemma_short_decimal(port);
}

proof fn lemma_short_decimal(n: u16)
    ensures
        decimal(n as nat).len() <= 5,
{
    reveal_with_fuel(decimal, 6);
}

/// What to do next is seen as it is.
pub proof fn law_actions_are_seen_as_they_are(text: String, e: Error<String>)
    ensures
        Action::Connect(text)@ == Action::Connect(text@),
        Action::Resolve(text)@ == Action::Resolve(text@),
        Action::<String>::Use@ == Action::<Seq<char>>::Use,
        Action::<String>::Fail(e)@ == Action::Fail(e@),
        Event::Resolved(text)@ == Event::Resolved(text@),
        Event::<String>::Connected@ == Event::<Seq<char>>::Connected,
        Event::<String>::Refused@ == Event::<Seq<char>>::Refused,
        Event::<String>::Unresolved@ == Event::<Seq<char>>::Unresolved,
{
}

/// An address is taken apart at its last `:`, and is none where there is no `:` or no port behind
/// it.
pub proof fn law_targets(host: Seq<char>, port: Seq<char>)
    requires
        !port.contains(':'),
    ensures
        u16_of(port) matches Some(n) ==> target(host + seq![':'] + port) == Some((host, n)),
        u16_of(port) is None ==> target(host + seq![':'] + port) is None,
        target(port) is None,
{
    lemma_cut_last(host, ':', port);
    lemma_no_cut(port, ':');
}

} // verus!
