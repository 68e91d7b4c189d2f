//! The header that opens a tunnel.

use super::error::Error;
use crate::address::{format_ipv4, format_ipv6, ipv4_text, ipv6_text};
use crate::codec::{
    base64_text, sanitize, sanitized, standard_decode, standard_decode_error, utf8_error, utf8_text,
};
use crate::endpoint::Endpoint;
use vstd::prelude::*;
use vstd::slice::{slice_subrange, slice_to_vec};
use vstd::utf8::{decode_utf8, encode_utf8, valid_utf8};

verus! {

/// Where a tunnel leads.
pub struct DestinationAddress {
    pub host: String,
    pub port: u16,
    /// 1 for IPv4, 2 for a domain name, 3 for IPv6.
    pub addr_type: u8,
}

/// What a header says.
pub struct HeaderView {
    pub uuid: Seq<u8>,
    pub host: Seq<char>,
    pub port: u16,
    pub addr_type: u8,
    pub initial_data: Seq<u8>,
}

/// What a header says whose address is `host` and ends at `end`.
pub open spec fn says(d: Seq<u8>, start: int, host: Seq<char>, end: int) -> HeaderView {
    HeaderView {
        uuid: d.subrange(1, 17),
        host,
        port: (d[start] * 256 + d[start + 1]) as u16,
        addr_type: d[start + 2],
        initial_data: d.skip(end),
    }
}

/// Reads a header: a version, sixteen bytes of key, a counted run of addons, the port, the kind of
/// the address, the address, and the first data of the tunnel.
pub open spec fn parsed(d: Seq<u8>) -> Result<HeaderView, Error<Seq<char>>> {
    let start = 18 + d[17];
    let at = start + 3;
    if d.len() < 20 {
        Err(Error::HeaderTooShort)
    } else if d.len() < at {
        Err(Error::AddressSection)
    } else if d[start + 2] == 1 {
        if d.len() < at + 4 {
            Err(Error::IncompleteIpv4)
        } else {
            Ok(says(d, start, ipv4_text(d.subrange(at, at + 4)), at + 4))
        }
    } else if d[start + 2] == 2 {
        let end = at + 1 + d[at];
        if d.len() < at + 1 {
            Err(Error::MissingDomainLength)
        } else if d.len() < end {
            Err(Error::IncompleteDomain)
        } else if !valid_utf8(d.subrange(at + 1, end)) {
            Err(Error::NotUtf8(utf8_error(d.subrange(at + 1, end))))
        } else {
            Ok(says(d, start, decode_utf8(d.subrange(at + 1, end)), end))
        }
    } else if d[start + 2] == 3 {
        if d.len() < at + 16 {
            Err(Error::IncompleteIpv6)
        } else {
            Ok(says(d, start, ipv6_text(d.subrange(at, at + 16)), at + 16))
        }
    } else {
        Err(Error::UnsupportedAddressType(d[start + 2]))
    }
}

/// What a parsed header says.
pub open spec fn header_view(h: ([u8; 16], DestinationAddress, Vec<u8>)) -> HeaderView {
    HeaderView {
        uuid: h.0@,
        host: h.1.host@,
        port: h.1.port,
        addr_type: h.1.addr_type,
        initial_data: h.2@,
    }
}

/// Reads a header: the key, where the tunnel leads, and its first data.
pub fn parse_vless_header(data: &[u8]) -> (r: Result<
    ([u8; 16], DestinationAddress, Vec<u8>),
    Error<String>,
>)
    ensures
        match r {
            Ok(h) => parsed(data@) == Ok::<HeaderView, Error<Seq<char>>>(header_view(h)),
            Err(e) => parsed(data@) == Err::<HeaderView, Error<Seq<char>>>(e@),
        },
{
    let len: usize = data.len();
    if len < 20 {
        return Err(Error::HeaderTooShort);
    }
    let uuid: [u8; 16] = [
        data[1],
        data[2],
        data[3],
        data[4],
        data[5],
        data[6],
        data[7],
        data[8],
        data[9],
        data[10],
        data[11],
        data[12],
        data[13],
        data[14],
        data[15],
        data[16],
    ];
    assert(uuid@ =~= data@.subrange(1, 17));

    let addr_start: usize = 18 + data[17] as usize;
    if len < addr_start + 3 {
        return Err(Error::AddressSection);
    }
    let port: u16 = data[addr_start] as u16 * 256 + data[addr_start + 1] as u16;
    let addr_type: u8 = data[addr_start + 2];

    let at: usize = addr_start + 3;
    let host: String;
    let end: usize;
    if addr_type == 1 {
        if len < at + 4 {
            return Err(Error::IncompleteIpv4);
        }
        host = format_ipv4(data[at], data[at + 1], data[at + 2], data[at + 3]);
        end = at + 4;
        assert(seq![data@[at as int], data@[at + 1], data@[at + 2], data@[at + 3]]
            =~= data@.subrange(at as int, at + 4));
    } else if addr_type == 2 {
        if len < at + 1 {
            return Err(Error::MissingDomainLength);
        }
        let domain_len: usize = data[at] as usize;
        if len < at + 1 + domain_len {
            return Err(Error::IncompleteDomain);
        }
        end = at + 1 + domain_len;
        match utf8_text(slice_to_vec(slice_subrange(data, at + 1, end))) {
            Ok(name) => {
                host = name;
            },
            Err(e) => {
                return Err(Error::NotUtf8(e));
            },
        }
    } else if addr_type == 3 {
        if len < at + 16 {
            return Err(Error::IncompleteIpv6);
        }
        end = at + 16;
        host = format_ipv6(&slice_to_vec(slice_subrange(data, at, end)));
    } else {
        return Err(Error::UnsupportedAddressType(addr_type));
    }
    let initial_data = slice_to_vec(slice_subrange(data, end, len));
    assert(initial_data@ =~= data@.skip(end as int));
    Ok((uuid, DestinationAddress { host, port, addr_type }, initial_data))
}

/// Decodes the protocol header: Base64 with padding, in which `-` and `_` may stand for `+` and
/// `/`.
pub fn decode_protocol_header(protocol: &str) -> (r: Result<Vec<u8>, Error<String>>)
    ensures
        match r {
            Ok(b) => sanitized(protocol@) == base64_text(b@, false),
            Err(e) => {
                &&& forall|b: Seq<u8>| sanitized(protocol@) != #[trigger] base64_text(b, false)
                &&& e@ == Error::Base64(standard_decode_error(sanitized(protocol@)))
            },
        },
{
    let text = sanitize(protocol);
    match standard_decode(text.as_str()) {
        Ok(bytes) => Ok(bytes),
        Err(e) => Err(Error::Base64(e)),
    }
}

// ---------------------------------------------------------------------------
// Laws
// ---------------------------------------------------------------------------

/// The far end of a tunnel as text.
pub open spec fn host_of(to: Endpoint) -> Seq<char> {
    match to {
        Endpoint::V4(o) => ipv4_text(o),
        Endpoint::Name(n) => n,
        Endpoint::V6(o) => ipv6_text(o),
    }
}

/// A header as it goes over the wire.
pub open spec fn header_bytes(
    version: u8,
    uuid: Seq<u8>,
    addons: Seq<u8>,
    port: u16,
    to: Endpoint,
    data: Seq<u8>,
) -> Seq<u8> {
    seq![version] + uuid + seq![addons.len() as u8] + addons + seq![
        (port / 256) as u8,
        (port % 256) as u8,
        to.kind(),
    ] + to.bytes() + data
}

/// A header is read back as it was written, for every version, key, addons, port, address and
/// first data.
pub proof fn law_header_is_read_as_written(
    version: u8,
    uuid: Seq<u8>,
    addons: Seq<u8>,
    port: u16,
    to: Endpoint,
    data: Seq<u8>,
)
    requires
        uuid.len() == 16,
        addons.len() < 256,
        to.fits(),
    ensures
        parsed(header_bytes(version, uuid, addons, port, to, data)) == Ok::<
            HeaderView,
            Error<Seq<char>>,
        >(
            HeaderView {
                uuid,
                host: host_of(to),
                port,
                addr_type: to.kind(),
                initial_data: data,
            },
        ),
{
    let d = header_bytes(version, uuid, addons, port, to, data);
    let start: int = 18 + addons.len() as int;
    let at = start + 3;
    assert(d[17] == addons.len());
    assert(d.subrange(1, 17) =~= uuid);
    assert(d[start] == port / 256);
    assert(d[start + 1] == port % 256);
    assert(d[start + 2] == to.kind());
    assert(d.skip(at + to.bytes().len()) =~= data);
    match to {
        Endpoint::V4(o) => {
            assert(d.subrange(at as int, at + 4) =~= o);
        },
        Endpoint::Name(n) => {
            assert(d[at as int] == encode_utf8(n).len());
            assert(d.subrange(at + 1, at + 1 + encode_utf8(n).len()) =~= encode_utf8(n));
            vstd::utf8::encode_utf8_valid_utf8(n);
            vstd::utf8::encode_utf8_decode_utf8(n);
        },
        Endpoint::V6(o) => {
            assert(d.subrange(at as int, at + 16) =~= o);
        },
    }
}

/// A header for an IPv4 address, byte for byte: behind the version, the key and the counted addons
/// stand the port with its high byte first, a 1, four octets, and the first data.
pub proof fn law_ipv4_header(
    version: u8,
    uuid: Seq<u8>,
    addons: Seq<u8>,
    hi: u8,
    lo: u8,
    o: Seq<u8>,
    data: Seq<u8>,
)
    requires
        uuid.len() == 16,
        addons.len() < 256,
        o.len() == 4,
    ensures
        parsed(
            seq![version] + uuid + seq![addons.len() as u8] + addons + seq![hi, lo, 1u8] + o + data,
        ) == Ok::<HeaderView, Error<Seq<char>>>(
            HeaderView {
                uuid,
                host: ipv4_text(o),
                port: (hi * 256 + lo) as u16,
                addr_type: 1,
                initial_data: data,
            },
        ),
{
    let port = (hi * 256 + lo) as u16;
    assert((port / 256) as u8 == hi && (port % 256) as u8 == lo);
    law_header_is_read_as_written(version, uuid, addons, port, Endpoint::V4(o), data);
}

/// A header for a domain name, byte for byte: as for an IPv4 address, with a 2, the number of bytes
/// of the name, and the name in UTF-8.
pub proof fn law_name_header(
    version: u8,
    uuid: Seq<u8>,
    addons: Seq<u8>,
    hi: u8,
    lo: u8,
    name: Seq<char>,
    data: Seq<u8>,
)
    requires
        uuid.len() == 16,
        addons.len() < 256,
        encode_utf8(name).len() < 256,
    ensures
        parsed(
            seq![version] + uuid + seq![addons.len() as u8] + addons + seq![
                hi,
                lo,
                2u8,
                encode_utf8(name).len() as u8,
            ] + encode_utf8(name) + data,
        ) == Ok::<HeaderView, Error<Seq<char>>>(
            HeaderView {
                uuid,
                host: name,
                port: (hi * 256 + lo) as u16,
                addr_type: 2,
                initial_data: data,
            },
        ),
{
    let port = (hi * 256 + lo) as u16;
    assert((port / 256) as u8 == hi && (port % 256) as u8 == lo);
    law_header_is_read_as_written(version, uuid, addons, port, Endpoint::Name(name), data);
    assert(header_bytes(version, uuid, addons, port, Endpoint::Name(name), data)
        =~= seq![version] + uuid + seq![addons.len() as u8] + addons + seq![
        hi,
        lo,
        2u8,
        encode_utf8(name).len() as u8,
    ] + encode_utf8(name) + data);
}

/// A header for an IPv6 address, byte for byte: as for an IPv4 address, with a 3 and sixteen bytes.
pub proof fn law_ipv6_header(
    version: u8,
    uuid: Seq<u8>,
    addons: Seq<u8>,
    hi: u8,
    lo: u8,
    o: Seq<u8>,
    data: Seq<u8>,
)
    requires
        uuid.len() == 16,
        addons.len() < 256,
        o.len() == 16,
    ensures
        parsed(
            seq![version] + uuid + seq![addons.len() as u8] + addons + seq![hi, lo, 3u8] + o + data,
        ) == Ok::<HeaderView, Error<Seq<char>>>(
            HeaderView {
                uuid,
                host: ipv6_text(o),
                port: (hi * 256 + lo) as u16,
                addr_type: 3,
                initial_data: data,
            },
        ),
{
    let port = (hi * 256 + lo) as u16;
    assert((port / 256) as u8 == hi && (port % 256) as u8 == lo);
    law_header_is_read_as_written(version, uuid, addons, port, Endpoint::V6(o), data);
}

/// A header that ends early is refused, for every header and every place before the end of its
/// address, and the error tells where it ends: before twenty bytes, before the kind of the address,
/// or within the address.
pub proof fn law_cut_header_is_refused(
    version: u8,
    uuid: Seq<u8>,
    addons: Seq<u8>,
    port: u16,
    to: Endpoint,
    n: int,
)
    requires
        uuid.len() == 16,
        addons.len() < 256,
        to.fits(),
        0 <= n < 21 + addons.len() + to.bytes().len(),
    ensures
        parsed(header_bytes(version, uuid, addons, port, to, Seq::empty()).take(n)) == Err::<
            HeaderView,
            Error<Seq<char>>,
        >(
            if n < 20 {
                Error::HeaderTooShort
            } else if n < 21 + addons.len() {
                Error::AddressSection
            } else {
                match to {
                    Endpoint::V4(_) => Error::IncompleteIpv4,
                    Endpoint::Name(_) => if n == 21 + addons.len() {
                        Error::MissingDomainLength
                    } else {
                        Error::IncompleteDomain
                    },
                    Endpoint::V6(_) => Error::IncompleteIpv6,
                }
            },
        ),
{
    let whole = header_bytes(version, uuid, addons, port, to, Seq::empty());
    let d = whole.take(n);
    let start: int = 18 + addons.len() as int;
    assert(whole[17] == addons.len());
    assert(whole[start + 2] == to.kind());
    if n >= 20 {
        assert(d[17] == whole[17]);
        if n >= start + 3 {
            assert(d[start + 2] == whole[start + 2]);
            if to is Name && n > start + 3 {
                assert(whole[start + 3] == to.bytes()[0]);
                assert(d[start + 3] == whole[start + 3]);
            }
        }
    }
}

/// A header with another kind of address is refused with that kind, and one whose domain name is
/// not UTF-8 with what std says of it, whatever else they hold.
pub proof fn law_odd_header_is_refused(
    version: u8,
    uuid: Seq<u8>,
    addons: Seq<u8>,
    hi: u8,
    lo: u8,
    kind: u8,
    name: Seq<u8>,
    rest: Seq<u8>,
)
    requires
        uuid.len() == 16,
        addons.len() < 256,
        kind == 0 || kind > 3,
        name.len() < 256,
        !valid_utf8(name),
    ensures
        parsed(
            seq![version] + uuid + seq![addons.len() as u8] + addons + seq![hi, lo, kind] + rest,
        ) == Err::<HeaderView, Error<Seq<char>>>(Error::UnsupportedAddressType(kind)),
        parsed(
            seq![version] + uuid + seq![addons.len() as u8] + addons + seq![
                hi,
                lo,
                2u8,
                name.len() as u8,
            ] + name + rest,
        ) == Err::<HeaderView, Error<Seq<char>>>(Error::NotUtf8(utf8_error(name))),
{
    let start: int = 18 + addons.len() as int;
    let a = seq![version] + uuid + seq![addons.len() as u8] + addons + seq![hi, lo, kind] + rest;
    assert(a[17] == addons.len());
    assert(a[start + 2] == kind);
    let b = seq![version] + uuid + seq![addons.len() as u8] + addons + seq![
        hi,
        lo,
        2u8,
        name.len() as u8,
    ] + name + rest;
    assert(b[17] == addons.len());
    assert(b[start + 2] == 2);
    assert(b[start + 3] == name.len());
    assert(b.subrange(start + 4, start + 4 + name.len()) =~= name);
}

/// What was read of a header is seen as it is.
pub proof fn law_header_is_seen_as_it_is(key: [u8; 16], dest: DestinationAddress, data: Vec<u8>)
    ensures
        ({
            let seen = header_view((key, dest, data));
            &&& seen.uuid == key@
            &&& seen.host == dest.host@
            &&& seen.port == dest.port
            &&& seen.addr_type == dest.addr_type
            &&& seen.initial_data == data@
        }),
{
}

} // verus!
