//! The header that opens a tunnel.

use super::error::Error;
use crate::address::{
    byte_pairs, format_hex_segments, format_ipv4, hex_numbers, hex_segments, ipv4_text,
    law_segments_are_read_back, segments, segments_of,
};
use crate::codec::{
    base64_text, sanitize, sanitized, standard_decode, standard_decode_error, utf8_error, utf8_text,
};
use crate::endpoint::{Endpoint, Request, RequestView};
use crate::identity::{key_text, uuid_text};
use crate::text::{parts_of, same_text};
use vstd::prelude::*;
use vstd::slice::{slice_subrange, slice_to_vec};
use vstd::utf8::{decode_utf8, encode_utf8, valid_utf8};

verus! {

/// Writes a key as a UUID.
pub fn verify_vless_key(arr: &[u8]) -> (out: String)
    requires
        arr@.len() >= 16,
    ensures
        out@ == uuid_text(arr@),
{
    key_text(arr)
}

/// What a header asks for whose address is `address` and ends at `end`.
pub open spec fn asks(d: Seq<u8>, port_at: int, address: Seq<char>, end: int) -> RequestView {
    RequestView {
        address,
        port: (d[port_at] * 256 + d[port_at + 1]) as u16,
        initial_data: d.skip(end),
    }
}

/// Reads a header: a version, sixteen bytes of key, a counted run of addons, a command, the port,
/// the kind of the address, the address, and the first data of the tunnel. The key has to be the
/// one with the text `uuid`.
pub open spec fn parsed(d: Seq<u8>, uuid: Seq<char>) -> Result<RequestView, Error<Seq<char>>> {
    let port_at = 18 + d[17] + 1;
    let kind_at = port_at + 2;
    let at = kind_at + 1;
    if d.len() < 18 {
        Err(Error::InvalidHeader)
    } else if uuid_text(d.subrange(1, 17)) != uuid {
        Err(Error::InvalidUuid)
    } else if d.len() < port_at + 2 {
        Err(Error::InvalidPortIndex)
    } else if d.len() <= kind_at {
        Err(Error::InvalidAddressTypeIndex)
    } else if d[kind_at] == 1 {
        if d.len() < at + 4 {
            Err(Error::InvalidIpv4Address)
        } else {
            Ok(asks(d, port_at, ipv4_text(d.subrange(at, at + 4)), at + 4))
        }
    } else if d[kind_at] == 2 {
        let end = at + 1 + d[at];
        if d.len() <= at {
            Err(Error::InvalidDomainLength)
        } else if d.len() < end {
            Err(Error::InvalidDomainAddress)
        } else if !valid_utf8(d.subrange(at + 1, end)) {
            Err(Error::NotUtf8(utf8_error(d.subrange(at + 1, end))))
        } else {
            Ok(asks(d, port_at, decode_utf8(d.subrange(at + 1, end)), end))
        }
    } else if d[kind_at] == 3 {
        if d.len() < at + 16 {
            Err(Error::InvalidIpv6Address)
        } else {
            Ok(asks(d, port_at, hex_segments(segments(d.subrange(at, at + 16))), at + 16))
        }
    } else {
        Err(Error::UnknownAddressType)
    }
}

/// The view of a result.
pub open spec fn request_view(r: Result<Request, Error<String>>) -> Result<
    RequestView,
    Error<Seq<char>>,
> {
    match r {
        Ok(q) => Ok(q@),
        Err(e) => Err(e@),
    }
}

/// Reads a header whose key has to be the one with the text `uuid`.
pub fn parse_vless_header(data: &[u8], uuid: &str) -> (r: Result<Request, Error<String>>)
    ensures
        request_view(r) == parsed(data@, uuid@),
{
    let len: usize = data.len();
    if len < 18 {
        return Err(Error::InvalidHeader);
    }
    let key = verify_vless_key(slice_subrange(data, 1, 17));
    if !same_text(key.as_str(), uuid) {
        return Err(Error::InvalidUuid);
    }
    let port_at: usize = 18 + data[17] as usize + 1;
    if port_at + 2 > len {
        return Err(Error::InvalidPortIndex);
    }
    let port: u16 = data[port_at] as u16 * 256 + data[port_at + 1] as u16;
    let kind_at: usize = port_at + 2;
    if kind_at >= len {
        return Err(Error::InvalidAddressTypeIndex);
    }
    let kind: u8 = data[kind_at];
    let at: usize = kind_at + 1;
    let address: String;
    let end: usize;
    if kind == 1 {
        if at + 4 > len {
            return Err(Error::InvalidIpv4Address);
        }
        address = format_ipv4(data[at], data[at + 1], data[at + 2], data[at + 3]);
        end = at + 4;
        assert(seq![data@[at as int], data@[at + 1], data@[at + 2], data@[at + 3]]
            =~= data@.subrange(at as int, at + 4));
    } else if kind == 2 {
        if at >= len {
            return Err(Error::InvalidDomainLength);
        }
        let domain_len: usize = data[at] as usize;
        if at + 1 + domain_len > len {
            return Err(Error::InvalidDomainAddress);
        }
        end = at + 1 + domain_len;
        match utf8_text(slice_to_vec(slice_subrange(data, at + 1, end))) {
            Ok(name) => {
                address = name;
            },
            Err(e) => {
                return Err(Error::NotUtf8(e));
            },
        }
    } else if kind == 3 {
        if at + 16 > len {
            return Err(Error::InvalidIpv6Address);
        }
        end = at + 16;
        let parts = segments_of(&slice_to_vec(slice_subrange(data, at, end)));
        assert(parts@.subrange(0, 8) =~= parts@);
        address = format_hex_segments(&parts, 0, 8);
    } else {
        return Err(Error::UnknownAddressType);
    }
    let initial_data = slice_to_vec(slice_subrange(data, end, len));
    assert(initial_data@ =~= data@.skip(end as int));
    Ok(Request { address, port, initial_data })
}

/// Decodes the protocol header: Base64 with padding, in which `-` and `_` may stand for `+` and
/// `/`.
pub fn base64_decode(input: &str) -> (r: Result<Vec<u8>, Error<String>>)
    ensures
        match r {
            Ok(b) => sanitized(input@) == base64_text(b@, false),
            Err(e) => {
                &&& forall|b: Seq<u8>| sanitized(input@) != #[trigger] base64_text(b, false)
                &&& e@ == Error::Base64(standard_decode_error(sanitized(input@)))
            },
        },
{
    let text = sanitize(input);
    match standard_decode(text.as_str()) {
        Ok(bytes) => Ok(bytes),
        Err(e) => Err(Error::Base64(e)),
    }
}

// ---------------------------------------------------------------------------
// Laws
// ---------------------------------------------------------------------------

/// The far end of a tunnel as text.
pub open spec fn host_of(to: Endpoint) -> Seq<char> {
    match to {
        Endpoint::V4(o) => ipv4_text(o),
        Endpoint::Name(n) => n,
        Endpoint::V6(o) => hex_segments(segments(o)),
    }
}

/// A header as it goes over the wire.
pub open spec fn header_bytes(
    version: u8,
    key: Seq<u8>,
    addons: Seq<u8>,
    command: u8,
    port: u16,
    to: Endpoint,
    data: Seq<u8>,
) -> Seq<u8> {
    seq![version] + key + seq![addons.len() as u8] + addons + seq![
        command,
        (port / 256) as u8,
        (port % 256) as u8,
        to.kind(),
    ] + to.bytes() + data
}

/// A client that knows the key gets the tunnel it asks for: to every address, port and first data
/// that a header can say, whatever its version, addons and command.
pub proof fn law_the_key_opens(
    version: u8,
    key: Seq<u8>,
    addons: Seq<u8>,
    command: u8,
    port: u16,
    to: Endpoint,
    data: Seq<u8>,
    uuid: Seq<char>,
)
    requires
        key.len() == 16,
        addons.len() < 256,
        to.fits(),
        uuid == uuid_text(key),
    ensures
        parsed(header_bytes(version, key, addons, command, port, to, data), uuid) == Ok::<
            RequestView,
            Error<Seq<char>>,
        >(RequestView { address: host_of(to), port, initial_data: data }),
{
    let d = header_bytes(version, key, addons, command, port, to, data);
    let port_at: int = 19 + addons.len() as int;
    let at = port_at + 3;
    assert(d[17] == addons.len());
    assert(d.subrange(1, 17) =~= key);
    assert(d[port_at] == port / 256);
    assert(d[port_at + 1] == port % 256);
    assert(d[port_at + 2] == to.kind());
    assert(d.skip(at + to.bytes().len()) =~= data);
    match to {
        Endpoint::V4(o) => {
            assert(d.subrange(at, at + 4) =~= o);
        },
        Endpoint::Name(n) => {
            assert(d[at] == encode_utf8(n).len());
            assert(d.subrange(at + 1, at + 1 + encode_utf8(n).len()) =~= encode_utf8(n));
            vstd::utf8::encode_utf8_valid_utf8(n);
            vstd::utf8::encode_utf8_decode_utf8(n);
        },
        Endpoint::V6(o) => {
            assert(d.subrange(at, at + 16) =~= o);
        },
    }
}

/// No other key opens a tunnel: a header that opens one holds the key in its bytes 1 to 16.
pub proof fn law_only_the_key_opens(d: Seq<u8>, key: Seq<u8>, uuid: Seq<char>)
    requires
        key.len() == 16,
        uuid == uuid_text(key),
        parsed(d, uuid) is Ok,
    ensures
        d.subrange(1, 17) == key,
{
    crate::identity::law_uuid_text_is_unique(d.subrange(1, 17), key);
}

/// A header that names the key of a secret path opens a tunnel there, whatever the path.
pub proof fn law_the_path_opens(
    version: u8,
    addons: Seq<u8>,
    command: u8,
    port: u16,
    to: Endpoint,
    data: Seq<u8>,
    sub_path: Seq<char>,
)
    requires
        addons.len() < 256,
        to.fits(),
    ensures
        parsed(
            header_bytes(
                version,
                super::config::key_for(sub_path),
                addons,
                command,
                port,
                to,
                data,
            ),
            super::config::uuid_for(sub_path),
        ) == Ok::<RequestView, Error<Seq<char>>>(
            RequestView { address: host_of(to), port, initial_data: data },
        ),
{
    super::config::law_every_path_has_a_key(sub_path);
    law_the_key_opens(
        version,
        super::config::key_for(sub_path),
        addons,
        command,
        port,
        to,
        data,
        super::config::uuid_for(sub_path),
    );
}

/// A header for an IPv4 address, byte for byte: behind the version, the key, the counted addons and
/// the command stand the port with its high byte first, a 1, four octets, and the first data.
pub proof fn law_ipv4_header(
    version: u8,
    key: Seq<u8>,
    addons: Seq<u8>,
    command: u8,
    hi: u8,
    lo: u8,
    o: Seq<u8>,
    data: Seq<u8>,
)
    requires
        key.len() == 16,
        addons.len() < 256,
        o.len() == 4,
    ensures
        parsed(
            seq![version] + key + seq![addons.len() as u8] + addons + seq![command, hi, lo, 1u8] + o
                + data,
            uuid_text(key),
        ) == Ok::<RequestView, Error<Seq<char>>>(
            RequestView {
                address: ipv4_text(o),
                port: (hi * 256 + lo) as u16,
                initial_data: data,
            },
        ),
{
    let port = (hi * 256 + lo) as u16;
    assert((port / 256) as u8 == hi && (port % 256) as u8 == lo);
    law_the_key_opens(version, key, addons, command, port, Endpoint::V4(o), data, uuid_text(key));
}

/// A header for a domain name, byte for byte: as for an IPv4 address, with a 2, the number of bytes
/// of the name, and the name in UTF-8.
pub proof fn law_name_header(
    version: u8,
    key: Seq<u8>,
    addons: Seq<u8>,
    command: u8,
    hi: u8,
    lo: u8,
    name: Seq<char>,
    data: Seq<u8>,
)
    requires
        key.len() == 16,
        addons.len() < 256,
        encode_utf8(name).len() < 256,
    ensures
        parsed(
            seq![version] + key + seq![addons.len() as u8] + addons + seq![
                command,
                hi,
                lo,
                2u8,
                encode_utf8(name).len() as u8,
            ] + encode_utf8(name) + data,
            uuid_text(key),
        ) == Ok::<RequestView, Error<Seq<char>>>(
            RequestView { address: name, port: (hi * 256 + lo) as u16, initial_data: data },
        ),
{
    let port = (hi * 256 + lo) as u16;
    let to = Endpoint::Name(name);
    assert((port / 256) as u8 == hi && (port % 256) as u8 == lo);
    law_the_key_opens(version, key, addons, command, port, to, data, uuid_text(key));
    assert(header_bytes(version, key, addons, command, port, to, data) =~= seq![version] + key
        + seq![addons.len() as u8] + addons + seq![
        command,
        hi,
        lo,
        2u8,
        encode_utf8(name).len() as u8,
    ] + encode_utf8(name) + data);
}

/// A header for an IPv6 address, byte for byte: as for an IPv4 address, with a 3 and sixteen bytes,
/// which are written as eight numerals in base sixteen.
pub proof fn law_ipv6_header(
    version: u8,
    key: Seq<u8>,
    addons: Seq<u8>,
    command: u8,
    hi: u8,
    lo: u8,
    o: Seq<u8>,
    data: Seq<u8>,
)
    requires
        key.len() == 16,
        addons.len() < 256,
        o.len() == 16,
    ensures
        ({
            let r = parsed(
                seq![version] + key + seq![addons.len() as u8] + addons + seq![command, hi, lo, 3u8]
                    + o + data,
                uuid_text(key),
            );
            &&& r matches Ok(q)
            &&& q.port == hi * 256 + lo
            &&& q.initial_data == data
            &&& hex_numbers(parts_of(q.address, ':')) == byte_pairs(o)
        }),
{
    let port = (hi * 256 + lo) as u16;
    assert((port / 256) as u8 == hi && (port % 256) as u8 == lo);
    law_the_key_opens(version, key, addons, command, port, Endpoint::V6(o), data, uuid_text(key));
    law_segments_are_read_back(o);
}

/// A header with any other key is refused for that, wherever it leads and whatever is wrong with
/// the rest of it.
pub proof fn law_other_keys_are_refused(version: u8, key: Seq<u8>, rest: Seq<u8>, uuid: Seq<char>)
    requires
        key.len() == 16,
        rest.len() > 0,
        uuid_text(key) != uuid,
    ensures
        parsed(seq![version] + key + rest, uuid) == Err::<RequestView, Error<Seq<char>>>(
            Error::InvalidUuid,
        ),
{
    assert((seq![version] + key + rest).subrange(1, 17) =~= key);
}

/// A header with the key that ends early is refused, for every header and every place before the
/// end of its address, and the error tells where it ends.
pub proof fn law_cut_header_is_refused(
    version: u8,
    key: Seq<u8>,
    addons: Seq<u8>,
    command: u8,
    port: u16,
    to: Endpoint,
    n: int,
)
    requires
        key.len() == 16,
        addons.len() < 256,
        to.fits(),
        0 <= n < 22 + addons.len() + to.bytes().len(),
    ensures
        parsed(
            header_bytes(version, key, addons, command, port, to, Seq::empty()).take(n),
            uuid_text(key),
        ) == Err::<RequestView, Error<Seq<char>>>(
            if n < 18 {
                Error::InvalidHeader
            } else if n < 21 + addons.len() {
                Error::InvalidPortIndex
            } else if n < 22 + addons.len() {
                Error::InvalidAddressTypeIndex
            } else {
                match to {
                    Endpoint::V4(_) => Error::InvalidIpv4Address,
                    Endpoint::Name(_) => if n == 22 + addons.len() {
                        Error::InvalidDomainLength
                    } else {
                        Error::InvalidDomainAddress
                    },
                    Endpoint::V6(_) => Error::InvalidIpv6Address,
                }
            },
        ),
{
    let whole = header_bytes(version, key, addons, command, port, to, Seq::empty());
    let d = whole.take(n);
    let kind_at: int = 21 + addons.len() as int;
    assert(whole[17] == addons.len());
    assert(whole[kind_at] == to.kind());
    if n >= 18 {
        assert(d[17] == whole[17]);
        assert(d.subrange(1, 17) =~= key);
        if n > kind_at {
            assert(d[kind_at] == whole[kind_at]);
            if to is Name && n > kind_at + 1 {
                assert(whole[kind_at + 1] == to.bytes()[0]);
                assert(d[kind_at + 1] == whole[kind_at + 1]);
            }
        }
    }
}

/// A header with the key and another kind of address is refused, and one whose domain name is not
/// UTF-8 with what std says of it, whatever else they hold.
pub proof fn law_odd_header_is_refused(
    version: u8,
    key: Seq<u8>,
    addons: Seq<u8>,
    command: u8,
    hi: u8,
    lo: u8,
    kind: u8,
    name: Seq<u8>,
    rest: Seq<u8>,
)
    requires
        key.len() == 16,
        addons.len() < 256,
        kind == 0 || kind > 3,
        name.len() < 256,
        !valid_utf8(name),
    ensures
        parsed(
            seq![version] + key + seq![addons.len() as u8] + addons + seq![command, hi, lo, kind]
                + rest,
            uuid_text(key),
        ) == Err::<RequestView, Error<Seq<char>>>(Error::UnknownAddressType),
        parsed(
            seq![version] + key + seq![addons.len() as u8] + addons + seq![
                command,
                hi,
                lo,
                2u8,
                name.len() as u8,
            ] + name + rest,
            uuid_text(key),
        ) == Err::<RequestView, Error<Seq<char>>>(Error::NotUtf8(utf8_error(name))),
{
    let kind_at: int = 21 + addons.len() as int;
    let a = seq![version] + key + seq![addons.len() as u8] + addons + seq![command, hi, lo, kind]
        + rest;
    assert(a[17] == addons.len());
    assert(a.subrange(1, 17) =~= key);
    assert(a[kind_at] == kind);
    let b = seq![version] + key + seq![addons.len() as u8] + addons + seq![
        command,
        hi,
        lo,
        2u8,
        name.len() as u8,
    ] + name + rest;
    assert(b[17] == addons.len());
    assert(b.subrange(1, 17) =~= key);
    assert(b[kind_at] == 2);
    assert(b[kind_at + 1] == name.len());
    assert(b.subrange(kind_at + 2, kind_at + 2 + name.len()) =~= name);
}

/// What was read of a header is seen as it is.
pub proof fn law_results_are_seen_as_they_are(q: Request, e: Error<String>)
    ensures
        request_view(Ok(q)) == Ok::<RequestView, Error<Seq<char>>>(q@),
        request_view(Err(e)) == Err::<RequestView, Error<Seq<char>>>(e@),
{
}

} // verus!
