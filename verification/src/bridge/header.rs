//! The header that opens a tunnel.

use super::error::Error;
use crate::address::{
    decimal_segments, format_decimal_segments, format_ipv4, ipv4_text, law_segments_are_read_back,
    segments, segments_of,
};
use crate::codec::{
    base64_text, lemma_url_safe_lacks, lossy_text, sanitize, sanitized, url_safe_decode, utf8_lossy,
};
use crate::endpoint::{Endpoint, Request, RequestView};
use crate::identity::{key_text, law_uuid_text_is_unique, uuid_text};
use crate::text::{decimal, parts_of, same_text};
use vstd::prelude::*;
use vstd::slice::{slice_subrange, slice_to_vec};
use vstd::utf8::{decode_utf8, encode_utf8, valid_utf8};

verus! {

/// Decodes the protocol header: Base64 in the alphabet for URLs, without padding, after `-` and
/// `_` have been turned into `+` and `/`.
pub fn decode_protocol(protocol: Option<String>) -> (r: Result<Vec<u8>, Error>)
    ensures
        match (protocol, r) {
            (None, _) => r == Err::<Vec<u8>, Error>(Error::MissingProtocol),
            (Some(p), Ok(b)) => sanitized(p@) == base64_text(b@, true),
            (Some(p), Err(e)) => {
                &&& forall|b: Seq<u8>| sanitized(p@) != #[trigger] base64_text(b, true)
                &&& e == Error::InvalidBase64
            },
        },
{
    match protocol {
        None => Err(Error::MissingProtocol),
        Some(protocol) => match url_safe_decode(sanitize(protocol.as_str()).as_str()) {
            Some(bytes) => Ok(bytes),
            None => Err(Error::InvalidBase64),
        },
    }
}

/// Whether sixteen bytes are the key with the text `expected`. Any other number of bytes is no key.
pub fn validate_uuid(slice: &[u8], expected: &str) -> (yes: bool)
    ensures
        yes == (slice@.len() == 16 && uuid_text(slice@) == expected@),
{
    if slice.len() != 16 {
        return false;
    }
    same_text(key_text(slice).as_str(), expected)
}

/// Where the address begins: behind a version, sixteen bytes of key, the kind of the address, a
/// counted run of addons, and the port.
pub open spec fn address_at(d: Seq<u8>) -> int {
    21 + d[18]
}

/// The bytes of a domain name, behind a byte that counts them.
pub open spec fn name_bytes(d: Seq<u8>) -> Seq<u8> {
    let at = address_at(d);
    d.subrange(at + 1, at + 1 + d[at])
}

/// The address as text, where `name` is the text of a domain name.
pub open spec fn address_of(d: Seq<u8>, name: Seq<char>) -> Seq<char> {
    let at = address_at(d);
    if d[17] == 1 {
        ipv4_text(d.subrange(at, at + 4))
    } else if d[17] == 2 {
        name
    } else {
        decimal_segments(segments(d.subrange(at, at + 16)))
    }
}

/// Where the bytes of the address end.
pub open spec fn address_end(d: Seq<u8>) -> int {
    let at = address_at(d);
    if d[17] == 1 {
        at + 4
    } else if d[17] == 2 {
        at + 1 + d[at]
    } else {
        at + 16
    }
}

/// Where the first data of the tunnel begins: as many bytes behind the beginning of the address as
/// its text is long.
pub open spec fn data_at(d: Seq<u8>, name: Seq<char>) -> int {
    address_at(d) + encode_utf8(address_of(d, name)).len()
}

/// Whether a header holds all that is read of it: the key, and where that is the right one the
/// port, the address, and what is passed over before the first data.
pub open spec fn whole(d: Seq<u8>, uuid: Seq<char>, name: Seq<char>) -> bool {
    &&& d.len() >= 17
    &&& uuid_text(d.subrange(1, 17)) == uuid ==> {
        &&& d.len() >= 19
        &&& address_at(d) <= d.len()
        &&& 1 <= d[17] <= 3 ==> {
            &&& d[17] == 2 ==> address_at(d) < d.len()
            &&& address_end(d) <= d.len()
            &&& data_at(d, name) <= d.len()
        }
    }
}

/// Reads a header whose key has to be the one with the text `uuid`, and in which `name` is the text
/// of a domain name.
pub open spec fn parsed(d: Seq<u8>, uuid: Seq<char>, name: Seq<char>) -> Result<
    RequestView,
    Error,
> {
    let at = address_at(d);
    if uuid_text(d.subrange(1, 17)) != uuid {
        Err(Error::InvalidUuid)
    } else if !(1 <= d[17] <= 3) {
        Err(Error::UnsupportedAddressType)
    } else {
        Ok(
            RequestView {
                address: address_of(d, name),
                port: (d[at - 2] * 256 + d[at - 1]) as u16,
                initial_data: d.skip(data_at(d, name)),
            },
        )
    }
}

/// The view of a result.
pub open spec fn request_view(r: Result<Request, Error>) -> Result<RequestView, Error> {
    match r {
        Ok(q) => Ok(q@),
        Err(e) => Err(e),
    }
}

/// Writes the address of a header that holds it, where `name` is the text of a domain name.
fn write_address(decoded: &[u8], name: &str) -> (out: String)
    requires
        decoded@.len() >= 19,
        1 <= decoded@[17] <= 3,
        decoded@[17] == 2 ==> address_at(decoded@) < decoded@.len(),
        address_end(decoded@) <= decoded@.len(),
    ensures
        out@ == address_of(decoded@, name@),
{
    let at: usize = 21 + decoded[18] as usize;
    let kind: u8 = decoded[17];
    if kind == 1 {
        assert(seq![decoded@[at as int], decoded@[at + 1], decoded@[at + 2], decoded@[at + 3]]
            =~= decoded@.subrange(at as int, at + 4));
        format_ipv4(decoded[at], decoded[at + 1], decoded[at + 2], decoded[at + 3])
    } else if kind == 2 {
        name.to_owned()
    } else {
        format_decimal_segments(&segments_of(&slice_to_vec(slice_subrange(decoded, at, at + 16))))
    }
}

/// Tells whether a header holds all that is read of it, where `name` is the text of a domain name.
pub fn is_whole(decoded: &[u8], uuid: &str, name: &str) -> (yes: bool)
    ensures
        yes == whole(decoded@, uuid@, name@),
{
    let len: usize = decoded.len();
    if len < 17 {
        return false;
    }
    if !validate_uuid(slice_subrange(decoded, 1, 17), uuid) {
        return true;
    }
    if len < 19 {
        return false;
    }
    let at: usize = 21 + decoded[18] as usize;
    if at > len {
        return false;
    }
    let kind: u8 = decoded[17];
    if kind < 1 || kind > 3 {
        return true;
    }
    if kind == 2 && at >= len {
        return false;
    }
    let end: usize = if kind == 1 {
        at + 4
    } else if kind == 2 {
        at + 1 + decoded[at] as usize
    } else {
        at + 16
    };
    if end > len {
        return false;
    }
    let address = write_address(decoded, name);
    address.as_str().as_bytes().len() <= len - at
}

/// Reads a header in which `name` is the text of a domain name.
pub fn read_request(decoded: &[u8], uuid: &str, name: &str) -> (r: Result<Request, Error>)
    requires
        whole(decoded@, uuid@, name@),
    ensures
        request_view(r) == parsed(decoded@, uuid@, name@),
{
    let len: usize = decoded.len();
    if !validate_uuid(slice_subrange(decoded, 1, 17), uuid) {
        return Err(Error::InvalidUuid);
    }
    let kind: u8 = decoded[17];
    let at: usize = 21 + decoded[18] as usize;
    let port: u16 = decoded[at - 2] as u16 * 256 + decoded[at - 1] as u16;
    if kind < 1 || kind > 3 {
        return Err(Error::UnsupportedAddressType);
    }
    let address = write_address(decoded, name);
    let start: usize = at + address.as_str().as_bytes().len();
    let initial_data = slice_to_vec(slice_subrange(decoded, start, len));
    assert(initial_data@ =~= decoded@.skip(start as int));
    Ok(Request { address, port, initial_data })
}

/// The text of the domain name in a header, or nothing where the header holds none.
fn read_name(decoded: &[u8]) -> (name: String)
    ensures
        decoded@.len() >= 19 && decoded@[17] == 2 && address_at(decoded@) < decoded@.len()
            && address_end(decoded@) <= decoded@.len() ==> {
            &&& name@ == lossy_text(name_bytes(decoded@))
            &&& valid_utf8(name_bytes(decoded@)) ==> name@ == decode_utf8(name_bytes(decoded@))
        },
{
    let len: usize = decoded.len();
    if len < 19 || decoded[17] != 2 {
        return String::new();
    }
    let at: usize = 21 + decoded[18] as usize;
    if at >= len || len - at - 1 < decoded[at] as usize {
        return String::new();
    }
    utf8_lossy(slice_subrange(decoded, at + 1, at + 1 + decoded[at] as usize))
}

/// Reads a header. A domain name is read as UTF-8, with replacements where it is none.
pub fn handle_socket(decoded: &[u8], uuid: &str) -> (r: Result<Request, Error>)
    requires
        whole(decoded@, uuid@, lossy_text(name_bytes(decoded@))),
    ensures
        request_view(r) == parsed(decoded@, uuid@, lossy_text(name_bytes(decoded@))),
        valid_utf8(name_bytes(decoded@)) ==> request_view(r) == parsed(
            decoded@,
            uuid@,
            decode_utf8(name_bytes(decoded@)),
        ),
{
    let name = read_name(decoded);
    read_request(decoded, uuid, name.as_str())
}

/// Reads a header, unless it ends too early.
pub fn try_handle_socket(decoded: &[u8], uuid: &str) -> (out: Option<Result<Request, Error>>)
    ensures
        match out {
            Some(r) => {
                &&& whole(decoded@, uuid@, lossy_text(name_bytes(decoded@)))
                &&& request_view(r) == parsed(decoded@, uuid@, lossy_text(name_bytes(decoded@)))
                &&& valid_utf8(name_bytes(decoded@)) ==> {
                    &&& whole(decoded@, uuid@, decode_utf8(name_bytes(decoded@)))
                    &&& request_view(r) == parsed(
                        decoded@,
                        uuid@,
                        decode_utf8(name_bytes(decoded@)),
                    )
                }
            },
            None => {
                &&& !whole(decoded@, uuid@, lossy_text(name_bytes(decoded@)))
                &&& valid_utf8(name_bytes(decoded@)) ==> !whole(
                    decoded@,
                    uuid@,
                    decode_utf8(name_bytes(decoded@)),
                )
            },
        },
{
    let name = read_name(decoded);
    if is_whole(decoded, uuid, name.as_str()) {
        Some(handle_socket(decoded, uuid))
    } else {
        None
    }
}

// ---------------------------------------------------------------------------
// Laws
// ---------------------------------------------------------------------------

/// A protocol header that is decoded holds none of `-`, `_`, `+` and `/`, and is itself the Base64
/// of the bytes.
pub proof fn law_signs_are_refused(protocol: Seq<char>, bytes: Seq<u8>)
    requires
        sanitized(protocol) == base64_text(bytes, true),
    ensures
        protocol == base64_text(bytes, true),
        forall|i: int|
            0 <= i < protocol.len() ==> {
                &&& #[trigger] protocol[i] != '-'
                &&& protocol[i] != '_'
                &&& protocol[i] != '+'
                &&& protocol[i] != '/'
            },
{
    lemma_url_safe_lacks(bytes);
    let text = base64_text(bytes, true);
    assert forall|i: int| 0 <= i < protocol.len() implies {
        &&& #[trigger] protocol[i] != '-'
        &&& protocol[i] != '_'
        &&& protocol[i] != '+'
        &&& protocol[i] != '/'
        &&& protocol[i] == text[i]
    } by {
        assert(sanitized(protocol)[i] == text[i]);
    }
    assert(protocol =~= text);
}

/// The far end of a tunnel as text.
pub open spec fn host_of(to: Endpoint) -> Seq<char> {
    match to {
        Endpoint::V4(o) => ipv4_text(o),
        Endpoint::Name(n) => n,
        Endpoint::V6(o) => decimal_segments(segments(o)),
    }
}

/// A header as it goes over the wire.
pub open spec fn header_bytes(
    version: u8,
    key: Seq<u8>,
    addons: Seq<u8>,
    port: u16,
    to: Endpoint,
    data: Seq<u8>,
) -> Seq<u8> {
    seq![version] + key + seq![to.kind(), addons.len() as u8] + addons + seq![
        (port / 256) as u8,
        (port % 256) as u8,
    ] + to.bytes() + data
}

/// A client that knows the key gets the tunnel it asks for: to every address and port that a
/// header can say, whatever its version and addons. The first data is what is left of the address
/// and the data when as many bytes are passed over as the text of the address has.
pub proof fn law_the_key_opens(
    version: u8,
    key: Seq<u8>,
    addons: Seq<u8>,
    port: u16,
    to: Endpoint,
    data: Seq<u8>,
    uuid: Seq<char>,
)
    requires
        key.len() == 16,
        addons.len() < 256,
        to.fits(),
        uuid == uuid_text(key),
        encode_utf8(host_of(to)).len() <= to.bytes().len() + data.len(),
    ensures
        ({
            let d = header_bytes(version, key, addons, port, to, data);
            let name = decode_utf8(name_bytes(d));
            &&& to is Name ==> valid_utf8(name_bytes(d))
            &&& whole(d, uuid, name)
            &&& parsed(d, uuid, name) == Ok::<RequestView, Error>(
                RequestView {
                    address: host_of(to),
                    port,
                    initial_data: (to.bytes() + data).skip(
                        encode_utf8(host_of(to)).len() as int,
                    ),
                },
            )
        }),
{
    let d = header_bytes(version, key, addons, port, to, data);
    let at: int = 21 + addons.len() as int;
    let head = d.take(at);
    assert(d[17] == to.kind());
    assert(d[18] == addons.len());
    assert(d.subrange(1, 17) =~= key);
    assert(d[at - 2] == port / 256);
    assert(d[at - 1] == port % 256);
    assert(d =~= head + (to.bytes() + data));
    let n: int = encode_utf8(host_of(to)).len() as int;
    assert(d.skip(at + n) =~= (to.bytes() + data).skip(n));
    match to {
        Endpoint::V4(o) => {
            assert(d.subrange(at, at + 4) =~= o);
        },
        Endpoint::Name(n) => {
            assert(d[at] == encode_utf8(n).len());
            assert(name_bytes(d) =~= encode_utf8(n));
            vstd::utf8::encode_utf8_valid_utf8(n);
            vstd::utf8::encode_utf8_decode_utf8(n);
        },
        Endpoint::V6(o) => {
            assert(d.subrange(at, at + 16) =~= o);
        },
    }
}

/// No other key opens a tunnel: a header that opens one holds the key in its bytes 1 to 16.
pub proof fn law_only_the_key_opens(
    d: Seq<u8>,
    key: Seq<u8>,
    uuid: Seq<char>,
    name: Seq<char>,
)
    requires
        key.len() == 16,
        uuid == uuid_text(key),
        whole(d, uuid, name),
        parsed(d, uuid, name) is Ok,
    ensures
        d.subrange(1, 17) == key,
{
    law_uuid_text_is_unique(d.subrange(1, 17), key);
}

/// A header for an IPv4 address, byte for byte: behind the version and the key stand a 1, the
/// counted addons, the port with its high byte first, and four octets. Of what follows the
/// beginning of the address, as many bytes are passed over as its dotted decimal is long.
pub proof fn law_ipv4_header(
    version: u8,
    key: Seq<u8>,
    addons: Seq<u8>,
    hi: u8,
    lo: u8,
    o: Seq<u8>,
    data: Seq<u8>,
    name: Seq<char>,
)
    requires
        key.len() == 16,
        addons.len() < 256,
        o.len() == 4,
        encode_utf8(ipv4_text(o)).len() <= 4 + data.len(),
    ensures
        ({
            let d = seq![version] + key + seq![1u8, addons.len() as u8] + addons + seq![hi, lo] + o
                + data;
            &&& whole(d, uuid_text(key), name)
            &&& parsed(d, uuid_text(key), name) == Ok::<RequestView, Error>(
                RequestView {
                    address: ipv4_text(o),
                    port: (hi * 256 + lo) as u16,
                    initial_data: (o + data).skip(encode_utf8(ipv4_text(o)).len() as int),
                },
            )
        }),
{
    let d = seq![version] + key + seq![1u8, addons.len() as u8] + addons + seq![hi, lo] + o + data;
    let at: int = 21 + addons.len() as int;
    let n: int = encode_utf8(ipv4_text(o)).len() as int;
    assert(d[17] == 1);
    assert(d[18] == addons.len());
    assert(d[at - 2] == hi);
    assert(d[at - 1] == lo);
    assert(d.subrange(1, 17) =~= key);
    assert(d.subrange(at, at + 4) =~= o);
    assert(d.skip(at + n) =~= (o + data).skip(n));
}

/// A header for a domain name, byte for byte: as for an IPv4 address, with a 2, and the name in
/// UTF-8 behind the number of its bytes. As many bytes are passed over as the name has, counted
/// from that number on, so the last byte of the name goes before the data.
pub proof fn law_name_header(
    version: u8,
    key: Seq<u8>,
    addons: Seq<u8>,
    hi: u8,
    lo: u8,
    name: Seq<char>,
    data: Seq<u8>,
)
    requires
        key.len() == 16,
        addons.len() < 256,
        encode_utf8(name).len() < 256,
    ensures
        ({
            let bytes = encode_utf8(name);
            let d = seq![version] + key + seq![2u8, addons.len() as u8] + addons + seq![
                hi,
                lo,
                bytes.len() as u8,
            ] + bytes + data;
            &&& name_bytes(d) == bytes
            &&& whole(d, uuid_text(key), name)
            &&& parsed(d, uuid_text(key), name) == Ok::<RequestView, Error>(
                RequestView {
                    address: name,
                    port: (hi * 256 + lo) as u16,
                    initial_data: (if bytes.len() == 0 {
                        seq![0u8]
                    } else {
                        seq![bytes.last()]
                    }) + data,
                },
            )
        }),
{
    let bytes = encode_utf8(name);
    let d = seq![version] + key + seq![2u8, addons.len() as u8] + addons + seq![
        hi,
        lo,
        bytes.len() as u8,
    ] + bytes + data;
    let at: int = 21 + addons.len() as int;
    assert(d[17] == 2);
    assert(d[18] == addons.len());
    assert(d[at - 2] == hi);
    assert(d[at - 1] == lo);
    assert(d[at] == bytes.len());
    assert(d.subrange(1, 17) =~= key);
    assert(name_bytes(d) =~= bytes);
    let last = if bytes.len() == 0 {
        seq![0u8]
    } else {
        seq![bytes.last()]
    };
    assert(d.skip(at + bytes.len()) =~= last + data);
}

/// A header for an IPv6 address, byte for byte: as for an IPv4 address, with a 3 and sixteen bytes,
/// which are written as eight numerals in base ten.
pub proof fn law_ipv6_header(
    version: u8,
    key: Seq<u8>,
    addons: Seq<u8>,
    hi: u8,
    lo: u8,
    o: Seq<u8>,
    data: Seq<u8>,
    name: Seq<char>,
)
    requires
        key.len() == 16,
        addons.len() < 256,
        o.len() == 16,
        encode_utf8(decimal_segments(segments(o))).len() <= 16 + data.len(),
    ensures
        ({
            let d = seq![version] + key + seq![3u8, addons.len() as u8] + addons + seq![hi, lo] + o
                + data;
            let r = parsed(d, uuid_text(key), name);
            &&& whole(d, uuid_text(key), name)
            &&& r matches Ok(q)
            &&& q.port == hi * 256 + lo
            &&& parts_of(q.address, ':') == Seq::new(
                8,
                |i: int| decimal((o[2 * i] * 256 + o[2 * i + 1]) as nat),
            )
            &&& q.initial_data == (o + data).skip(encode_utf8(q.address).len() as int)
        }),
{
    let d = seq![version] + key + seq![3u8, addons.len() as u8] + addons + seq![hi, lo] + o + data;
    let at: int = 21 + addons.len() as int;
    let n: int = encode_utf8(decimal_segments(segments(o))).len() as int;
    assert(d[17] == 3);
    assert(d[18] == addons.len());
    assert(d[at - 2] == hi);
    assert(d[at - 1] == lo);
    assert(d.subrange(1, 17) =~= key);
    assert(d.subrange(at, at + 16) =~= o);
    assert(d.skip(at + n) =~= (o + data).skip(n));
    law_segments_are_read_back(o);
}

/// A header with any other key is refused for that, whatever follows it, and one with the key but
/// another kind of address for that kind.
pub proof fn law_other_headers_are_refused(
    version: u8,
    key: Seq<u8>,
    rest: Seq<u8>,
    kind: u8,
    addons: Seq<u8>,
    hi: u8,
    lo: u8,
    uuid: Seq<char>,
    name: Seq<char>,
)
    requires
        key.len() == 16,
        addons.len() < 256,
        kind == 0 || kind > 3,
        uuid != uuid_text(key),
    ensures
        whole(seq![version] + key + rest, uuid, name),
        parsed(seq![version] + key + rest, uuid, name) == Err::<RequestView, Error>(
            Error::InvalidUuid,
        ),
        ({
            let d = seq![version] + key + seq![kind, addons.len() as u8] + addons + seq![hi, lo]
                + rest;
            &&& whole(d, uuid_text(key), name)
            &&& parsed(d, uuid_text(key), name) == Err::<RequestView, Error>(
                Error::UnsupportedAddressType,
            )
        }),
{
    assert((seq![version] + key + rest).subrange(1, 17) =~= key);
    let d = seq![version] + key + seq![kind, addons.len() as u8] + addons + seq![hi, lo] + rest;
    assert(d.subrange(1, 17) =~= key);
    assert(d[17] == kind);
    assert(d[18] == addons.len());
}

/// A header with the key that ends before what is read of it is none: before the port, before the
/// end of the address, or before as many bytes as the text of the address has.
pub proof fn law_cut_header_is_not_whole(
    version: u8,
    key: Seq<u8>,
    addons: Seq<u8>,
    port: u16,
    to: Endpoint,
    n: int,
    name: Seq<char>,
)
    requires
        key.len() == 16,
        addons.len() < 256,
        to.fits(),
        0 <= n < 21 + addons.len() + to.bytes().len(),
    ensures
        !whole(
            header_bytes(version, key, addons, port, to, Seq::empty()).take(n),
            uuid_text(key),
            name,
        ),
{
    let all = header_bytes(version, key, addons, port, to, Seq::empty());
    let d = all.take(n);
    let at: int = 21 + addons.len() as int;
    assert(all[17] == to.kind());
    assert(all[18] == addons.len());
    if n >= 17 {
        assert(d.subrange(1, 17) =~= key);
        if n >= 19 {
            assert(d[17] == all[17]);
            assert(d[18] == all[18]);
            if to is Name && n > at {
                assert(all[at] == to.bytes()[0]);
                assert(d[at] == all[at]);
            }
        }
    }
}

/// What was read of a header is seen as it is.
pub proof fn law_results_are_seen_as_they_are(q: Request, e: Error)
    ensures
        request_view(Ok(q)) == Ok::<RequestView, Error>(q@),
        request_view(Err(e)) == Err::<RequestView, Error>(e),
{
}

} // verus!
