//! Tunnels, as headers ask for them.

use vstd::prelude::*;
use vstd::utf8::encode_utf8;

verus! {

/// The far end of a tunnel.
pub enum Endpoint {
    V4(Seq<u8>),
    Name(Seq<char>),
    V6(Seq<u8>),
}

impl Endpoint {
    /// Whether an endpoint can be written into a header.
    pub open spec fn fits(self) -> bool {
        match self {
            Endpoint::V4(o) => o.len() == 4,
            Endpoint::Name(n) => encode_utf8(n).len() < 256,
            Endpoint::V6(o) => o.len() == 16,
        }
    }

    /// The kind of the address.
    pub open spec fn kind(self) -> u8 {
        match self {
            Endpoint::V4(_) => 1,
            Endpoint::Name(_) => 2,
            Endpoint::V6(_) => 3,
        }
    }

    /// The address as it stands in a header.
    pub open spec fn bytes(self) -> Seq<u8> {
        match self {
            Endpoint::V4(o) => o,
            Endpoint::Name(n) => seq![encode_utf8(n).len() as u8] + encode_utf8(n),
            Endpoint::V6(o) => o,
        }
    }
}

/// A tunnel that a client asks for.
pub struct Request {
    pub address: String,
    pub port: u16,
    pub initial_data: Vec<u8>,
}

/// A tunnel that a client asks for.
pub struct RequestView {
    pub address: Seq<char>,
    pub port: u16,
    pub initial_data: Seq<u8>,
}

impl View for Request {
    type V = RequestView;

    open spec fn view(&self) -> RequestView {
        RequestView {
            address: self.address@,
            port: self.port,
            initial_data: self.initial_data@,
        }
    }
}

/// A tunnel that a client asks for is seen as it is.
pub proof fn law_requests_are_seen_as_they_are(q: Request)
    ensures
        q@.address == q.address@,
        q@.port == q.port,
        q@.initial_data == q.initial_data@,
{
}

/// An address in a header is its bytes, and a domain name its UTF-8 behind the number of bytes.
pub proof fn law_addresses_in_headers(o: Seq<u8>, name: Seq<char>)
    ensures
        o.len() == 4 ==> Endpoint::V4(o).fits(),
        o.len() == 16 ==> Endpoint::V6(o).fits(),
        encode_utf8(name).len() <= 255 ==> Endpoint::Name(name).fits(),
        Endpoint::V4(o).kind() == 1,
        Endpoint::Name(name).kind() == 2,
        Endpoint::V6(o).kind() == 3,
        Endpoint::V4(o).bytes() == o,
        Endpoint::V6(o).bytes() == o,
        Endpoint::Name(name).bytes() == seq![encode_utf8(name).len() as u8] + encode_utf8(name),
{
}

} // verus!
