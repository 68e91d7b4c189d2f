//! What can go wrong in the gateway.

use crate::text::{decimal, decimal_text};
use vstd::prelude::*;

verus! {

/// An error, with the texts of others that it hands on.
pub enum Error<T> {
    /// The protocol header is not Base64.
    Base64(T),
    /// The tunnel header is shorter than any can be.
    HeaderTooShort,
    /// The tunnel header ends before the port and the kind of the address.
    AddressSection,
    /// The tunnel header ends within an IPv4 address.
    IncompleteIpv4,
    /// The tunnel header ends before the length of a domain name.
    MissingDomainLength,
    /// The tunnel header ends within a domain name.
    IncompleteDomain,
    /// A domain name is not UTF-8.
    NotUtf8(T),
    /// The tunnel header ends within an IPv6 address.
    IncompleteIpv6,
    /// The kind of an address is not known.
    UnsupportedAddressType(u8),
    /// A text that should be an IPv4 address is none.
    InvalidIpv4,
    /// Every way to connect was tried.
    AllConnectionsFailed,
    /// A name server answered with this status.
    DohStatus(u16),
    /// A name server gave no address.
    NoARecord,
    /// The list of preferred nodes was answered with this status.
    ListStatus(u16),
}

impl View for Error<String> {
    type V = Error<Seq<char>>;

    open spec fn view(&self) -> Error<Seq<char>> {
        match *self {
            Error::Base64(t) => Error::Base64(t@),
            Error::HeaderTooShort => Error::HeaderTooShort,
            Error::AddressSection => Error::AddressSection,
            Error::IncompleteIpv4 => Error::IncompleteIpv4,
            Error::MissingDomainLength => Error::MissingDomainLength,
            Error::IncompleteDomain => Error::IncompleteDomain,
            Error::NotUtf8(t) => Error::NotUtf8(t@),
            Error::IncompleteIpv6 => Error::IncompleteIpv6,
            Error::UnsupportedAddressType(n) => Error::UnsupportedAddressType(n),
            Error::InvalidIpv4 => Error::InvalidIpv4,
            Error::AllConnectionsFailed => Error::AllConnectionsFailed,
            Error::DohStatus(n) => Error::DohStatus(n),
            Error::NoARecord => Error::NoARecord,
            Error::ListStatus(n) => Error::ListStatus(n),
        }
    }
}

impl Error<Seq<char>> {
    /// What the error says.
    pub open spec fn text(self) -> Seq<char> {
        match self {
            Error::Base64(t) => "Base64 Decode Error: "@ + t,
            Error::HeaderTooShort => "VLESS header too short"@,
            Error::AddressSection => "Invalid VLESS address section"@,
            Error::IncompleteIpv4 => "Incomplete IPv4 address"@,
            Error::MissingDomainLength => "Missing domain length"@,
            Error::IncompleteDomain => "Incomplete domain name"@,
            Error::NotUtf8(t) => t,
            Error::IncompleteIpv6 => "Incomplete IPv6 address"@,
            Error::UnsupportedAddressType(n) => "Unsupported address type: "@ + decimal(n as nat),
            Error::InvalidIpv4 => "Invalid IPv4 format"@,
            Error::AllConnectionsFailed => "All connection methods failed"@,
            Error::DohStatus(n) => "DoH query failed with status "@ + decimal(n as nat),
            Error::NoARecord => "No A record found in DoH response"@,
            Error::ListStatus(n) => "Failed to fetch preferred list: status "@ + decimal(n as nat),
        }
    }
}

impl Error<String> {
    /// What the error says.
    pub fn message(&self) -> (out: String)
        ensures
            out@ == self@.text(),
    {
        match self {
            Error::Base64(t) => {
                let mut out = "Base64 Decode Error: ".to_owned();
                out.append(t.as_str());
                out
            },
            Error::HeaderTooShort => "VLESS header too short".to_owned(),
            Error::AddressSection => "Invalid VLESS address section".to_owned(),
            Error::IncompleteIpv4 => "Incomplete IPv4 address".to_owned(),
            Error::MissingDomainLength => "Missing domain length".to_owned(),
            Error::IncompleteDomain => "Incomplete domain name".to_owned(),
            Error::NotUtf8(t) => t.clone(),
            Error::IncompleteIpv6 => "Incomplete IPv6 address".to_owned(),
            Error::UnsupportedAddressType(n) => {
                let mut out = "Unsupported address type: ".to_owned();
                out.append(decimal_text(*n as u64).as_str());
                out
            },
            Error::InvalidIpv4 => "Invalid IPv4 format".to_owned(),
            Error::AllConnectionsFailed => "All connection methods failed".to_owned(),
            Error::DohStatus(n) => {
                let mut out = "DoH query failed with status ".to_owned();
                out.append(decimal_text(*n as u64).as_str());
                out
            },
            Error::NoARecord => "No A record found in DoH response".to_owned(),
            Error::ListStatus(n) => {
                let mut out = "Failed to fetch preferred list: status ".to_owned();
                out.append(decimal_text(*n as u64).as_str());
                out
            },
        }
    }
}

/// The errors that hand something on name it: the text of another error, the kind of an address, or
/// a status.
pub proof fn law_errors_name_what_they_hand_on(text: Seq<char>, kind: u8, status: u16)
    ensures
        Error::Base64(text).text() == "Base64 Decode Error: "@ + text,
        Error::NotUtf8(text).text() == text,
        Error::<Seq<char>>::UnsupportedAddressType(kind).text() == "Unsupported address type: "@
            + decimal(kind as nat),
        Error::<Seq<char>>::DohStatus(status).text() == "DoH query failed with status "@ + decimal(
            status as nat,
        ),
        Error::<Seq<char>>::ListStatus(status).text() == "Failed to fetch preferred list: status "@
            + decimal(status as nat),
{
}

/// The errors that hand something on are seen as they are.
pub proof fn law_errors_are_seen_as_they_are(text: String, kind: u8, status: u16)
    ensures
        Error::Base64(text)@ == Error::Base64(text@),
        Error::NotUtf8(text)@ == Error::NotUtf8(text@),
        Error::<String>::UnsupportedAddressType(kind)@ == Error::<
            Seq<char>,
        >::UnsupportedAddressType(kind),
        Error::<String>::DohStatus(status)@ == Error::<Seq<char>>::DohStatus(status),
        Error::<String>::ListStatus(status)@ == Error::<Seq<char>>::ListStatus(status),
{
}

} // verus!
