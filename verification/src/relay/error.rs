//! What can go wrong in the relay.

use vstd::prelude::*;

verus! {

/// An error, with the texts of others that it hands on.
pub enum Error<T> {
    /// The protocol header is not Base64.
    Base64(T),
    /// The tunnel header is shorter than any can be.
    InvalidHeader,
    /// The tunnel header holds another key.
    InvalidUuid,
    /// The tunnel header ends before or within the port.
    InvalidPortIndex,
    /// The tunnel header ends before the kind of the address.
    InvalidAddressTypeIndex,
    /// The tunnel header ends within an IPv4 address.
    InvalidIpv4Address,
    /// The tunnel header ends before the length of a domain name.
    InvalidDomainLength,
    /// The tunnel header ends within a domain name.
    InvalidDomainAddress,
    /// A domain name is not UTF-8.
    NotUtf8(T),
    /// The tunnel header ends within an IPv6 address.
    InvalidIpv6Address,
    /// The kind of an address is not known.
    UnknownAddressType,
    /// No address was found for a domain name.
    ResolveFailed,
    /// Every way to connect was tried, NAT64 and the proxy among them.
    AllConnectionsFailed,
    /// NAT64 refused, and there is no proxy.
    Nat64FailedNoProxy,
    /// The destination and the proxy refused, and there is no NAT64.
    DirectAndProxyFailed,
    /// The destination refused, and there is neither NAT64 nor a proxy.
    NoFallback,
    /// A name server gave an address that is none.
    ParseIpv4Failed,
    /// A name server gave no address.
    NoARecord,
}

impl View for Error<String> {
    type V = Error<Seq<char>>;

    open spec fn view(&self) -> Error<Seq<char>> {
        match *self {
            Error::Base64(t) => Error::Base64(t@),
            Error::InvalidHeader => Error::InvalidHeader,
            Error::InvalidUuid => Error::InvalidUuid,
            Error::InvalidPortIndex => Error::InvalidPortIndex,
            Error::InvalidAddressTypeIndex => Error::InvalidAddressTypeIndex,
            Error::InvalidIpv4Address => Error::InvalidIpv4Address,
            Error::InvalidDomainLength => Error::InvalidDomainLength,
            Error::InvalidDomainAddress => Error::InvalidDomainAddress,
            Error::NotUtf8(t) => Error::NotUtf8(t@),
            Error::InvalidIpv6Address => Error::InvalidIpv6Address,
            Error::UnknownAddressType => Error::UnknownAddressType,
            Error::ResolveFailed => Error::ResolveFailed,
            Error::AllConnectionsFailed => Error::AllConnectionsFailed,
            Error::Nat64FailedNoProxy => Error::Nat64FailedNoProxy,
            Error::DirectAndProxyFailed => Error::DirectAndProxyFailed,
            Error::NoFallback => Error::NoFallback,
            Error::ParseIpv4Failed => Error::ParseIpv4Failed,
            Error::NoARecord => Error::NoARecord,
        }
    }
}

impl Error<Seq<char>> {
    /// What the error says.
    pub open spec fn text(self) -> Seq<char> {
        match self {
            Error::Base64(t) => "Base64 decode error: "@ + t,
            Error::InvalidHeader => "Invalid VLESS header"@,
            Error::InvalidUuid => "Invalid UUID"@,
            Error::InvalidPortIndex => "Invalid port index"@,
            Error::InvalidAddressTypeIndex => "Invalid address type index"@,
            Error::InvalidIpv4Address => "Invalid IPv4 address"@,
            Error::InvalidDomainLength => "Invalid domain length"@,
            Error::InvalidDomainAddress => "Invalid domain address"@,
            Error::NotUtf8(t) => t,
            Error::InvalidIpv6Address => "Invalid IPv6 address"@,
            Error::UnknownAddressType => "Unknown address type"@,
            Error::ResolveFailed => "Failed to resolve domain"@,
            Error::AllConnectionsFailed => "All connection methods failed"@,
            Error::Nat64FailedNoProxy => "NAT64 connection failed and no proxy configured"@,
            Error::DirectAndProxyFailed => "Direct and proxy connection failed"@,
            Error::NoFallback => "Direct connection failed and no fallback configured"@,
            Error::ParseIpv4Failed => "Failed to parse IPv4 address"@,
            Error::NoARecord => "No A record found"@,
        }
    }
}

impl Error<String> {
    /// What the error says.
    pub fn message(&self) -> (out: String)
        ensures
            out@ == self@.text(),
    {
        match self {
            Error::Base64(t) => {
                let mut out = "Base64 decode error: ".to_owned();
                out.append(t.as_str());
                out
            },
            Error::InvalidHeader => "Invalid VLESS header".to_owned(),
            Error::InvalidUuid => "Invalid UUID".to_owned(),
            Error::InvalidPortIndex => "Invalid port index".to_owned(),
            Error::InvalidAddressTypeIndex => "Invalid address type index".to_owned(),
            Error::InvalidIpv4Address => "Invalid IPv4 address".to_owned(),
            Error::InvalidDomainLength => "Invalid domain length".to_owned(),
            Error::InvalidDomainAddress => "Invalid domain address".to_owned(),
            Error::NotUtf8(t) => t.clone(),
            Error::InvalidIpv6Address => "Invalid IPv6 address".to_owned(),
            Error::UnknownAddressType => "Unknown address type".to_owned(),
            Error::ResolveFailed => "Failed to resolve domain".to_owned(),
            Error::AllConnectionsFailed => "All connection methods failed".to_owned(),
            Error::Nat64FailedNoProxy => {
                "NAT64 connection failed and no proxy configured".to_owned()
            },
            Error::DirectAndProxyFailed => "Direct and proxy connection failed".to_owned(),
            Error::NoFallback => "Direct connection failed and no fallback configured".to_owned(),
            Error::ParseIpv4Failed => "Failed to parse IPv4 address".to_owned(),
            Error::NoARecord => "No A record found".to_owned(),
        }
    }
}

/// The errors that hand on the text of another name it.
pub proof fn law_errors_name_what_they_hand_on(text: Seq<char>)
    ensures
        Error::Base64(text).text() == "Base64 decode error: "@ + text,
        Error::NotUtf8(text).text() == text,
{
}

/// The errors that hand on the text of another are seen as they are.
pub proof fn law_errors_are_seen_as_they_are(text: String)
    ensures
        Error::Base64(text)@ == Error::Base64(text@),
        Error::NotUtf8(text)@ == Error::NotUtf8(text@),
{
}

} // verus!
