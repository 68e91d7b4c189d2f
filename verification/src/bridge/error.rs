//! What can go wrong in the bridge.

use vstd::prelude::*;

verus! {

/// An error.
#[derive(Clone, Copy, PartialEq, Eq, Structural)]
pub enum Error {
    /// There is no protocol header.
    MissingProtocol,
    /// The protocol header is not Base64.
    InvalidBase64,
    /// The key is not the one that is asked for.
    InvalidUuid,
    /// The kind of an address is not known.
    UnsupportedAddressType,
}

impl Error {
    /// What the error says.
    pub open spec fn text(self) -> Seq<char> {
        match self {
            Error::MissingProtocol => "Missing protocol"@,
            Error::InvalidBase64 => "Invalid base64"@,
            Error::InvalidUuid => "Invalid UUID"@,
            Error::UnsupportedAddressType => "Unsupported address type"@,
        }
    }

    /// What the error says.
    pub fn message(&self) -> (out: String)
        ensures
            out@ == self.text(),
    {
        match self {
            Error::MissingProtocol => "Missing protocol".to_owned(),
            Error::InvalidBase64 => "Invalid base64".to_owned(),
            Error::InvalidUuid => "Invalid UUID".to_owned(),
            Error::UnsupportedAddressType => "Unsupported address type".to_owned(),
        }
    }
}

} // verus!
