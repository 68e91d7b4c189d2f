//! A tunnel, from its first message to its end.

use super::config::AppConfig;
use super::error::Error;
use super::header::{
    decode_protocol_header, header_bytes, host_of, parse_vless_header, parsed, DestinationAddress,
};
use crate::codec::{base64_text, law_base64_text_is_unique, sanitized, standard_decode_error};
use crate::endpoint::Endpoint;
use crate::identity::{hyphenated, law_uuid_text_is_unique, uuid_text};
use crate::text::same_text;
use crate::traffic::{first_bytes, ClientEvent, ClientStep, ServerEvent};
use vstd::prelude::*;

verus! {

/// How a tunnel begins.
pub enum Opening {
    /// The client is turned away: the socket is closed with this code and reason.
    Refused { code: u16, reason: String },
    /// The tunnel leads there, and this is the first data for it.
    Tunnel { dest: DestinationAddress, initial_data: Vec<u8> },
}

/// How a tunnel begins.
pub enum OpeningView {
    Refused { code: u16, reason: Seq<char> },
    Tunnel { host: Seq<char>, port: u16, addr_type: u8, initial_data: Seq<u8> },
}

impl View for Opening {
    type V = OpeningView;

    open spec fn view(&self) -> OpeningView {
        match *self {
            Opening::Refused { code, reason } => OpeningView::Refused { code, reason: reason@ },
            Opening::Tunnel { dest, initial_data } => OpeningView::Tunnel {
                host: dest.host@,
                port: dest.port,
                addr_type: dest.addr_type,
                initial_data: initial_data@,
            },
        }
    }
}

/// How a tunnel begins whose header is `data`: with the right key it leads where the header says,
/// with any other the client is turned away.
pub open spec fn opens(data: Seq<u8>, config: AppConfig) -> Result<
    OpeningView,
    Error<Seq<char>>,
> {
    match parsed(data) {
        Err(e) => Err(e),
        Ok(h) => if uuid_text(h.uuid) == config.uuid@ {
            Ok(
                OpeningView::Tunnel {
                    host: h.host,
                    port: h.port,
                    addr_type: h.addr_type,
                    initial_data: h.initial_data,
                },
            )
        } else {
            Ok(OpeningView::Refused { code: 1000, reason: "Invalid UUID"@ })
        },
    }
}

/// The view of a result.
pub open spec fn opening_view(r: Result<Opening, Error<String>>) -> Result<
    OpeningView,
    Error<Seq<char>>,
> {
    match r {
        Ok(o) => Ok(o@),
        Err(e) => Err(e@),
    }
}

/// Begins a tunnel with its header.
pub fn open_with_header(header: &[u8], config: &AppConfig) -> (r: Result<Opening, Error<String>>)
    ensures
        opening_view(r) == opens(header@, *config),
{
    match parse_vless_header(header) {
        Ok((uuid, dest, initial_data)) => {
            let uuid = hyphenated(uuid);
            if same_text(uuid.as_str(), config.uuid.as_str()) {
                Ok(Opening::Tunnel { dest, initial_data })
            } else {
                Ok(Opening::Refused { code: 1000, reason: "Invalid UUID".to_owned() })
            }
        },
        Err(e) => Err(e),
    }
}

/// Begins a tunnel with the protocol header that carries its header.
pub fn handle_socket_stream(protocol: &str, config: &AppConfig) -> (r: Result<
    Opening,
    Error<String>,
>)
    ensures
        forall|b: Seq<u8>|
            sanitized(protocol@) == #[trigger] base64_text(b, false) ==> opening_view(r) == opens(
                b,
                *config,
            ),
        (forall|b: Seq<u8>| sanitized(protocol@) != #[trigger] base64_text(b, false))
            ==> opening_view(r) == Err::<OpeningView, Error<Seq<char>>>(
            Error::Base64(standard_decode_error(sanitized(protocol@))),
        ),
{
    match decode_protocol_header(protocol) {
        Ok(header) => {
            assert forall|b: Seq<u8>|
                sanitized(protocol@) == #[trigger] base64_text(b, false) implies b == header@ by {
                law_base64_text_is_unique(b, header@, false);
            }
            open_with_header(header.as_slice(), config)
        },
        Err(e) => Err(e),
    }
}

/// Carries what came from the client to the far end. Text carries nothing.
pub fn client_step(event: ClientEvent) -> (step: ClientStep)
    ensures
        step == (match event {
            ClientEvent::Bytes(data) => ClientStep::Write(data),
            ClientEvent::Text => ClientStep::Skip,
            ClientEvent::Failed => ClientStep::Stop,
            ClientEvent::Ended => ClientStep::Stop,
        }),
{
    match event {
        ClientEvent::Bytes(data) => ClientStep::Write(data),
        ClientEvent::Text => ClientStep::Skip,
        ClientEvent::Failed => ClientStep::Stop,
        ClientEvent::Ended => ClientStep::Stop,
    }
}

/// Carries what came from the far end to the client; `None` ends the tunnel.
pub fn server_step(buffer: &[u8], event: ServerEvent) -> (step: Option<Vec<u8>>)
    requires
        event matches ServerEvent::Read(n) ==> n <= buffer@.len(),
    ensures
        match event {
            ServerEvent::Read(n) => step matches Some(data) && data@ == buffer@.take(n as int),
            ServerEvent::Failed => step is None,
            ServerEvent::Ended => step is None,
        },
{
    match event {
        ServerEvent::Read(n) => Some(first_bytes(buffer, n)),
        ServerEvent::Failed => None,
        ServerEvent::Ended => None,
    }
}

/// The code and the reason with which the socket is closed when either end is done.
pub fn closing() -> (r: (u16, String))
    ensures
        r.0 == 1000,
        r.1@ == "Closing"@,
{
    (1000, "Closing".to_owned())
}

// ---------------------------------------------------------------------------
// Laws
// ---------------------------------------------------------------------------

/// A client that knows the key gets the tunnel it asks for: to every address, port and first data
/// that a header can say, whatever its version and addons.
pub proof fn law_the_key_opens(
    version: u8,
    key: Seq<u8>,
    addons: Seq<u8>,
    port: u16,
    to: Endpoint,
    data: Seq<u8>,
    config: AppConfig,
)
    requires
        key.len() == 16,
        addons.len() < 256,
        to.fits(),
        config.uuid@ == uuid_text(key),
    ensures
        opens(header_bytes(version, key, addons, port, to, data), config) == Ok::<
            OpeningView,
            Error<Seq<char>>,
        >(
            OpeningView::Tunnel {
                host: host_of(to),
                port,
                addr_type: to.kind(),
                initial_data: data,
            },
        ),
{
    super::header::law_header_is_read_as_written(version, key, addons, port, to, data);
}

/// No other key opens a tunnel: a header that opens one holds the key in its bytes 1 to 16.
pub proof fn law_only_the_key_opens(data: Seq<u8>, key: Seq<u8>, config: AppConfig)
    requires
        key.len() == 16,
        config.uuid@ == uuid_text(key),
        opens(data, config) matches Ok(OpeningView::Tunnel { .. }),
    ensures
        data.subrange(1, 17) == key,
{
    law_uuid_text_is_unique(data.subrange(1, 17), key);
}

/// A client with any other key is turned away, wherever it wants to go: the socket is closed with
/// the code 1000, and no tunnel is opened.
pub proof fn law_other_keys_are_turned_away(
    version: u8,
    key: Seq<u8>,
    addons: Seq<u8>,
    port: u16,
    to: Endpoint,
    data: Seq<u8>,
    config: AppConfig,
)
    requires
        key.len() == 16,
        addons.len() < 256,
        to.fits(),
        config.uuid@ != uuid_text(key),
    ensures
        opens(header_bytes(version, key, addons, port, to, data), config) == Ok::<
            OpeningView,
            Error<Seq<char>>,
        >(OpeningView::Refused { code: 1000, reason: "Invalid UUID"@ }),
{
    super::header::law_header_is_read_as_written(version, key, addons, port, to, data);
}

/// A header that cannot be read opens no tunnel, whatever the key, and its error is handed on.
pub proof fn law_bad_headers_open_nothing(data: Seq<u8>, config: AppConfig)
    ensures
        match parsed(data) {
            Err(e) => opens(data, config) == Err::<OpeningView, Error<Seq<char>>>(e),
            Ok(_) => opens(data, config) is Ok,
        },
{
}

/// How a tunnel begins is seen as it is.
pub proof fn law_opening_is_seen_as_it_is(
    dest: DestinationAddress,
    data: Vec<u8>,
    code: u16,
    reason: String,
    e: Error<String>,
)
    ensures
        opening_view(Ok(Opening::Tunnel { dest, initial_data: data })) == Ok::<
            OpeningView,
            Error<Seq<char>>,
        >(
            OpeningView::Tunnel {
                host: dest.host@,
                port: dest.port,
                addr_type: dest.addr_type,
                initial_data: data@,
            },
        ),
        opening_view(Ok(Opening::Refused { code, reason })) == Ok::<OpeningView, Error<Seq<char>>>(
            OpeningView::Refused { code, reason: reason@ },
        ),
        opening_view(Err(e)) == Err::<OpeningView, Error<Seq<char>>>(e@),
{
}

} // verus!
