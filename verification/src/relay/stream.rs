//! A tunnel, from its first message to its end.

use super::config::Config;
use super::error::Error;
use super::header::{base64_decode, parse_vless_header, parsed};
use crate::codec::{base64_text, law_base64_text_is_unique, sanitized, standard_decode_error};
use crate::endpoint::{Request, RequestView};
use crate::traffic::{first_bytes, ClientEvent, ClientStep, ServerEvent};
use vstd::prelude::*;

verus! {

/// Begins a tunnel with the protocol header that carries its header. Without one the socket is
/// opened with no tunnel behind it.
pub fn handle_upgrade_websocket(protocol: Option<String>, config: &Config) -> (r: Result<
    Option<Request>,
    Error<String>,
>)
    ensures
        protocol is None ==> (r matches Ok(q) && q is None),
        protocol matches Some(p) ==> {
            &&& forall|b: Seq<u8>|
                sanitized(p@) == #[trigger] base64_text(b, false) ==> match r {
                    Ok(q) => q matches Some(q) && parsed(b, config.uuid@) == Ok::<
                        RequestView,
                        Error<Seq<char>>,
                    >(q@),
                    Err(e) => parsed(b, config.uuid@) == Err::<RequestView, Error<Seq<char>>>(e@),
                }
            &&& (forall|b: Seq<u8>| sanitized(p@) != #[trigger] base64_text(b, false)) ==> (
            r matches Err(e) && e@ == Error::Base64(standard_decode_error(sanitized(p@))))
        },
{
    match protocol {
        Some(protocol) => match base64_decode(protocol.as_str()) {
            Ok(header) => {
                assert forall|b: Seq<u8>|
                    sanitized(protocol@) == #[trigger] base64_text(b, false) implies b
                    == header@ by {
                    law_base64_text_is_unique(b, header@, false);
                }
                match parse_vless_header(header.as_slice(), config.uuid.as_str()) {
                    Ok(request) => Ok(Some(request)),
                    Err(e) => Err(e),
                }
            },
            Err(e) => Err(e),
        },
        None => Ok(None),
    }
}

/// Carries what came from the client to the far end. Anything but bytes ends this direction.
pub fn client_step(event: ClientEvent) -> (step: ClientStep)
    ensures
        step == (match event {
            ClientEvent::Bytes(data) => ClientStep::Write(data),
            _ => ClientStep::Stop,
        }),
{
    match event {
        ClientEvent::Bytes(data) => ClientStep::Write(data),
        _ => ClientStep::Stop,
    }
}

/// Carries what came from the far end to the client; `None` ends this direction, and reading
/// nothing does so too.
pub fn server_step(buffer: &[u8], event: ServerEvent) -> (step: Option<Vec<u8>>)
    requires
        event matches ServerEvent::Read(n) ==> n <= buffer@.len(),
    ensures
        match (event, step) {
            (ServerEvent::Read(n), Some(data)) => n > 0 && data@ == buffer@.take(n as int),
            (ServerEvent::Read(n), None) => n == 0,
            (_, _) => step is None,
        },
{
    match event {
        ServerEvent::Read(n) => if n == 0 {
            None
        } else {
            Some(first_bytes(buffer, n))
        },
        _ => None,
    }
}

} // verus!
