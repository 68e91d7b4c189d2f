//! What a tunnel carries.

use crate::traffic::{first_bytes, ClientEvent, ClientStep};
use vstd::prelude::*;

verus! {

/// Carries what came from the client to the far end. Only bytes are carried, and only the end of
/// the socket ends this direction.
pub fn client_step(event: ClientEvent) -> (step: ClientStep)
    ensures
        step == (match event {
            ClientEvent::Bytes(data) => ClientStep::Write(data),
            ClientEvent::Text => ClientStep::Skip,
            ClientEvent::Failed => ClientStep::Skip,
            ClientEvent::Ended => ClientStep::Stop,
        }),
{
    match event {
        ClientEvent::Bytes(data) => ClientStep::Write(data),
        ClientEvent::Text => ClientStep::Skip,
        ClientEvent::Failed => ClientStep::Skip,
        ClientEvent::Ended => ClientStep::Stop,
    }
}

/// Carries the `n` bytes that were read from the far end into a buffer to the client; with none
/// this direction is done.
pub fn server_step(buffer: &[u8], n: usize) -> (step: Option<Vec<u8>>)
    requires
        n <= buffer@.len(),
    ensures
        match step {
            Some(data) => n > 0 && data@ == buffer@.take(n as int),
            None => n == 0,
        },
{
    if n == 0 {
        None
    } else {
        Some(first_bytes(buffer, n))
    }
}

} // verus!
