//! Requests for a web socket.

use crate::codec::{ascii_lowered, lowercase, to_lowercase};
use crate::text::same_text;
use vstd::prelude::*;
use vstd::utf8::is_ascii_chars;

verus! {

/// Whether a header `Upgrade` asks for a web socket, in whatever case.
pub open spec fn asks_websocket(upgrade: Seq<char>) -> bool {
    lowercase(upgrade) == "websocket"@
}

/// Tells whether a header `Upgrade` asks for a web socket, in whatever case.
pub fn wants_websocket(upgrade: &str) -> (yes: bool)
    ensures
        yes == asks_websocket(upgrade@),
        is_ascii_chars(upgrade@) ==> yes == (ascii_lowered(upgrade@) == "websocket"@),
{
    same_text(to_lowercase(upgrade).as_str(), "websocket")
}

} // verus!
