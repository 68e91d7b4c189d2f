//! Which request gets what.

use crate::codec::ascii_lowered;
use crate::reply::{missing, not_found, Reply};
use crate::upgrade::{asks_websocket, wants_websocket};
use vstd::prelude::*;
use vstd::utf8::is_ascii_chars;

verus! {

/// What becomes of a request.
pub enum Route<T> {
    /// It opens a tunnel.
    Tunnel,
    /// It is answered.
    Answer(Reply<T>),
}

impl View for Route<String> {
    type V = Route<Seq<char>>;

    open spec fn view(&self) -> Route<Seq<char>> {
        match *self {
            Route::Tunnel => Route::Tunnel,
            Route::Answer(reply) => Route::Answer(reply@),
        }
    }
}

/// What becomes of a request: one that asks for no web socket finds nothing here.
pub open spec fn route(websocket: bool) -> Route<Seq<char>> {
    if websocket {
        Route::Tunnel
    } else {
        Route::Answer(missing())
    }
}

/// Decides on a request with the header `Upgrade`.
pub fn route_request(upgrade: &str) -> (r: Route<String>)
    ensures
        r@ == route(asks_websocket(upgrade@)),
        is_ascii_chars(upgrade@) ==> r@ == route(ascii_lowered(upgrade@) == "websocket"@),
{
    if wants_websocket(upgrade) {
        Route::Tunnel
    } else {
        Route::Answer(not_found())
    }
}

/// A web socket gets a tunnel, and every other request finds nothing; both are seen as they are.
pub proof fn law_only_web_sockets_find_something(reply: Reply<String>)
    ensures
        route(true) == Route::<Seq<char>>::Tunnel,
        route(false) == Route::Answer(Reply::Error { message: "Not Found"@, status: 404 }),
        Route::<String>::Tunnel@ == Route::<Seq<char>>::Tunnel,
        Route::Answer(reply)@ == Route::Answer(reply@),
{
}

} // verus!
