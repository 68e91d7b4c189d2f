//! What goes through a tunnel.

use vstd::prelude::*;
use vstd::slice::{slice_subrange, slice_to_vec};

verus! {

/// The first message to the client of a tunnel that is open.
pub fn first_message() -> (out: Vec<u8>)
    ensures
        out@ == seq![0u8, 0u8],
{
    let mut out: Vec<u8> = Vec::new();
    out.push(0);
    out.push(0);
    assert(out@ =~= seq![0u8, 0u8]);
    out
}

/// What is written to the far end before anything else: the first data, unless there is none.
pub fn first_write(initial_data: Vec<u8>) -> (out: Option<Vec<u8>>)
    ensures
        match out {
            Some(data) => data == initial_data && initial_data@.len() > 0,
            None => initial_data@.len() == 0,
        },
{
    if initial_data.len() == 0 {
        None
    } else {
        Some(initial_data)
    }
}

/// What came from the client.
pub enum ClientEvent {
    Bytes(Vec<u8>),
    Text,
    Failed,
    Ended,
}

/// What to do about it.
pub enum ClientStep {
    /// Write these bytes to the far end.
    Write(Vec<u8>),
    /// Wait for more.
    Skip,
    /// This direction is done.
    Stop,
}

/// What came from the far end, into a buffer.
pub enum ServerEvent {
    Read(usize),
    Failed,
    Ended,
}

/// The first `n` bytes of a buffer.
pub fn first_bytes(buffer: &[u8], n: usize) -> (data: Vec<u8>)
    requires
        n <= buffer@.len(),
    ensures
        data@ == buffer@.take(n as int),
{
    let data = slice_to_vec(slice_subrange(buffer, 0, n));
    assert(data@ =~= buffer@.take(n as int));
    data
}

} // verus!
