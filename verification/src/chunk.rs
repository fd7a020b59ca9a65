//! One tapped read from the vehicle link. A chunk either carries bytes, or
//! marks a session boundary (`is_reset`), telling the reassembler that any
//! partial state it holds belongs to a dead connection and must be dropped.

use vstd::prelude::*;

verus! {

/// One unit handed from the relay tap to the reassembler.
#[derive(Debug)]
pub struct RawChunk {
    /// The bytes read from the vehicle link, possibly empty.
    pub data: Vec<u8>,
    /// True exactly once per session generation, before any data of that
    /// generation.
    pub is_reset: bool,
}

} // verus!
