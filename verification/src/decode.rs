//! The upstream decode contract. Framing, checksumming and message lookup
//! are the protocol crate's job; this module gives its result a name,
//! `frame_decode`, and wraps the one call the reassembler makes.

use vstd::prelude::*;

verus! {

/// What the upstream decoder returns on a buffer: `None` when no whole
/// message can be taken from the front (more data is needed), or the number
/// of bytes consumed, the message id, and the full payload of the first
/// message. The result is a function of the buffer contents alone.
pub uninterp spec fn frame_decode(bytes: Seq<u8>) -> Option<(int, u32, Seq<u8>)>;

/// Relies on `mavlink::read_v2_msg` over the `common` dialect, and on
/// `mavlink::Message::message_id` and `mavlink::Message::ser` to turn the
/// parsed message back into its id and canonical payload bytes.
///
/// `read_v2_msg` reads sequentially from the cursor and nothing else, so
/// its outcome is a function of the buffer contents alone (`frame_decode`).
/// On success it has read at least the leading marker byte and at most the
/// whole buffer, and the parse depends only on the bytes it consumed, so
/// appending further bytes leaves an already-successful parse unchanged.
/// Any error — a frame still incomplete, or a message the dialect cannot
/// parse — is reported as "need more data", exactly as `frame_decode`
/// names it.
#[verifier::external_body]
pub(crate) fn read_frame(buf: &Vec<u8>) -> (r: Option<(usize, u32, Vec<u8>)>)
    ensures
        r is Some <==> frame_decode(buf@) is Some,
        (r matches Some((n, id, p)) ==> {
            &&& frame_decode(buf@) == Some((n as int, id, p@))
            &&& 1 <= n <= buf.len()
            &&& forall|ext: Seq<u8>| frame_decode(buf@ + ext) == Some((n as int, id, p@))
        }),
{
    let mut cur = std::io::Cursor::new(buf);
    match mavlink::read_v2_msg::<mavlink::common::MavMessage, _>(&mut cur) {
        Ok((_header, m)) => Some(
            (cur.position() as usize, mavlink::Message::message_id(&m), mavlink::Message::ser(&m)),
        ),
        Err(_) => None,
    }
}

} // verus!
