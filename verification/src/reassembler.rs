//! The stream-reassembly engine: accumulates arbitrarily-chunked bytes,
//! decodes every whole message they contain, keeps the undecoded tail, and
//! drops stale state at a session boundary.
//!
//! The byte stream's meaning is given by `stream_messages` / `stream_rest`:
//! decode greedily from the front until the decoder asks for more data.

use vstd::prelude::*;

use crate::chunk::RawChunk;
use crate::decode::{frame_decode, read_frame};
use crate::msg::{classify_frame, spec_classify, DecodedMessage};

verus! {

/// One decode step on a buffer: the decoded front message and the bytes it
/// consumed, or `None` when more data is needed. Results whose byte count
/// the decode contract rules out (none consumed, or more than the buffer
/// holds) are treated as "need more data", so the step is total.
pub open spec fn decode_step(bytes: Seq<u8>) -> Option<(int, DecodedMessage)> {
    match frame_decode(bytes) {
        Some((n, id, p)) => if 1 <= n <= bytes.len() {
            Some((n, spec_classify(id, p)))
        } else {
            None
        },
        None => None,
    }
}

/// Every message decodable from `bytes`, front to back.
pub open spec fn stream_messages(bytes: Seq<u8>) -> Seq<DecodedMessage>
    decreases bytes.len(),
{
    match decode_step(bytes) {
        Some((n, m)) => seq![m] + stream_messages(bytes.skip(n)),
        None => Seq::<DecodedMessage>::empty(),
    }
}

/// The undecodable tail of `bytes`: what is left once every whole message
/// has been taken from the front.
pub open spec fn stream_rest(bytes: Seq<u8>) -> Seq<u8>
    decreases bytes.len(),
{
    match decode_step(bytes) {
        Some((n, m)) => stream_rest(bytes.skip(n)),
        None => bytes,
    }
}

/// The concatenation of a sequence of byte chunks.
pub open spec fn concat_chunks(chunks: Seq<Seq<u8>>) -> Seq<u8>
    decreases chunks.len(),
{
    if chunks.len() == 0 {
        Seq::<u8>::empty()
    } else {
        chunks[0] + concat_chunks(chunks.skip(1))
    }
}

/// All messages produced when chunks are fed in order into a reassembler
/// whose pending bytes start as `pending`: exactly what repeated calls of
/// `FrameReassembler::feed` return.
pub open spec fn fed_messages(pending: Seq<u8>, chunks: Seq<Seq<u8>>) -> Seq<DecodedMessage>
    decreases chunks.len(),
{
    if chunks.len() == 0 {
        Seq::<DecodedMessage>::empty()
    } else {
        stream_messages(pending + chunks[0]) + fed_messages(
            stream_rest(pending + chunks[0]),
            chunks.skip(1),
        )
    }
}

/// The pending bytes after chunks are fed in order, starting from `pending`.
pub open spec fn fed_rest(pending: Seq<u8>, chunks: Seq<Seq<u8>>) -> Seq<u8>
    decreases chunks.len(),
{
    if chunks.len() == 0 {
        pending
    } else {
        fed_rest(stream_rest(pending + chunks[0]), chunks.skip(1))
    }
}

/// The decode contract this engine leans on: a successful parse of the
/// front of a buffer is not disturbed by bytes that arrive later.
pub open spec fn decoder_prefix_stable() -> bool {
    forall|bytes: Seq<u8>, ext: Seq<u8>|
        decode_step(bytes) is Some ==> #[trigger] decode_step(bytes + ext) == decode_step(bytes)
}

/// After greedy decoding nothing more can be taken from the tail.
proof fn lemma_rest_starved(bytes: Seq<u8>)
    ensures
        decode_step(stream_rest(bytes)) is None,
    decreases bytes.len(),
{
    match decode_step(bytes) {
        Some((n, m)) => {
            lemma_rest_starved(bytes.skip(n));
        }
        None => {
        }
    }
}

/// Greedy decoding commutes with appending bytes: decoding `a`, then
/// decoding its tail extended by `b`, yields the same messages and the same
/// final tail as decoding `a + b` at once.
proof fn lemma_stream_extend(a: Seq<u8>, b: Seq<u8>)
    requires
        decoder_prefix_stable(),
    ensures
        stream_messages(a + b) == stream_messages(a) + stream_messages(stream_rest(a) + b),
        stream_rest(a + b) == stream_rest(stream_rest(a) + b),
    decreases a.len(),
{
    match decode_step(a) {
        Some((n, m)) => {
            assert(decode_step(a + b) == decode_step(a));
            assert((a + b).skip(n) =~= a.skip(n) + b);
            lemma_stream_extend(a.skip(n), b);
            assert(stream_messages(a + b) =~= stream_messages(a) + stream_messages(
                stream_rest(a) + b,
            ));
        }
        None => {
            assert(stream_messages(a + b) =~= stream_messages(a) + stream_messages(
                stream_rest(a) + b,
            ));
        }
    }
}

/// Reassembly completeness: however a byte stream is split into chunks,
/// feeding the chunks in order yields exactly the messages of the whole
/// stream — none merged, dropped, or duplicated — and leaves exactly its
/// undecodable tail pending. Holds whenever the pending bytes are starved
/// (as `feed` always leaves them) and the decode contract is prefix-stable.
pub proof fn lemma_reassembly_completeness(pending: Seq<u8>, chunks: Seq<Seq<u8>>)
    ensures
        (decoder_prefix_stable() && decode_step(pending) is None) ==> {
            &&& fed_messages(pending, chunks) == stream_messages(pending + concat_chunks(chunks))
            &&& fed_rest(pending, chunks) == stream_rest(pending + concat_chunks(chunks))
        },
    decreases chunks.len(),
{
    if decoder_prefix_stable() && decode_step(pending) is None {
        if chunks.len() == 0 {
            assert(pending + concat_chunks(chunks) =~= pending);
        } else {
            let c0 = chunks[0];
            let tail = concat_chunks(chunks.skip(1));
            lemma_rest_starved(pending + c0);
            lemma_reassembly_completeness(stream_rest(pending + c0), chunks.skip(1));
            lemma_stream_extend(pending + c0, tail);
            assert((pending + c0) + tail =~= pending + concat_chunks(chunks));
        }
    }
}

/// Reassembly completeness from a fresh engine: a reassembler that starts
/// empty — as after construction or a reset — and is fed any chunking of a
/// byte stream yields exactly the messages of the whole stream.
pub proof fn lemma_reassembly_from_start(chunks: Seq<Seq<u8>>)
    ensures
        decoder_prefix_stable() ==> {
            &&& fed_messages(Seq::<u8>::empty(), chunks) == stream_messages(concat_chunks(chunks))
            &&& fed_rest(Seq::<u8>::empty(), chunks) == stream_rest(concat_chunks(chunks))
        },
{
    lemma_reassembly_completeness(Seq::<u8>::empty(), chunks);
    assert(Seq::<u8>::empty() + concat_chunks(chunks) =~= concat_chunks(chunks));
}

/// Copy of `v` without its first `n` elements.
fn vec_suffix(v: &Vec<u8>, n: usize) -> (r: Vec<u8>)
    requires
        n <= v.len(),
    ensures
        r@ == v@.skip(n as int),
{
    let mut r: Vec<u8> = Vec::new();
    let mut i: usize = n;
    while i < v.len()
        invariant
            n <= i <= v.len(),
            r@ == v@.subrange(n as int, i as int),
        decreases v.len() - i,
    {
        r.push(v[i]);
        proof {
            assert(r@ =~= v@.subrange(n as int, (i + 1) as int));
        }
        i = i + 1;
    }
    proof {
        assert(r@ =~= v@.skip(n as int));
    }
    r
}

/// Single consumer of tapped chunks. Its pending bytes are always either
/// empty or the starved tail of the stream seen since the last reset.
pub struct FrameReassembler {
    buf: Vec<u8>,
}

impl FrameReassembler {
    /// Bytes accepted but not yet decoded.
    pub closed spec fn pending(self) -> Seq<u8> {
        self.buf@
    }

    pub fn new() -> (r: Self)
        ensures
            r.pending() == Seq::<u8>::empty(),
    {
        FrameReassembler { buf: Vec::new() }
    }

    /// Accept one chunk: on a reset, first discard all pending bytes so a
    /// dead session's bytes can never splice with the new session's; then
    /// append the chunk's bytes and decode messages until starved.
    pub fn feed(&mut self, chunk: &RawChunk) -> (msgs: Vec<DecodedMessage>)
        ensures
            ({
                let combined = if chunk.is_reset {
                    chunk.data@
                } else {
                    old(self).pending() + chunk.data@
                };
                &&& msgs@ == stream_messages(combined)
                &&& final(self).pending() == stream_rest(combined)
            }),
            chunk.is_reset ==> msgs@ == stream_messages(chunk.data@) && final(self).pending()
                == stream_rest(chunk.data@),
            decode_step(final(self).pending()) is None,
    {
        if chunk.is_reset {
            self.buf.clear();
        }
        let ghost base = self.buf@;
        let mut i: usize = 0;
        while i < chunk.data.len()
            invariant
                i <= chunk.data.len(),
                self.buf@ == base + chunk.data@.take(i as int),
            decreases chunk.data.len() - i,
        {
            self.buf.push(chunk.data[i]);
            proof {
                assert(self.buf@ =~= base + chunk.data@.take((i + 1) as int));
            }
            i = i + 1;
        }
        let ghost combined = self.buf@;
        proof {
            assert(combined =~= base + chunk.data@);
        }
        let mut msgs: Vec<DecodedMessage> = Vec::new();
        loop
            invariant
                stream_messages(combined) == msgs@ + stream_messages(self.buf@),
                stream_rest(combined) == stream_rest(self.buf@),
            ensures
                decode_step(self.buf@) is None,
                stream_messages(combined) == msgs@ + stream_messages(self.buf@),
                stream_rest(combined) == stream_rest(self.buf@),
            decreases self.buf@.len(),
        {
            match read_frame(&self.buf) {
                Some((n, id, payload)) => {
                    let m = classify_frame(id, &payload);
                    proof {
                        assert(decode_step(self.buf@) == Some((n as int, m)));
                    }
                    let ghost prev = self.buf@;
                    let ghost prev_msgs = msgs@;
                    msgs.push(m);
                    let tail = vec_suffix(&self.buf, n);
                    self.buf = tail;
                    proof {
                        assert(stream_messages(prev) == seq![m] + stream_messages(self.buf@));
                        assert(prev_msgs + stream_messages(prev) =~= msgs@ + stream_messages(
                            self.buf@,
                        ));
                    }
                }
                None => {
                    break;
                }
            }
        }
        proof {
            assert(msgs@ =~= msgs@ + stream_messages(self.buf@));
        }
        msgs
    }
}

} // verus!
