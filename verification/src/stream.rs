//! A byte stream as a run of frames, and why it does not matter in what
//! chunks the stream arrives.

use crate::frame::{
    blank_line_before, block_length, frame_step, header_end, header_end_from,
    lemma_header_end_first, lemma_header_end_found, Refused, Step,
};
use vstd::prelude::*;

verus! {

/// What decoding comes to: the bodies of the frames, in order; the bytes
/// that are left waiting for more; and the error that ended the stream, if
/// one did. Nothing is left waiting after an error.
pub struct Decoded {
    pub bodies: Seq<Seq<u8>>,
    pub rest: Seq<u8>,
    pub error: Option<Refused>,
}

/// Takes frames off the front of a buffer until it holds no whole frame, or
/// a header block that is no valid one.
pub open spec fn decode_all(buf: Seq<u8>) -> Decoded
    decreases buf.len(),
    via decode_all_decreases
{
    match frame_step(buf) {
        Step::NeedMore => Decoded { bodies: Seq::empty(), rest: buf, error: None },
        Step::Fatal { error, line, consumed } => Decoded {
            bodies: Seq::empty(),
            rest: Seq::empty(),
            error: Some(Refused { error, line }),
        },
        Step::Frame { body, consumed } => {
            let then = decode_all(buf.skip(consumed));
            Decoded { bodies: seq![body] + then.bodies, rest: then.rest, error: then.error }
        },
    }
}

#[via_fn]
proof fn decode_all_decreases(buf: Seq<u8>) {
    if let Step::Frame { body, consumed } = frame_step(buf) {
        lemma_header_end_found(buf, 0);
    }
}

/// Goes on decoding after more bytes have arrived.
pub open spec fn resume(so_far: Decoded, more: Seq<u8>) -> Decoded {
    if so_far.error is Some {
        so_far
    } else {
        let then = decode_all(so_far.rest + more);
        Decoded { bodies: so_far.bodies + then.bodies, rest: then.rest, error: then.error }
    }
}

/// Decodes a stream that arrives in chunks: each chunk is appended to what
/// was left waiting, and the buffer is decoded as far as it goes.
pub open spec fn decode_chunks(pending: Seq<u8>, chunks: Seq<Seq<u8>>) -> Decoded
    decreases chunks.len(),
{
    if chunks.len() == 0 {
        Decoded { bodies: Seq::empty(), rest: pending, error: None }
    } else {
        let first = decode_all(pending + chunks.first());
        if first.error is Some {
            first
        } else {
            let then = decode_chunks(first.rest, chunks.drop_first());
            Decoded { bodies: first.bodies + then.bodies, rest: then.rest, error: then.error }
        }
    }
}

/// A frame at the front of a buffer stays what it is when more bytes
/// arrive, and so does a header block that is no valid one.
pub proof fn lemma_frame_step_prefix(buf: Seq<u8>, more: Seq<u8>)
    requires
        !(frame_step(buf) is NeedMore),
    ensures
        frame_step(buf + more) == frame_step(buf),
{
    let end = header_end(buf)->0;
    let all = buf + more;
    lemma_header_end_found(buf, 0);
    assert forall|k: int| 0 <= k <= end implies blank_line_before(all, k) == blank_line_before(
        buf,
        k,
    ) by {}
    lemma_header_end_first(all, 0, end);
    assert(all.take(end) =~= buf.take(end));
    if let Ok(n) = block_length(buf.take(end)) {
        assert(all.subrange(end, end + n) =~= buf.subrange(end, end + n));
    }
}

/// Decoding a buffer at once, or part of it first and then the whole,
/// comes to the same.
pub proof fn lemma_resume(buf: Seq<u8>, more: Seq<u8>)
    ensures
        decode_all(buf + more) == resume(decode_all(buf), more),
    decreases buf.len(),
{
    match frame_step(buf) {
        Step::NeedMore => {},
        Step::Fatal { error, line, consumed } => {
            lemma_frame_step_prefix(buf, more);
        },
        Step::Frame { body, consumed } => {
            lemma_frame_step_prefix(buf, more);
            lemma_header_end_found(buf, 0);
            let tail = buf.skip(consumed);
            assert((buf + more).skip(consumed) =~= tail + more);
            lemma_resume(tail, more);
            let first = decode_all(tail);
            if first.error is None {
                let then = decode_all(first.rest + more);
                assert(seq![body] + (first.bodies + then.bodies) =~= (seq![body] + first.bodies)
                    + then.bodies);
            }
        },
    }
}

/// What decoding leaves waiting holds no whole frame.
pub proof fn lemma_rest_needs_more(buf: Seq<u8>)
    ensures
        frame_step(decode_all(buf).rest) is NeedMore,
    decreases buf.len(),
{
    match frame_step(buf) {
        Step::NeedMore => {},
        Step::Fatal { error, line, consumed } => {
            assert(header_end_from(Seq::<u8>::empty(), 1) is None);
        },
        Step::Frame { body, consumed } => {
            lemma_header_end_found(buf, 0);
            lemma_rest_needs_more(buf.skip(consumed));
        },
    }
}

/// Decoding does not depend on where the stream is cut into chunks: the
/// chunks, decoded one after the other as they arrive, give the frames,
/// the rest and the error that the whole stream gives when it is decoded
/// at once.
pub proof fn lemma_chunk_invariance(chunks: Seq<Seq<u8>>)
    ensures
        decode_chunks(Seq::empty(), chunks) == decode_all(chunks.flatten()),
{
    assert(header_end_from(Seq::<u8>::empty(), 1) is None);
    lemma_chunks_from(Seq::empty(), chunks);
}

/// Chunk invariance, from a buffer that already holds part of a frame.
pub proof fn lemma_chunks_from(pending: Seq<u8>, chunks: Seq<Seq<u8>>)
    requires
        frame_step(pending) is NeedMore,
    ensures
        decode_chunks(pending, chunks) == decode_all(pending + chunks.flatten()),
    decreases chunks.len(),
{
    if chunks.len() > 0 {
        let head = chunks.first();
        let tail = chunks.drop_first();
        let first = decode_all(pending + head);
        assert(pending + chunks.flatten() =~= (pending + head) + tail.flatten());
        lemma_resume(pending + head, tail.flatten());
        if first.error is None {
            lemma_rest_needs_more(pending + head);
            lemma_chunks_from(first.rest, tail);
        }
    }
}

} // verus!
