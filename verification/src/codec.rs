//! The framing codec: messages to bytes and back, over buffers that may
//! hold less or more than one frame.

pub use crate::header::{parse_header, FramingError, LspHeader};

use crate::frame::{find_header_end, frame, frame_step, scan_block, write_frame_header, Step};
use crate::round_trip::lemma_frame_round_trip;
use crate::trusted::{
    contents, decode_body, decoded_body, describe, encode_body, encoded_body, extend_from_slice,
    held, lossy_text, split_to, text_of,
};
use bytes::BytesMut;
use tokio_jsonrpc::{Message, Parsed};
use vstd::prelude::*;
use vstd::slice::{slice_subrange, slice_to_vec};
use vstd::utf8::{decode_utf8, valid_utf8};

verus! {

/// Why the codec could not write or read a message.
#[derive(Debug)]
pub enum CodecError {
    /// The header block is no valid one: what is wrong with it, and the
    /// line that is wrong, as it stands in the block. Where a line is
    /// missing, `line` is empty.
    Framing { error: FramingError, line: Vec<u8> },
    /// The error of the body codec, as the body codec gave it.
    Body(std::io::Error),
}

impl CodecError {
    /// A description of the error for people: for a header line, the
    /// description of what is wrong, with the line as text; for the body
    /// codec, what its error displays. A line that is no UTF-8 is shown as
    /// far as it can be.
    pub fn message(&self) -> (text: String)
        ensures
            self matches CodecError::Framing { error, line } ==> {
                &&& text@ == error.text(lossy_text(line@))
                &&& valid_utf8(line@) ==> text@ == error.text(decode_utf8(line@))
            },
    {
        match self {
            CodecError::Framing { error, line } => {
                let line = text_of(line.as_slice());
                error.message(line.as_str())
            },
            CodecError::Body(error) => describe(error),
        }
    }
}

/// What `decode` owes for a buffer that held `before`: the result `r` and
/// the bytes `after` that it leaves in the buffer.
pub open spec fn decoded(
    before: Seq<u8>,
    after: Seq<u8>,
    r: Result<Option<Parsed>, CodecError>,
) -> bool {
    match frame_step(before) {
        Step::NeedMore => r == Ok::<Option<Parsed>, CodecError>(None) && after == before,
        Step::Fatal { error, line, consumed } => {
            &&& r matches Err(CodecError::Framing { error: found, line: shown })
            &&& found == error
            &&& shown@ == line
            &&& after == before.skip(consumed)
        },
        Step::Frame { body, consumed } => r == Ok::<Option<Parsed>, CodecError>(
            decoded_body(body),
        ) && after == before.skip(consumed),
    }
}

/// Encoding, then decoding: where the buffer holds the frame of `body`
/// and, after it, `more`, `decode` returns what the body codec reads from
/// `body` and leaves `more` in the buffer.
pub proof fn lemma_decode_of_encoded(
    body: Seq<u8>,
    more: Seq<u8>,
    after: Seq<u8>,
    r: Result<Option<Parsed>, CodecError>,
)
    requires
        body.len() <= usize::MAX,
        decoded(frame(body) + more, after, r),
    ensures
        r == Ok::<Option<Parsed>, CodecError>(decoded_body(body)),
        after == more,
{
    lemma_frame_round_trip(body, more);
    assert((frame(body) + more).skip(frame(body).len() as int) =~= more);
}

/// A codec working with framed messages.
///
/// It adds and strips the header block; the body is left to the boundary
/// codec of the JSON-RPC crate.
pub struct LspCodec;

impl LspCodec {
    /// Appends the frame of `msg` to `buf`. A message that the body codec
    /// cannot serialize leaves `buf` as it was, and the error of the body
    /// codec is handed on.
    pub fn encode(&mut self, msg: Message, buf: &mut BytesMut) -> (r: Result<(), CodecError>)
        ensures
            match encoded_body(msg) {
                Ok(body) => {
                    &&& r is Ok
                    &&& body.len() <= usize::MAX
                    &&& held(*final(buf)) == held(*old(buf)) + frame(body)
                },
                Err(error) => {
                    &&& r matches Err(CodecError::Body(handed))
                    &&& handed == error
                    &&& held(*final(buf)) == held(*old(buf))
                },
            },
    {
        let body = match encode_body(msg) {
            Ok(body) => body,
            Err(error) => {
                return Err(CodecError::Body(error));
            },
        };
        let header = write_frame_header(body.len());
        extend_from_slice(buf, header.as_slice());
        extend_from_slice(buf, body.as_slice());
        assert(held(*buf) =~= held(*old(buf)) + frame(body@));
        Ok(())
    }

    /// Takes the first frame off `src` and hands its body to the body
    /// codec.
    ///
    /// While the header block or the body is incomplete the result is
    /// `Ok(None)` and `src` is untouched. A header block that is no valid
    /// one is consumed and reported. Otherwise header block and body are
    /// consumed, what follows them stays in `src`, and the result is what
    /// the body codec reads from the body.
    pub fn decode(&mut self, src: &mut BytesMut) -> (r: Result<Option<Parsed>, CodecError>)
        ensures
            decoded(held(*old(src)), held(*final(src)), r),
    {
        let text = contents(src);
        let end = match find_header_end(text) {
            None => {
                return Ok(None);
            },
            Some(end) => end,
        };
        let length = match scan_block(text, end) {
            Err(bad) => {
                let line = slice_to_vec(slice_subrange(text, bad.from, bad.to));
                let _ = split_to(src, end);
                return Err(CodecError::Framing { error: bad.error, line });
            },
            Ok(length) => length,
        };
        if text.len() - end < length {
            return Ok(None);
        }
        let _ = split_to(src, end);
        let mut body = split_to(src, length);
        proof {
            let before = held(*old(src));
            assert(before.skip(end as int).take(length as int) =~= before.subrange(
                end as int,
                end + length,
            ));
            assert(before.skip(end as int).skip(length as int) =~= before.skip(end + length));
        }
        match decode_body(&mut body) {
            Ok(parsed) => Ok(parsed),
            Err(error) => Err(CodecError::Body(error)),
        }
    }
}

} // verus!
