//! What a frame is: a header block of lines that ends with a blank line,
//! then exactly as many bytes of body as the block announces.

use crate::header::{
    lemma_blank_line_is_malformed, parse_line, parse_range, FramingError, LspHeader,
};
use crate::text::{ascii, decimal, is_blank, trim_bounds, write_decimal, CR, LF};
use crate::trusted::is_text;
use vstd::prelude::*;
use vstd::slice::slice_subrange;
use vstd::utf8::valid_utf8;
use vstd::string::*;

verus! {

/// Whether the bytes before index `end` close a header block: they end
/// with a line feed and an empty line. The empty line ends with a line
/// feed of its own, with or without a carriage return before it.
pub open spec fn blank_line_before(buf: Seq<u8>, end: int) -> bool {
    ||| 2 <= end <= buf.len() && buf[end - 2] == LF && buf[end - 1] == LF
    ||| 3 <= end <= buf.len() && buf[end - 3] == LF && buf[end - 2] == CR && buf[end - 1] == LF
}

/// The first index at or after `from` before which a header block closes.
pub open spec fn header_end_from(buf: Seq<u8>, from: int) -> Option<int>
    decreases buf.len() + 1 - from,
{
    if from > buf.len() {
        None
    } else if blank_line_before(buf, from) {
        Some(from)
    } else {
        header_end_from(buf, from + 1)
    }
}

/// Where the first header block of `buf` ends, if `buf` holds a whole one.
pub open spec fn header_end(buf: Seq<u8>) -> Option<int> {
    header_end_from(buf, 0)
}

/// The length of the first line of `s`, its line feed not counted.
pub open spec fn line_len(s: Seq<u8>) -> nat
    decreases s.len(),
{
    if s.len() == 0 || s.first() == LF {
        0
    } else {
        1 + line_len(s.drop_first())
    }
}

/// The lines of a header block, each as it stands in the block: the block
/// is cut in front of every line feed, so that every line but the first
/// starts with the line feed that ended the line before it. The line feed
/// is white space and does not change what a line says.
pub open spec fn split_lines(s: Seq<u8>) -> Seq<Seq<u8>>
    decreases s.len(),
    via split_lines_decreases
{
    if s.len() == 0 {
        Seq::empty()
    } else {
        let n = 1 + line_len(s.drop_first());
        seq![s.take(n as int)] + split_lines(s.skip(n as int))
    }
}

#[via_fn]
proof fn split_lines_decreases(s: Seq<u8>) {
    if s.len() > 0 {
        lemma_line_len_bound(s.drop_first());
    }
}

/// A line is no longer than the text that it is the first line of.
pub proof fn lemma_line_len_bound(s: Seq<u8>)
    ensures
        line_len(s) <= s.len(),
    decreases s.len(),
{
    if s.len() > 0 && s.first() != LF {
        lemma_line_len_bound(s.drop_first());
    }
}

/// A header line that the codec refuses, and why. Where a line is missing
/// there is none to show.
pub struct Refused {
    pub error: FramingError,
    pub line: Seq<u8>,
}

/// The body length that header lines announce, read first to last. Every
/// line must be UTF-8 text. Blank lines are passed over; the first line
/// that is no text or no header ends the scan with its error; of several
/// length headers the last one counts. `found` is the length seen so far.
pub open spec fn scan_lines(lines: Seq<Seq<u8>>, found: Option<usize>) -> Result<
    Option<usize>,
    Refused,
>
    decreases lines.len(),
{
    if lines.len() == 0 {
        Ok(found)
    } else if !valid_utf8(lines.first()) {
        Err(Refused { error: FramingError::InvalidText, line: lines.first() })
    } else if is_blank(lines.first()) {
        scan_lines(lines.drop_first(), found)
    } else {
        match parse_line(lines.first()) {
            Err(error) => Err(Refused { error, line: lines.first() }),
            Ok(LspHeader::ContentLength(n)) => scan_lines(lines.drop_first(), Some(n)),
            Ok(LspHeader::ContentType) => scan_lines(lines.drop_first(), found),
        }
    }
}

/// The body length that a header block announces.
pub open spec fn block_length(block: Seq<u8>) -> Result<usize, Refused> {
    match scan_lines(split_lines(block), None) {
        Err(refused) => Err(refused),
        Ok(None) => Err(
            Refused { error: FramingError::MissingContentLength, line: Seq::empty() },
        ),
        Ok(Some(n)) => Ok(n),
    }
}

/// What the front of a buffer holds.
pub enum Step {
    /// No whole frame yet: the header block, or the body, is incomplete.
    NeedMore,
    /// A header block of `consumed` bytes that is no valid header block:
    /// what is wrong with it, and the line that is wrong.
    Fatal { error: FramingError, line: Seq<u8>, consumed: int },
    /// A whole frame of `consumed` bytes, with this body.
    Frame { body: Seq<u8>, consumed: int },
}

/// Takes one frame off the front of a buffer.
pub open spec fn frame_step(buf: Seq<u8>) -> Step {
    match header_end(buf) {
        None => Step::NeedMore,
        Some(end) => match block_length(buf.take(end)) {
            Err(refused) => Step::Fatal {
                error: refused.error,
                line: refused.line,
                consumed: end,
            },
            Ok(n) => if buf.len() - end < n {
                Step::NeedMore
            } else {
                Step::Frame { body: buf.subrange(end, end + n), consumed: end + n }
            },
        },
    }
}

/// The header block that announces a body of `n` bytes.
pub open spec fn frame_header(n: nat) -> Seq<u8> {
    ascii("Content-Length: "@) + decimal(n) + ascii("\r\n\r\n"@)
}

/// A frame around `body`.
pub open spec fn frame(body: Seq<u8>) -> Seq<u8> {
    frame_header(body.len()) + body
}

/// Finds the end of the first header block of `text`.
pub fn find_header_end(text: &[u8]) -> (r: Option<usize>)
    ensures
        match r {
            None => header_end(text@) is None,
            Some(end) => 2 <= end <= text@.len() && header_end(text@) == Some(end as int),
        },
{
    let mut end: usize = 0;
    while end < text.len()
        invariant
            end <= text@.len(),
            header_end(text@) == header_end_from(text@, end as int),
            !blank_line_before(text@, end as int),
        decreases text@.len() - end,
    {
        end += 1;
        let bare = end >= 2 && text[end - 2] == LF && text[end - 1] == LF;
        let with_cr = end >= 3 && text[end - 3] == LF && text[end - 2] == CR && text[end - 1]
            == LF;
        if bare || with_cr {
            return Some(end);
        }
    }
    assert(header_end_from(text@, end + 1) is None);
    None
}

/// A header line that the codec refuses: why, and where the line stands.
pub struct BadLine {
    pub error: FramingError,
    pub from: usize,
    pub to: usize,
}

/// Reads the header block `text[..end]`.
pub fn scan_block(text: &[u8], end: usize) -> (r: Result<usize, BadLine>)
    requires
        end <= text@.len(),
    ensures
        match r {
            Ok(n) => block_length(text@.take(end as int)) == Ok::<usize, Refused>(n),
            Err(bad) => bad.from <= bad.to <= end && block_length(text@.take(end as int)) == Err::<
                usize,
                Refused,
            >(Refused { error: bad.error, line: text@.subrange(bad.from as int, bad.to as int) }),
        },
{
    let ghost block = text@.take(end as int);
    let mut found: Option<usize> = None;
    let mut pos: usize = 0;
    assert(block.skip(0) =~= block);
    while pos < end
        invariant
            pos <= end <= text@.len(),
            block == text@.take(end as int),
            scan_lines(split_lines(block), None) == scan_lines(
                split_lines(block.skip(pos as int)),
                found,
            ),
        decreases end - pos,
    {
        let mut stop = pos + 1;
        while stop < end && text[stop] != LF
            invariant
                pos < stop <= end <= text@.len(),
                forall|j: int| pos < j < stop ==> text@[j] != LF,
            decreases end - stop,
        {
            stop += 1;
        }
        let ghost tail = block.skip(pos as int);
        let ghost line = text@.subrange(pos as int, stop as int);
        proof {
            lemma_line_len(tail.drop_first(), stop - pos - 1);
            assert(tail.take(stop - pos) =~= line);
            assert(tail.skip(stop - pos) =~= block.skip(stop as int));
            assert(split_lines(tail).first() == line);
            assert(split_lines(tail).drop_first() =~= split_lines(block.skip(stop as int)));
        }
        if !is_text(slice_subrange(text, pos, stop)) {
            return Err(BadLine { error: FramingError::InvalidText, from: pos, to: stop });
        }
        let (lo, hi) = trim_bounds(text, pos, stop);
        if lo < hi {
            match parse_range(text, pos, stop) {
                Err(error) => {
                    return Err(BadLine { error, from: pos, to: stop });
                },
                Ok(LspHeader::ContentLength(n)) => {
                    found = Some(n);
                },
                Ok(LspHeader::ContentType) => {},
            }
        }
        pos = stop;
    }
    assert(block.skip(pos as int) =~= Seq::<u8>::empty());
    assert(text@.subrange(0, 0) =~= Seq::<u8>::empty());
    match found {
        None => Err(BadLine { error: FramingError::MissingContentLength, from: 0, to: 0 }),
        Some(n) => Ok(n),
    }
}

/// Writes the header block that announces a body of `n` bytes.
pub fn write_frame_header(n: usize) -> (r: Vec<u8>)
    ensures
        r@ == frame_header(n as nat),
{
    let name = "Content-Length: ";
    let blank = "\r\n\r\n";
    proof {
        reveal_strlit("Content-Length: ");
        reveal_strlit("\r\n\r\n");
        is_ascii_spec_bytes(name);
        is_ascii_spec_bytes(blank);
    }
    let mut header = name.as_bytes_vec();
    let mut digits = write_decimal(n);
    header.append(&mut digits);
    let mut closing = blank.as_bytes_vec();
    header.append(&mut closing);
    header
}

/// Where a search for the end of the header block succeeds, it finds the
/// first index that closes one.
pub proof fn lemma_header_end_found(buf: Seq<u8>, from: int)
    requires
        0 <= from,
        header_end_from(buf, from) is Some,
    ensures
        from <= header_end_from(buf, from)->0 <= buf.len(),
        2 <= header_end_from(buf, from)->0,
        blank_line_before(buf, header_end_from(buf, from)->0),
        forall|k: int| from <= k < header_end_from(buf, from)->0 ==> !blank_line_before(buf, k),
    decreases buf.len() + 1 - from,
{
    if from <= buf.len() && !blank_line_before(buf, from) {
        lemma_header_end_found(buf, from + 1);
    }
}

/// The first index that closes a header block is what the search finds.
pub proof fn lemma_header_end_first(buf: Seq<u8>, from: int, end: int)
    requires
        0 <= from <= end <= buf.len(),
        blank_line_before(buf, end),
        forall|k: int| from <= k < end ==> !blank_line_before(buf, k),
    ensures
        header_end_from(buf, from) == Some(end),
    decreases end - from,
{
    if from < end {
        lemma_header_end_first(buf, from + 1, end);
    }
}

/// `line_len` is the index of the first line feed, or the whole length.
pub proof fn lemma_line_len(s: Seq<u8>, n: int)
    requires
        0 <= n <= s.len(),
        forall|j: int| 0 <= j < n ==> s[j] != LF,
        n == s.len() || s[n] == LF,
    ensures
        line_len(s) == n,
    decreases n,
{
    if n > 0 {
        lemma_line_len(s.drop_first(), n - 1);
    }
}

/// The lines of the first header block of `buf`.
pub open spec fn header_lines(buf: Seq<u8>) -> Seq<Seq<u8>> {
    split_lines(buf.take(header_end(buf)->0))
}

/// Whether a line is a length header.
pub open spec fn announces_length(line: Seq<u8>) -> bool {
    valid_utf8(line) && !is_blank(line) && parse_line(line) matches Ok(
        LspHeader::ContentLength(_),
    )
}

/// Whether a line is there and is no header that the codec takes: it is
/// no text, or it is malformed, or names a header that the codec does not
/// know, or has a value that the codec refuses.
pub open spec fn is_no_header(line: Seq<u8>) -> bool {
    !valid_utf8(line) || (!is_blank(line) && parse_line(line) is Err)
}

/// Lines without a length header leave the length as it was, unless one
/// of them is in error.
pub proof fn lemma_scan_without_length(lines: Seq<Seq<u8>>, found: Option<usize>)
    requires
        forall|i: int| 0 <= i < lines.len() ==> !announces_length(#[trigger] lines[i]),
    ensures
        scan_lines(lines, found) is Err || scan_lines(lines, found) == Ok::<
            Option<usize>,
            Refused,
        >(found),
    decreases lines.len(),
{
    if lines.len() > 0 {
        let rest = lines.drop_first();
        assert forall|i: int| 0 <= i < rest.len() implies !announces_length(
            #[trigger] rest[i],
        ) by {}
        lemma_scan_without_length(rest, found);
    }
}

/// One line that is no header puts the whole scan in error.
pub proof fn lemma_scan_with_bad_line(lines: Seq<Seq<u8>>, found: Option<usize>, at: int)
    requires
        0 <= at < lines.len(),
        is_no_header(lines[at]),
    ensures
        scan_lines(lines, found) is Err,
    decreases lines.len(),
{
    if at > 0 {
        let rest = lines.drop_first();
        if !valid_utf8(lines[0]) {
        } else if is_blank(lines[0]) {
            lemma_scan_with_bad_line(rest, found, at - 1);
        } else {
            match parse_line(lines[0]) {
                Err(_) => {},
                Ok(LspHeader::ContentLength(n)) => {
                    lemma_scan_with_bad_line(rest, Some(n), at - 1);
                },
                Ok(LspHeader::ContentType) => {
                    lemma_scan_with_bad_line(rest, found, at - 1);
                },
            }
        }
    }
}

/// A header block without a length header is a framing error, whatever
/// follows the block: the buffer is never taken to need more data.
pub proof fn lemma_missing_length_is_fatal(buf: Seq<u8>)
    requires
        header_end(buf) is Some,
        forall|i: int|
            0 <= i < header_lines(buf).len() ==> !announces_length(#[trigger] header_lines(buf)[i]),
    ensures
        frame_step(buf) is Fatal,
{
    lemma_scan_without_length(header_lines(buf), None);
}

/// A header block with a line that is no header is a framing error.
pub proof fn lemma_bad_header_is_fatal(buf: Seq<u8>, at: int)
    requires
        header_end(buf) is Some,
        0 <= at < header_lines(buf).len(),
        is_no_header(header_lines(buf)[at]),
    ensures
        frame_step(buf) is Fatal,
{
    lemma_scan_with_bad_line(header_lines(buf), None, at);
}

/// A header block with a line that names a header unknown to the codec is
/// a framing error.
pub proof fn lemma_unknown_header_is_fatal(buf: Seq<u8>, at: int)
    requires
        header_end(buf) is Some,
        0 <= at < header_lines(buf).len(),
        parse_line(header_lines(buf)[at]) == Err::<LspHeader, FramingError>(
            FramingError::UnknownHeader,
        ),
    ensures
        frame_step(buf) is Fatal,
{
    if valid_utf8(header_lines(buf)[at]) && is_blank(header_lines(buf)[at]) {
        lemma_blank_line_is_malformed(header_lines(buf)[at]);
    }
    lemma_bad_header_is_fatal(buf, at);
}

} // verus!
