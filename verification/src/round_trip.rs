//! Encoding, then decoding: a frame that the codec wrote is read back as
//! the body that went into it.

use crate::frame::{
    blank_line_before, block_length, frame, frame_header, frame_step, lemma_header_end_first,
    lemma_line_len, scan_lines, split_lines, Refused, Step,
};
use crate::header::{
    content_length_name, lemma_sep_needs_colon, parse_line, sep_at, sep_from,
    FramingError, LspHeader,
};
use crate::text::{
    all_digits, ascii, decimal, is_blank, is_space, lemma_decimal_round_trip,
    lemma_decimal_value, lowered, space_at_start, trim, trim_end, trim_start, COLON, CR, LF,
};
use vstd::prelude::*;
use vstd::utf8::{partial_valid_utf8, partial_valid_utf8_extend_ascii_block, valid_utf8};

verus! {

/// The first separator at or after `from` is what the search finds.
proof fn lemma_sep_first(s: Seq<u8>, from: int, at: int)
    requires
        0 <= from <= at,
        sep_at(s, at),
        forall|j: int| from <= j < at ==> !sep_at(s, j),
    ensures
        sep_from(s, from) == Some(at),
    decreases at - from,
{
    if from < at {
        lemma_sep_first(s, from + 1, at);
    }
}

/// The line that announces a body of `n` bytes, as the codec writes it.
spec fn length_line(n: nat) -> Seq<u8> {
    ascii("Content-Length: "@) + decimal(n) + seq![CR]
}

/// Trimming takes the carriage return off the digits and nothing else.
proof fn lemma_trim_digits(digits: Seq<u8>)
    requires
        digits.len() > 0,
        all_digits(digits),
    ensures
        trim(digits + seq![CR]) == digits,
{
    let s = digits + seq![CR];
    assert(s.drop_last() =~= digits);
    assert(trim_end(digits) == digits);
}

/// The codec reads its own length line.
proof fn lemma_length_line(n: nat)
    requires
        n <= usize::MAX,
    ensures
        !is_blank(length_line(n)),
        parse_line(length_line(n)) == Ok::<LspHeader, FramingError>(
            LspHeader::ContentLength(n as usize),
        ),
        forall|j: int| 0 <= j < length_line(n).len() ==> length_line(n)[j] != LF,
        forall|j: int| 0 <= j < length_line(n).len() - 1 ==> length_line(n)[j] != CR,
        forall|j: int| 0 <= j < length_line(n).len() ==> #[trigger] length_line(n)[j] < 0x80,
        length_line(n).len() >= 18,
{
    reveal_strlit("Content-Length: ");
    reveal_strlit("content-length");
    reveal_strlit("content-type");
    lemma_decimal_value(n);
    lemma_decimal_round_trip(n);
    let name = ascii("Content-Length: "@);
    let digits = decimal(n);
    let line = length_line(n);
    assert forall|j: int| 0 <= j < line.len() implies line[j] != LF && (j < line.len() - 1
        ==> line[j] != CR) && (j != 14 ==> line[j] != COLON) by {}
    lemma_sep_first(line, 0, 14);
    let head = line.take(14);
    assert(lowered(head) =~= content_length_name());
    let rest = line.skip(16);
    assert(rest =~= digits + seq![CR]);
    assert forall|j: int| 0 <= j < rest.len() implies rest[j] != COLON by {}
    lemma_sep_needs_colon(rest, 0);
    lemma_trim_digits(digits);
    assert(lowered(digits) =~= digits);
    assert(line.drop_last() =~= name + digits);
    assert(trim_end(name + digits) == name + digits);
}

/// A text of white space of one byte each is blank.
proof fn lemma_spaces_are_blank(s: Seq<u8>)
    requires
        forall|j: int| 0 <= j < s.len() ==> is_space(#[trigger] s[j]),
    ensures
        trim_start(s) == Seq::<u8>::empty(),
        is_blank(s),
    decreases s.len(),
{
    if s.len() > 0 {
        assert(is_space(s[0]));
        assert(space_at_start(s) == 1);
        let rest = s.skip(1);
        assert forall|j: int| 0 <= j < rest.len() implies is_space(#[trigger] rest[j]) by {
            assert(rest[j] == s[j + 1]);
        }
        lemma_spaces_are_blank(rest);
    }
    assert(trim_end(Seq::<u8>::empty()) == Seq::<u8>::empty());
}

/// The header block that the codec writes has three lines: the length
/// line, and two that are blank.
proof fn lemma_frame_header_lines(n: nat)
    requires
        n <= usize::MAX,
    ensures
        split_lines(frame_header(n)) == seq![length_line(n), seq![LF, CR], seq![LF]],
        frame_header(n).len() == length_line(n).len() + 3,
        forall|k: int| 0 <= k < frame_header(n).len() ==> !blank_line_before(frame_header(n), k),
        blank_line_before(frame_header(n), frame_header(n).len() as int),
{
    reveal_strlit("\r\n\r\n");
    lemma_length_line(n);
    let line = length_line(n);
    let header = frame_header(n);
    assert(header =~= line + seq![LF, CR, LF]);
    let at = line.len() as int;
    assert forall|j: int| 0 <= j < at - 1 implies header.drop_first()[j] != LF by {
        assert(header.drop_first()[j] == line[j + 1]);
    }
    assert(header.drop_first()[at - 1] == header[at]);
    lemma_line_len(header.drop_first(), at - 1);
    assert(header.take(at) =~= line);
    let second = header.skip(at);
    assert(second =~= seq![LF, CR, LF]);
    assert(second.drop_first() =~= seq![CR, LF]);
    lemma_line_len(second.drop_first(), 1);
    assert(second.take(2) =~= seq![LF, CR]);
    let third = second.skip(2);
    assert(third =~= seq![LF]);
    assert(third.drop_first() =~= Seq::<u8>::empty());
    lemma_line_len(third.drop_first(), 0);
    assert(third.take(1) =~= seq![LF]);
    assert(third.skip(1) =~= Seq::<u8>::empty());
    assert(split_lines(third.skip(1)) =~= Seq::<Seq<u8>>::empty());
    assert(split_lines(third) =~= seq![seq![LF]]);
    assert(split_lines(second) =~= seq![seq![LF, CR], seq![LF]]);
    assert(split_lines(header) =~= seq![line, seq![LF, CR], seq![LF]]);
    assert forall|k: int| 0 <= k < header.len() implies !blank_line_before(header, k) by {
        if 2 <= k <= at {
            assert(header[k - 1] == line[k - 1]);
        } else if k == at + 1 {
            assert(header[k - 2] == line[at - 1]);
        }
    }
}

/// ASCII text is UTF-8.
proof fn lemma_ascii_is_text(s: Seq<u8>)
    requires
        forall|j: int| 0 <= j < s.len() ==> #[trigger] s[j] < 0x80,
    ensures
        valid_utf8(s),
{
    assert(s.subrange(0, 0) =~= Seq::<u8>::empty());
    assert(partial_valid_utf8(s, 0));
    partial_valid_utf8_extend_ascii_block(s, 0, s.len() as int);
    assert(s.subrange(0, s.len() as int) =~= s);
}

/// The lines of that header block announce the length and nothing else.
proof fn lemma_frame_header_length(n: nat)
    requires
        n <= usize::MAX,
    ensures
        block_length(frame_header(n)) == Ok::<usize, Refused>(n as usize),
{
    lemma_frame_header_lines(n);
    lemma_length_line(n);
    let found = Some(n as usize);
    let second = seq![LF, CR];
    let third = seq![LF];
    let lines = seq![length_line(n), second, third];
    lemma_spaces_are_blank(second);
    lemma_spaces_are_blank(third);
    lemma_ascii_is_text(second);
    lemma_ascii_is_text(third);
    lemma_ascii_is_text(length_line(n));
    let after_first = lines.drop_first();
    assert(after_first =~= seq![second, third]);
    let after_second = after_first.drop_first();
    assert(after_second =~= seq![third]);
    assert(after_second.drop_first() =~= Seq::<Seq<u8>>::empty());
    assert(scan_lines(after_second.drop_first(), found) == Ok::<Option<usize>, Refused>(found));
    assert(scan_lines(after_second, found) == Ok::<Option<usize>, Refused>(found));
    assert(scan_lines(after_first, found) == Ok::<Option<usize>, Refused>(found));
    assert(scan_lines(lines, None) == Ok::<Option<usize>, Refused>(found));
}

/// Encoding, then decoding: the frame of a body, with whatever follows it,
/// is read back as that body, and the frame is all that is consumed.
pub proof fn lemma_frame_round_trip(body: Seq<u8>, more: Seq<u8>)
    requires
        body.len() <= usize::MAX,
    ensures
        frame_step(frame(body) + more) == (Step::Frame {
            body,
            consumed: frame(body).len() as int,
        }),
{
    let n = body.len();
    let header = frame_header(n);
    let buf = frame(body) + more;
    let end = header.len() as int;
    lemma_frame_header_lines(n);
    lemma_frame_header_length(n);
    assert forall|k: int| 0 <= k <= end implies blank_line_before(buf, k) == blank_line_before(
        header,
        k,
    ) by {}
    lemma_header_end_first(buf, 0, end);
    assert(buf.take(end) =~= header);
    assert(buf.subrange(end, end + n) =~= body);
}

} // verus!
