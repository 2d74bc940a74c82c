//! The header lines of a frame: `name: value`, with the name matched
//! without regard to case.

use crate::text::{
    ascii, digit_run, lemma_digit_run_reaches, ends_with, equals_lowered, is_blank, is_digit,
    lemma_blank_is_space,
    lowered, parse_decimal, read_decimal, NumberError, space_at_end, space_at_start, trim, trim_bounds, trim_end,
    trim_start, COLON, PLUS, SPACE,
};
use vstd::prelude::*;
use vstd::string::*;

verus! {

/// A message header that the codec recognizes.
#[derive(Debug, Clone, Copy, PartialEq, Eq, Structural)]
pub enum LspHeader {
    /// The body is UTF-8 text.
    ContentType,
    /// The body is this many bytes long.
    ContentLength(usize),
}

/// What is wrong with a header line, or with a header block. Every one of
/// these is fatal to the connection.
#[derive(Debug, Clone, Copy, PartialEq, Eq, Structural)]
pub enum FramingError {
    /// A header line is not of the form `name: value`.
    MalformedHeader,
    /// A header line has a name that the codec does not know.
    UnknownHeader,
    /// The value of the length header is no decimal number that fits the
    /// machine word.
    InvalidLength(NumberError),
    /// The content type is something other than UTF-8.
    UnsupportedContentType,
    /// The header block ended without a length header.
    MissingContentLength,
    /// A header line is no UTF-8 text.
    InvalidText,
}

impl FramingError {
    /// The description of the error, for the line that it was found in.
    pub open spec fn text(self, line: Seq<char>) -> Seq<char> {
        match self {
            FramingError::MalformedHeader => "malformed header: "@ + line,
            FramingError::UnknownHeader => "Unknown header: "@ + line,
            FramingError::InvalidLength(error) => error.text(),
            FramingError::UnsupportedContentType => "Unsupported content type: "@ + line,
            FramingError::MissingContentLength => "Malformed header, missing Content-Length"@,
            FramingError::InvalidText => "stream did not contain valid UTF-8"@,
        }
    }

    /// A description of the error for people. `line` is the line that the
    /// error was found in.
    pub fn message(&self, line: &str) -> (text: String)
        ensures
            text@ == self.text(line@),
    {
        match self {
            FramingError::MalformedHeader => String::from_str("malformed header: ").concat(line),
            FramingError::UnknownHeader => String::from_str("Unknown header: ").concat(line),
            FramingError::InvalidLength(error) => error.message(),
            FramingError::UnsupportedContentType => String::from_str(
                "Unsupported content type: ",
            ).concat(line),
            FramingError::MissingContentLength => String::from_str(
                "Malformed header, missing Content-Length",
            ),
            FramingError::InvalidText => String::from_str("stream did not contain valid UTF-8"),
        }
    }
}

/// The name of the length header, in lower case.
pub open spec fn content_length_name() -> Seq<u8> {
    ascii("content-length"@)
}

/// The name of the content type header, in lower case.
pub open spec fn content_type_name() -> Seq<u8> {
    ascii("content-type"@)
}

/// Whether a content type, trimmed and in lower case, denotes UTF-8: the
/// bare name of the encoding, or any media type whose last parameter is
/// that charset. Both spellings of the name are taken.
pub open spec fn denotes_utf8(value: Seq<u8>) -> bool {
    ||| value == ascii("utf-8"@)
    ||| value == ascii("utf8"@)
    ||| ends_with(value, ascii("charset=utf-8"@))
    ||| ends_with(value, ascii("charset=utf8"@))
}

/// Whether the separator of name and value, a colon and a space, stands at
/// index `i`.
pub open spec fn sep_at(s: Seq<u8>, i: int) -> bool {
    0 <= i && i + 1 < s.len() && s[i] == COLON && s[i + 1] == SPACE
}

/// The index of the first separator at or after `from`.
pub open spec fn sep_from(s: Seq<u8>, from: int) -> Option<int>
    decreases s.len() - from,
{
    if from < 0 || from + 1 >= s.len() {
        None
    } else if sep_at(s, from) {
        Some(from)
    } else {
        sep_from(s, from + 1)
    }
}

/// What a header line says. The line is cut at each separator; there must
/// be exactly two parts, and each is trimmed and put in lower case. The
/// first part names the header, the second is its value.
pub open spec fn parse_line(line: Seq<u8>) -> Result<LspHeader, FramingError> {
    match sep_from(line, 0) {
        None => Err(FramingError::MalformedHeader),
        Some(i) => {
            let name = lowered(trim(line.take(i)));
            let rest = line.skip(i + 2);
            let value = lowered(trim(rest));
            if sep_from(rest, 0) is Some {
                Err(FramingError::MalformedHeader)
            } else if name == content_type_name() {
                if denotes_utf8(value) {
                    Ok(LspHeader::ContentType)
                } else {
                    Err(FramingError::UnsupportedContentType)
                }
            } else if name == content_length_name() {
                match parse_decimal(value) {
                    Ok(n) => Ok(LspHeader::ContentLength(n)),
                    Err(error) => Err(FramingError::InvalidLength(error)),
                }
            } else {
                Err(FramingError::UnknownHeader)
            }
        },
    }
}

/// Lower case leaves a separator where it is.
pub proof fn lemma_sep_lowered(s: Seq<u8>, from: int)
    ensures
        sep_from(lowered(s), from) == sep_from(s, from),
    decreases s.len() - from,
{
    if 0 <= from && from + 1 < s.len() && !sep_at(s, from) {
        lemma_sep_lowered(s, from + 1);
    }
}

/// Lower case leaves the digits that a text starts with as they are.
pub proof fn lemma_digit_run_lowered(s: Seq<u8>)
    ensures
        digit_run(lowered(s)) == digit_run(s),
        lowered(s).take(digit_run(s) as int) == s.take(digit_run(s) as int),
    decreases s.len(),
{
    lemma_digit_run_reaches(s, 0);
    if s.len() > 0 && is_digit(s.first()) {
        assert(lowered(s).drop_first() =~= lowered(s.drop_first()));
        lemma_digit_run_lowered(s.drop_first());
    }
    assert(lowered(s).take(digit_run(s) as int) =~= s.take(digit_run(s) as int));
}

/// Lower case leaves decimal digits, and the number they stand for, as
/// they are.
pub proof fn lemma_decimal_lowered(s: Seq<u8>)
    ensures
        parse_decimal(lowered(s)) == parse_decimal(s),
{
    if s.len() > 0 {
        if s[0] == PLUS {
            assert(lowered(s).drop_first() =~= lowered(s.drop_first()));
            lemma_digit_run_lowered(s.drop_first());
        } else {
            lemma_digit_run_lowered(s);
        }
    }
}

/// White space stays white space in lower case, so trimming and lower
/// case can be done in either order.
pub proof fn lemma_trim_start_lowered(s: Seq<u8>)
    ensures
        trim_start(lowered(s)) == lowered(trim_start(s)),
    decreases s.len(),
{
    let n = space_at_start(s) as int;
    assert(space_at_start(lowered(s)) == n);
    if n > 0 {
        assert(lowered(s).skip(n) =~= lowered(s.skip(n)));
        lemma_trim_start_lowered(s.skip(n));
    }
}

/// As `lemma_trim_start_lowered`, for the other end.
pub proof fn lemma_trim_end_lowered(s: Seq<u8>)
    ensures
        trim_end(lowered(s)) == lowered(trim_end(s)),
    decreases s.len(),
{
    let n = space_at_end(s) as int;
    assert(space_at_end(lowered(s)) == n);
    if n > 0 {
        assert(lowered(s).take(s.len() - n) =~= lowered(s.take(s.len() - n)));
        lemma_trim_end_lowered(s.take(s.len() - n));
    }
}

/// A part of a line, trimmed and in lower case, is the same whether or not
/// the line was in lower case already.
pub proof fn lemma_part_lowered(s: Seq<u8>)
    ensures
        lowered(trim(lowered(s))) == lowered(trim(s)),
{
    lemma_trim_start_lowered(s);
    lemma_trim_end_lowered(trim_start(s));
}

/// A line says what its lower-case form says.
pub proof fn lemma_parse_line_lowered(line: Seq<u8>)
    ensures
        parse_line(lowered(line)) == parse_line(line),
{
    lemma_sep_lowered(line, 0);
    if let Some(i) = sep_from(line, 0) {
        lemma_sep_found(line, 0);
        assert(lowered(line).take(i) =~= lowered(line.take(i)));
        assert(lowered(line).skip(i + 2) =~= lowered(line.skip(i + 2)));
        lemma_part_lowered(line.take(i));
        lemma_part_lowered(line.skip(i + 2));
        lemma_sep_lowered(line.skip(i + 2), 0);
    }
}

/// Header lines are read without regard to case: two lines that differ
/// only in the case of their letters say the same.
pub proof fn lemma_header_case_insensitive(a: Seq<u8>, b: Seq<u8>)
    requires
        lowered(a) == lowered(b),
    ensures
        parse_line(a) == parse_line(b),
{
    lemma_parse_line_lowered(a);
    lemma_parse_line_lowered(b);
}

/// Where a separator is found, it is within the line.
pub proof fn lemma_sep_found(s: Seq<u8>, from: int)
    requires
        0 <= from,
        sep_from(s, from) is Some,
    ensures
        from <= sep_from(s, from)->0,
        sep_at(s, sep_from(s, from)->0),
    decreases s.len() - from,
{
    if !sep_at(s, from) {
        lemma_sep_found(s, from + 1);
    }
}

/// A text without a colon has no separator.
pub proof fn lemma_sep_needs_colon(s: Seq<u8>, from: int)
    requires
        0 <= from,
        forall|j: int| 0 <= j < s.len() ==> s[j] != COLON,
    ensures
        sep_from(s, from) is None,
    decreases s.len() - from,
{
    if from + 1 < s.len() {
        lemma_sep_needs_colon(s, from + 1);
    }
}

/// A blank line has no separator, so it is malformed when it is read as a
/// header. A line that is read as anything else is therefore not blank.
pub proof fn lemma_blank_line_is_malformed(line: Seq<u8>)
    requires
        is_blank(line),
    ensures
        parse_line(line) == Err::<LspHeader, FramingError>(FramingError::MalformedHeader),
{
    lemma_blank_is_space(line);
    lemma_sep_needs_colon(line, 0);
}

/// The index of the first separator in `text[from..to]`.
fn find_sep(text: &[u8], from: usize, to: usize) -> (r: Option<usize>)
    requires
        from <= to <= text@.len(),
    ensures
        match r {
            None => sep_from(text@.subrange(from as int, to as int), 0) is None,
            Some(at) => from <= at && at + 2 <= to && sep_from(
                text@.subrange(from as int, to as int),
                0,
            ) == Some(at - from),
        },
{
    let ghost line = text@.subrange(from as int, to as int);
    let mut i = from;
    while to - i >= 2
        invariant
            from <= i <= to <= text@.len(),
            line == text@.subrange(from as int, to as int),
            sep_from(line, 0) == sep_from(line, i - from),
        decreases to - i,
    {
        if text[i] == COLON && text[i + 1] == SPACE {
            return Some(i);
        }
        i += 1;
    }
    None
}

/// Whether `text[from..to]`, in lower case, is the ASCII text `word`.
fn is_word(text: &[u8], from: usize, to: usize, word: &str) -> (r: bool)
    requires
        from <= to <= text@.len(),
        word.is_ascii(),
    ensures
        r == (lowered(text@.subrange(from as int, to as int)) == ascii(word@)),
{
    proof {
        is_ascii_spec_bytes(word);
    }
    equals_lowered(text, from, to, word.as_bytes())
}

/// Whether `text[from..to]`, in lower case, ends with the ASCII text `word`.
fn has_suffix(text: &[u8], from: usize, to: usize, word: &str) -> (r: bool)
    requires
        from <= to <= text@.len(),
        word.is_ascii(),
    ensures
        r == ends_with(lowered(text@.subrange(from as int, to as int)), ascii(word@)),
{
    proof {
        is_ascii_spec_bytes(word);
    }
    let suffix = word.as_bytes();
    if to - from < suffix.len() {
        return false;
    }
    let start = to - suffix.len();
    let ghost part = lowered(text@.subrange(from as int, to as int));
    assert(part.subrange(part.len() - suffix@.len(), part.len() as int) =~= lowered(
        text@.subrange(start as int, to as int),
    ));
    equals_lowered(text, start, to, suffix)
}

/// Whether the content type in `text[from..to]` denotes UTF-8.
fn names_utf8(text: &[u8], from: usize, to: usize) -> (r: bool)
    requires
        from <= to <= text@.len(),
    ensures
        r == denotes_utf8(lowered(text@.subrange(from as int, to as int))),
{
    proof {
        reveal_strlit("utf-8");
        reveal_strlit("utf8");
        reveal_strlit("charset=utf-8");
        reveal_strlit("charset=utf8");
    }
    is_word(text, from, to, "utf-8") || is_word(text, from, to, "utf8") || has_suffix(
        text,
        from,
        to,
        "charset=utf-8",
    ) || has_suffix(text, from, to, "charset=utf8")
}

/// Reads the header line in `text[from..to]`.
pub fn parse_range(text: &[u8], from: usize, to: usize) -> (r: Result<LspHeader, FramingError>)
    requires
        from <= to <= text@.len(),
    ensures
        r == parse_line(text@.subrange(from as int, to as int)),
{
    let ghost line = text@.subrange(from as int, to as int);
    let sep = match find_sep(text, from, to) {
        None => {
            return Err(FramingError::MalformedHeader);
        },
        Some(sep) => sep,
    };
    let ghost rest = line.skip(sep - from + 2);
    assert(line.take(sep - from) =~= text@.subrange(from as int, sep as int));
    assert(rest =~= text@.subrange(sep + 2, to as int));
    if find_sep(text, sep + 2, to).is_some() {
        return Err(FramingError::MalformedHeader);
    }
    let (name_lo, name_hi) = trim_bounds(text, from, sep);
    let (value_lo, value_hi) = trim_bounds(text, sep + 2, to);
    proof {
        reveal_strlit("content-type");
        reveal_strlit("content-length");
        lemma_decimal_lowered(trim(rest));
    }
    if is_word(text, name_lo, name_hi, "content-type") {
        if names_utf8(text, value_lo, value_hi) {
            Ok(LspHeader::ContentType)
        } else {
            Err(FramingError::UnsupportedContentType)
        }
    } else if is_word(text, name_lo, name_hi, "content-length") {
        match read_decimal(text, value_lo, value_hi) {
            Ok(n) => Ok(LspHeader::ContentLength(n)),
            Err(error) => Err(FramingError::InvalidLength(error)),
        }
    } else {
        Err(FramingError::UnknownHeader)
    }
}

/// Given a header line, extracts and validates its name and value.
pub fn parse_header(s: &str) -> (r: Result<LspHeader, FramingError>)
    ensures
        r == parse_line(s.spec_bytes()),
{
    let text = s.as_bytes();
    assert(text@.subrange(0, text@.len() as int) =~= text@);
    parse_range(text, 0, text.len())
}

} // verus!
