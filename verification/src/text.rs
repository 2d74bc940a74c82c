//! Byte-level text helpers: white space, case folding and decimal numbers.
//!
//! Header text is handled as bytes throughout. White space is the white
//! space of Unicode, each character in its UTF-8 form; only ASCII letters
//! have case.

use vstd::prelude::*;
use vstd::string::*;

verus! {

/// Horizontal tab, the first of the white-space control characters.
pub const TAB: u8 = 0x09;

/// Line feed.
pub const LF: u8 = 0x0a;

/// Carriage return, the last of the white-space control characters.
pub const CR: u8 = 0x0d;

/// Space.
pub const SPACE: u8 = 0x20;

/// The plus sign.
pub const PLUS: u8 = 0x2b;

/// The digit zero.
pub const ZERO: u8 = 0x30;

/// The digit nine.
pub const NINE: u8 = 0x39;

/// The colon.
pub const COLON: u8 = 0x3a;

/// The letter A in upper case.
pub const UPPER_A: u8 = 0x41;

/// The letter Z in upper case.
pub const UPPER_Z: u8 = 0x5a;

/// The bytes of a text whose characters are all ASCII.
pub open spec fn ascii(s: Seq<char>) -> Seq<u8> {
    Seq::new(s.len(), |i: int| s[i] as u8)
}

/// The white space of one byte: tab, line feed, vertical tab, form feed,
/// carriage return and space.
pub open spec fn is_space(b: u8) -> bool {
    (TAB <= b <= CR) || b == SPACE
}

/// The white space of two bytes: next line (U+0085) and no-break space
/// (U+00A0).
pub open spec fn is_space_of_two(a: u8, b: u8) -> bool {
    a == 0xc2 && (b == 0x85 || b == 0xa0)
}

/// The white space of three bytes: U+1680, U+2000 to U+200A, U+2028,
/// U+2029, U+202F, U+205F and U+3000.
pub open spec fn is_space_of_three(a: u8, b: u8, c: u8) -> bool {
    ||| a == 0xe1 && b == 0x9a && c == 0x80
    ||| a == 0xe2 && b == 0x80 && (0x80 <= c <= 0x8a || c == 0xa8 || c == 0xa9 || c == 0xaf)
    ||| a == 0xe2 && b == 0x81 && c == 0x9f
    ||| a == 0xe3 && b == 0x80 && c == 0x80
}

/// The length in bytes of the white-space character that `s` starts with,
/// or zero where it starts with none.
pub open spec fn space_at_start(s: Seq<u8>) -> nat {
    if s.len() >= 1 && is_space(s[0]) {
        1
    } else if s.len() >= 2 && is_space_of_two(s[0], s[1]) {
        2
    } else if s.len() >= 3 && is_space_of_three(s[0], s[1], s[2]) {
        3
    } else {
        0
    }
}

/// The length in bytes of the white-space character that `s` ends with,
/// or zero where it ends with none.
pub open spec fn space_at_end(s: Seq<u8>) -> nat {
    if s.len() >= 1 && is_space(s[s.len() - 1]) {
        1
    } else if s.len() >= 2 && is_space_of_two(s[s.len() - 2], s[s.len() - 1]) {
        2
    } else if s.len() >= 3 && is_space_of_three(s[s.len() - 3], s[s.len() - 2], s[s.len() - 1]) {
        3
    } else {
        0
    }
}

/// Whether a byte can be part of white space: it is white space itself, or
/// it is outside ASCII.
pub open spec fn is_space_part(b: u8) -> bool {
    is_space(b) || b >= 0x80
}

/// The lower-case form of an ASCII letter; every other byte is unchanged.
pub open spec fn lower(b: u8) -> u8 {
    if UPPER_A <= b <= UPPER_Z {
        (b + 0x20) as u8
    } else {
        b
    }
}

/// A text with each byte in lower case.
pub open spec fn lowered(s: Seq<u8>) -> Seq<u8> {
    Seq::new(s.len(), |i: int| lower(s[i]))
}

/// A text without its leading white space.
pub open spec fn trim_start(s: Seq<u8>) -> Seq<u8>
    decreases s.len(),
{
    if space_at_start(s) > 0 {
        trim_start(s.skip(space_at_start(s) as int))
    } else {
        s
    }
}

/// A text without its trailing white space.
pub open spec fn trim_end(s: Seq<u8>) -> Seq<u8>
    decreases s.len(),
{
    if space_at_end(s) > 0 {
        trim_end(s.take(s.len() - space_at_end(s)))
    } else {
        s
    }
}

/// A text without white space at either end.
pub open spec fn trim(s: Seq<u8>) -> Seq<u8> {
    trim_end(trim_start(s))
}

/// A text is blank when nothing is left of it after trimming.
pub open spec fn is_blank(s: Seq<u8>) -> bool {
    trim(s).len() == 0
}

/// Whether `s` ends with `word`.
pub open spec fn ends_with(s: Seq<u8>, word: Seq<u8>) -> bool {
    s.len() >= word.len() && s.subrange(s.len() - word.len(), s.len() as int) == word
}

/// Whether a byte is a decimal digit.
pub open spec fn is_digit(b: u8) -> bool {
    ZERO <= b <= NINE
}

/// Whether a text holds decimal digits and nothing else.
pub open spec fn all_digits(s: Seq<u8>) -> bool {
    forall|i: int| 0 <= i < s.len() ==> is_digit(#[trigger] s[i])
}

/// The number that a decimal digit stands for; zero for any other byte.
pub open spec fn digit_value(b: u8) -> nat {
    if is_digit(b) {
        (b - ZERO) as nat
    } else {
        0
    }
}

/// The number that a run of decimal digits stands for, most significant
/// digit first.
pub open spec fn digits_value(s: Seq<u8>) -> nat
    decreases s.len(),
{
    if s.len() == 0 {
        0
    } else {
        digits_value(s.drop_last()) * 10 + digit_value(s.last())
    }
}

/// Why a text is no decimal number.
#[derive(Debug, Clone, Copy, PartialEq, Eq, Structural)]
pub enum NumberError {
    /// The text is empty.
    Empty,
    /// The text holds something other than digits after its sign, or
    /// nothing at all.
    InvalidDigit,
    /// The number does not fit the machine word.
    TooLarge,
}

impl NumberError {
    /// The description of the error.
    pub open spec fn text(self) -> Seq<char> {
        match self {
            NumberError::Empty => "cannot parse integer from empty string"@,
            NumberError::InvalidDigit => "invalid digit found in string"@,
            NumberError::TooLarge => "number too large to fit in target type"@,
        }
    }

    /// A description of the error for people.
    pub fn message(&self) -> (text: String)
        ensures
            text@ == self.text(),
    {
        match self {
            NumberError::Empty => String::from_str("cannot parse integer from empty string"),
            NumberError::InvalidDigit => String::from_str("invalid digit found in string"),
            NumberError::TooLarge => String::from_str("number too large to fit in target type"),
        }
    }
}

/// How many digits a text starts with.
pub open spec fn digit_run(s: Seq<u8>) -> nat
    decreases s.len(),
{
    if s.len() > 0 && is_digit(s.first()) {
        1 + digit_run(s.drop_first())
    } else {
        0
    }
}

/// The number that the digits of a text stand for. The text is read from
/// the left: the digits it starts with must fit the machine word, and
/// nothing may follow them. A text that starts with no digit is in error
/// for that.
pub open spec fn digits_number(digits: Seq<u8>) -> Result<usize, NumberError> {
    let run = digits.take(digit_run(digits) as int);
    if digits_value(run) > usize::MAX {
        Err(NumberError::TooLarge)
    } else if run.len() < digits.len() || digits.len() == 0 {
        Err(NumberError::InvalidDigit)
    } else {
        Ok(digits_value(run) as usize)
    }
}

/// The number that a decimal text stands for: an optional plus sign, then
/// the digits.
pub open spec fn parse_decimal(s: Seq<u8>) -> Result<usize, NumberError> {
    if s.len() == 0 {
        Err(NumberError::Empty)
    } else if s[0] == PLUS {
        digits_number(s.drop_first())
    } else {
        digits_number(s)
    }
}

/// The decimal text of a number, without sign or leading zeros.
pub open spec fn decimal(n: nat) -> Seq<u8>
    decreases n,
{
    if n < 10 {
        seq![(ZERO + n) as u8]
    } else {
        decimal(n / 10).push((ZERO + n % 10) as u8)
    }
}

/// Whether a byte is white space of one byte.
pub fn is_space_byte(b: u8) -> (r: bool)
    ensures
        r == is_space(b),
{
    (TAB <= b && b <= CR) || b == SPACE
}

/// The lower-case form of a byte.
pub fn to_lower(b: u8) -> (r: u8)
    ensures
        r == lower(b),
{
    if UPPER_A <= b && b <= UPPER_Z {
        b + 0x20
    } else {
        b
    }
}

/// The length of the white-space character that `text[from..to]` starts
/// with, or zero.
pub fn leading_space(text: &[u8], from: usize, to: usize) -> (n: usize)
    requires
        from <= to <= text@.len(),
    ensures
        n == space_at_start(text@.subrange(from as int, to as int)),
        n <= to - from,
{
    let len = to - from;
    if len >= 1 && is_space_byte(text[from]) {
        1
    } else if len >= 2 && text[from] == 0xc2 && (text[from + 1] == 0x85 || text[from + 1]
        == 0xa0) {
        2
    } else if len >= 3 && wide_space(text[from], text[from + 1], text[from + 2]) {
        3
    } else {
        0
    }
}

/// The length of the white-space character that `text[from..to]` ends
/// with, or zero.
pub fn trailing_space(text: &[u8], from: usize, to: usize) -> (n: usize)
    requires
        from <= to <= text@.len(),
    ensures
        n == space_at_end(text@.subrange(from as int, to as int)),
        n <= to - from,
{
    let len = to - from;
    if len >= 1 && is_space_byte(text[to - 1]) {
        1
    } else if len >= 2 && text[to - 2] == 0xc2 && (text[to - 1] == 0x85 || text[to - 1]
        == 0xa0) {
        2
    } else if len >= 3 && wide_space(text[to - 3], text[to - 2], text[to - 1]) {
        3
    } else {
        0
    }
}

/// Whether three bytes are white space of three bytes.
fn wide_space(a: u8, b: u8, c: u8) -> (r: bool)
    ensures
        r == is_space_of_three(a, b, c),
{
    (a == 0xe1 && b == 0x9a && c == 0x80) || (a == 0xe2 && b == 0x80 && ((0x80 <= c && c
        <= 0x8a) || c == 0xa8 || c == 0xa9 || c == 0xaf)) || (a == 0xe2 && b == 0x81 && c
        == 0x9f) || (a == 0xe3 && b == 0x80 && c == 0x80)
}

/// The bounds of `text[from..to]` without the white space at its ends.
pub fn trim_bounds(text: &[u8], from: usize, to: usize) -> (r: (usize, usize))
    requires
        from <= to <= text@.len(),
    ensures
        from <= r.0 <= r.1 <= to,
        text@.subrange(r.0 as int, r.1 as int) == trim(text@.subrange(from as int, to as int)),
{
    let mut lo = from;
    loop
        invariant
            from <= lo <= to <= text@.len(),
            trim_start(text@.subrange(from as int, to as int)) == trim_start(
                text@.subrange(lo as int, to as int),
            ),
        ensures
            from <= lo <= to,
            trim_start(text@.subrange(from as int, to as int)) == text@.subrange(
                lo as int,
                to as int,
            ),
        decreases to - lo,
    {
        let n = leading_space(text, lo, to);
        if n == 0 {
            break;
        }
        assert(text@.subrange(lo as int, to as int).skip(n as int) =~= text@.subrange(
            lo + n,
            to as int,
        ));
        lo += n;
    }
    let mut hi = to;
    loop
        invariant
            lo <= hi <= to <= text@.len(),
            trim_end(text@.subrange(lo as int, to as int)) == trim_end(
                text@.subrange(lo as int, hi as int),
            ),
        ensures
            lo <= hi <= to,
            trim_end(text@.subrange(lo as int, to as int)) == text@.subrange(
                lo as int,
                hi as int,
            ),
        decreases hi - lo,
    {
        let n = trailing_space(text, lo, hi);
        if n == 0 {
            break;
        }
        assert(text@.subrange(lo as int, hi as int).take(hi - lo - n) =~= text@.subrange(
            lo as int,
            hi - n,
        ));
        hi -= n;
    }
    (lo, hi)
}

/// Whether `text[from..to]`, in lower case, is `word`.
pub fn equals_lowered(text: &[u8], from: usize, to: usize, word: &[u8]) -> (r: bool)
    requires
        from <= to <= text@.len(),
    ensures
        r == (lowered(text@.subrange(from as int, to as int)) == word@),
{
    let ghost part = text@.subrange(from as int, to as int);
    if to - from != word.len() {
        return false;
    }
    let mut i: usize = 0;
    while i < word.len()
        invariant
            from <= to <= text@.len(),
            to - from == word@.len(),
            i <= word@.len(),
            part == text@.subrange(from as int, to as int),
            forall|j: int| 0 <= j < i ==> lower(part[j]) == word@[j],
        decreases word@.len() - i,
    {
        if to_lower(text[from + i]) != word[i] {
            return false;
        }
        i += 1;
    }
    assert(lowered(part) =~= word@);
    true
}

/// Trimming the start takes nothing but white space away.
pub proof fn lemma_trim_start_cut(s: Seq<u8>) -> (k: int)
    ensures
        0 <= k <= s.len(),
        trim_start(s) == s.skip(k),
        forall|i: int| 0 <= i < k ==> is_space_part(s[i]),
    decreases s.len(),
{
    let n = space_at_start(s) as int;
    if n > 0 {
        let k = lemma_trim_start_cut(s.skip(n));
        assert(s.skip(n).skip(k) =~= s.skip(n + k));
        assert forall|i: int| 0 <= i < n + k implies is_space_part(s[i]) by {
            if i >= n {
                assert(s[i] == s.skip(n)[i - n]);
            }
        }
        n + k
    } else {
        assert(s.skip(0) =~= s);
        0
    }
}

/// Trimming the end takes nothing but white space away.
pub proof fn lemma_trim_end_cut(s: Seq<u8>) -> (k: int)
    ensures
        0 <= k <= s.len(),
        trim_end(s) == s.take(k),
        forall|i: int| k <= i < s.len() ==> is_space_part(s[i]),
    decreases s.len(),
{
    let n = space_at_end(s) as int;
    if n > 0 {
        let rest = s.take(s.len() - n);
        let k = lemma_trim_end_cut(rest);
        assert(rest.take(k) =~= s.take(k));
        assert forall|i: int| k <= i < s.len() implies is_space_part(s[i]) by {
            if i < s.len() - n {
                assert(s[i] == rest[i]);
            }
        }
        k
    } else {
        assert(s.take(s.len() as int) =~= s);
        s.len() as int
    }
}

/// A blank text is white space from end to end.
pub proof fn lemma_blank_is_space(s: Seq<u8>)
    requires
        is_blank(s),
    ensures
        forall|i: int| 0 <= i < s.len() ==> is_space_part(s[i]),
{
    let from = lemma_trim_start_cut(s);
    let to = lemma_trim_end_cut(s.skip(from));
    assert(s.skip(from).take(to).len() == to);
    assert forall|i: int| 0 <= i < s.len() implies is_space_part(s[i]) by {
        if i >= from {
            assert(s[i] == s.skip(from)[i - from]);
        }
    }
}

/// Whether two byte strings are the same.
pub fn same_bytes(a: &[u8], b: &[u8]) -> (r: bool)
    ensures
        r == (a@ == b@),
{
    if a.len() != b.len() {
        return false;
    }
    let mut i: usize = 0;
    while i < a.len()
        invariant
            a@.len() == b@.len(),
            i <= a@.len(),
            forall|j: int| 0 <= j < i ==> a@[j] == b@[j],
        decreases a@.len() - i,
    {
        if a[i] != b[i] {
            return false;
        }
        i += 1;
    }
    assert(a@ =~= b@);
    true
}

/// `digits_value` never shrinks when digits are appended.
pub proof fn lemma_digits_value_prefix(s: Seq<u8>, k: int)
    requires
        0 <= k <= s.len(),
    ensures
        digits_value(s.take(k)) <= digits_value(s),
    decreases s.len(),
{
    if k == s.len() {
        assert(s.take(k) =~= s);
    } else {
        assert(s.drop_last().take(k) =~= s.take(k));
        lemma_digits_value_prefix(s.drop_last(), k);
    }
}

/// A text starts with as many digits as stand in front of its first byte
/// that is no digit.
pub proof fn lemma_digit_run(s: Seq<u8>, n: int)
    requires
        0 <= n <= s.len(),
        forall|j: int| 0 <= j < n ==> is_digit(#[trigger] s[j]),
        n == s.len() || !is_digit(s[n]),
    ensures
        digit_run(s) == n,
    decreases n,
{
    if n > 0 {
        assert(is_digit(s[0]));
        lemma_digit_run(s.drop_first(), n - 1);
    }
}

/// A text starts with at least as many digits as it is known to start
/// with.
pub proof fn lemma_digit_run_reaches(s: Seq<u8>, n: int)
    requires
        0 <= n <= s.len(),
        forall|j: int| 0 <= j < n ==> is_digit(#[trigger] s[j]),
    ensures
        n <= digit_run(s) <= s.len(),
        forall|j: int| 0 <= j < digit_run(s) ==> is_digit(#[trigger] s[j]),
    decreases s.len(),
{
    if s.len() > 0 && is_digit(s.first()) {
        let rest = s.drop_first();
        let m = if n > 0 {
            n - 1
        } else {
            0
        };
        lemma_digit_run_reaches(rest, m);
        assert forall|j: int| 0 <= j < digit_run(s) implies is_digit(#[trigger] s[j]) by {
            if j > 0 {
                assert(s[j] == rest[j - 1]);
            }
        }
    } else if n > 0 {
        assert(is_digit(s[0]));
    }
}

/// Reads `text[from..to]` as a run of decimal digits.
pub fn read_digits(text: &[u8], from: usize, to: usize) -> (r: Result<usize, NumberError>)
    requires
        from <= to <= text@.len(),
    ensures
        r == digits_number(text@.subrange(from as int, to as int)),
{
    let ghost digits = text@.subrange(from as int, to as int);
    let mut value: usize = 0;
    let mut i = from;
    while i < to
        invariant
            from <= i <= to <= text@.len(),
            digits == text@.subrange(from as int, to as int),
            all_digits(digits.take(i - from)),
            value == digits_value(digits.take(i - from)),
        decreases to - i,
    {
        let b = text[i];
        let ghost seen = digits.take(i - from + 1);
        assert(seen.drop_last() =~= digits.take(i - from));
        assert(seen.last() == b);
        assert forall|j: int| 0 <= j < i - from implies is_digit(#[trigger] digits[j]) by {
            assert(digits[j] == digits.take(i - from)[j]);
        }
        if !(ZERO <= b && b <= NINE) {
            proof {
                lemma_digit_run(digits, i - from);
            }
            return Err(NumberError::InvalidDigit);
        }
        let grown = match value.checked_mul(10) {
            None => None,
            Some(tens) => tens.checked_add((b - ZERO) as usize),
        };
        match grown {
            None => {
                proof {
                    lemma_digit_run_reaches(digits, i - from + 1);
                    let run = digits.take(digit_run(digits) as int);
                    assert(run.take(i - from + 1) =~= seen);
                    lemma_digits_value_prefix(run, i - from + 1);
                }
                return Err(NumberError::TooLarge);
            },
            Some(next) => {
                value = next;
            },
        }
        assert forall|j: int| 0 <= j < seen.len() implies is_digit(#[trigger] seen[j]) by {
            if j < seen.len() - 1 {
                assert(seen[j] == digits.take(i - from)[j]);
            }
        }
        i += 1;
    }
    proof {
        assert(digits.take(to - from) =~= digits);
        lemma_digit_run(digits, to - from);
    }
    if from == to {
        Err(NumberError::InvalidDigit)
    } else {
        Ok(value)
    }
}

/// Reads `text[from..to]` as a decimal number.
pub fn read_decimal(text: &[u8], from: usize, to: usize) -> (r: Result<usize, NumberError>)
    requires
        from <= to <= text@.len(),
    ensures
        r == parse_decimal(text@.subrange(from as int, to as int)),
{
    if from == to {
        Err(NumberError::Empty)
    } else if text[from] == PLUS {
        assert(text@.subrange(from as int, to as int).drop_first() =~= text@.subrange(
            from + 1,
            to as int,
        ));
        read_digits(text, from + 1, to)
    } else {
        read_digits(text, from, to)
    }
}

/// The digits of a number stand for that number.
pub proof fn lemma_decimal_value(n: nat)
    ensures
        decimal(n).len() > 0,
        all_digits(decimal(n)),
        digits_value(decimal(n)) == n,
        decimal(n)[0] != PLUS,
    decreases n,
{
    if n < 10 {
        let s = decimal(n);
        assert(digits_value(s.drop_last()) == 0);
    } else {
        lemma_decimal_value(n / 10);
        let head = decimal(n / 10);
        let s = decimal(n);
        assert(s.drop_last() =~= head);
        assert forall|i: int| 0 <= i < s.len() implies is_digit(#[trigger] s[i]) by {}
    }
}

/// Reading the decimal text of a number gives the number back.
pub proof fn lemma_decimal_round_trip(n: nat)
    requires
        n <= usize::MAX,
    ensures
        parse_decimal(decimal(n)) == Ok::<usize, NumberError>(n as usize),
{
    lemma_decimal_value(n);
    lemma_digit_run(decimal(n), decimal(n).len() as int);
    assert(decimal(n).take(decimal(n).len() as int) =~= decimal(n));
}

/// Writes a number as decimal text.
pub fn write_decimal(n: usize) -> (r: Vec<u8>)
    ensures
        r@ == decimal(n as nat),
    decreases n,
{
    if n < 10 {
        let mut digits: Vec<u8> = Vec::new();
        digits.push(ZERO + (n as u8));
        digits
    } else {
        let mut digits = write_decimal(n / 10);
        digits.push(ZERO + ((n % 10) as u8));
        digits
    }
}

} // verus!
