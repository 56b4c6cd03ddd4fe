//! Bytes to lines, lines to words, words to numbers.
use crate::ascii::CARRIAGE_RETURN;
use crate::ascii::LINE_FEED;
use crate::ascii::MINUS;
use crate::ascii::NINE;
use crate::ascii::PLUS;
use crate::ascii::SPACE;
use crate::ascii::TAB;
use crate::ascii::ZERO;
use vstd::prelude::*;
use vstd::slice::slice_subrange;
use vstd::slice::slice_to_vec;

verus! {

/// A half-open range of positions in a line.
#[derive(Clone, Copy, PartialEq, Eq, Debug, Structural)]
pub struct Span {
    pub start: usize,
    pub end: usize,
}

/// ASCII white space: space, tab, line feed, vertical tab, form feed, carriage return.
pub open spec fn is_space(b: u8) -> bool {
    b == SPACE || (TAB <= b && b <= CARRIAGE_RETURN)
}

/// ASCII decimal digit.
pub open spec fn is_digit(b: u8) -> bool {
    ZERO <= b && b <= NINE
}

/// The first position at or after `from` that holds no white space (the length
/// if there is none).
pub open spec fn skip_spaces(s: Seq<u8>, from: int) -> int
    decreases s.len() - from,
{
    if 0 <= from < s.len() && is_space(s[from]) {
        skip_spaces(s, from + 1)
    } else {
        from
    }
}

/// The first position at or after `from` that holds white space (the length if
/// there is none).
pub open spec fn skip_word(s: Seq<u8>, from: int) -> int
    decreases s.len() - from,
{
    if 0 <= from < s.len() && !is_space(s[from]) {
        skip_word(s, from + 1)
    } else {
        from
    }
}

/// The first word that starts at or after `from`: a maximal run of bytes that
/// are not white space.
pub open spec fn token_after(s: Seq<u8>, from: int) -> Option<Span> {
    let a = skip_spaces(s, from);
    if a < s.len() {
        Some(Span { start: a as usize, end: skip_word(s, a) as usize })
    } else {
        None
    }
}

/// Word number `k` of a line, counted from zero: `None` where the line has
/// `k` words or fewer.
pub open spec fn nth_token(line: Seq<u8>, k: nat) -> Option<Span>
    decreases k,
{
    if k == 0 {
        token_after(line, 0)
    } else {
        match nth_token(line, (k - 1) as nat) {
            Some(t) => token_after(line, t.end as int),
            None => None,
        }
    }
}

/// The bytes of `line` that `t` covers.
pub open spec fn word(line: Seq<u8>, t: Span) -> Seq<u8> {
    line.subrange(t.start as int, t.end as int)
}

/// `skip_spaces` passes over white space only, and stops at the first byte that is none.
pub proof fn lemma_skip_spaces(s: Seq<u8>, from: int)
    requires
        0 <= from <= s.len(),
    ensures
        from <= skip_spaces(s, from) <= s.len(),
        forall|i: int| from <= i < skip_spaces(s, from) ==> is_space(#[trigger] s[i]),
        skip_spaces(s, from) < s.len() ==> !is_space(s[skip_spaces(s, from)]),
    decreases s.len() - from,
{
    if from < s.len() && is_space(s[from]) {
        lemma_skip_spaces(s, from + 1);
    }
}

/// `skip_word` passes over bytes that are no white space, and stops at the first that is.
pub proof fn lemma_skip_word(s: Seq<u8>, from: int)
    requires
        0 <= from <= s.len(),
    ensures
        from <= skip_word(s, from) <= s.len(),
        forall|i: int| from <= i < skip_word(s, from) ==> !is_space(#[trigger] s[i]),
        skip_word(s, from) < s.len() ==> is_space(s[skip_word(s, from)]),
    decreases s.len() - from,
{
    if from < s.len() && !is_space(s[from]) {
        lemma_skip_word(s, from + 1);
    }
}

/// The word that `token_after` finds is the first after `from`: only white
/// space stands before it, it holds no white space and at least one byte, and it
/// ends at white space or at the end of the line. Where it finds none, only
/// white space is left.
pub proof fn lemma_token_after(s: Seq<u8>, from: int)
    requires
        0 <= from <= s.len(),
        s.len() <= usize::MAX,
    ensures
        match token_after(s, from) {
            Some(t) => {
                &&& from <= t.start < t.end <= s.len()
                &&& forall|i: int| from <= i < t.start ==> is_space(#[trigger] s[i])
                &&& forall|i: int| t.start <= i < t.end ==> !is_space(#[trigger] s[i])
                &&& t.end < s.len() ==> is_space(s[t.end as int])
            },
            None => forall|i: int| from <= i < s.len() ==> is_space(#[trigger] s[i]),
        },
{
    lemma_skip_spaces(s, from);
    let a = skip_spaces(s, from);
    if a < s.len() {
        lemma_skip_word(s, a);
    }
}

/// Tells whether a byte is white space.
pub fn byte_is_space(b: u8) -> (r: bool)
    ensures
        r == is_space(b),
{
    b == SPACE || (TAB <= b && b <= CARRIAGE_RETURN)
}

/// Tells whether a byte is a decimal digit.
pub fn byte_is_digit(b: u8) -> (r: bool)
    ensures
        r == is_digit(b),
{
    ZERO <= b && b <= NINE
}

/// Finds the next word of `line` at or after `from`.
pub fn next_token(line: &[u8], from: usize) -> (r: Option<Span>)
    requires
        from <= line.len(),
    ensures
        r == token_after(line@, from as int),
        r matches Some(t) ==> from <= t.start < t.end <= line.len(),
{
    let mut a: usize = from;
    while a < line.len() && byte_is_space(line[a])
        invariant
            from <= a <= line.len(),
            skip_spaces(line@, a as int) == skip_spaces(line@, from as int),
        decreases line.len() - a,
    {
        a += 1;
    }
    if a >= line.len() {
        return None;
    }
    let mut b: usize = a + 1;
    while b < line.len() && !byte_is_space(line[b])
        invariant
            a < b <= line.len(),
            skip_word(line@, b as int) == skip_word(line@, a as int),
        decreases line.len() - b,
    {
        b += 1;
    }
    Some(Span { start: a, end: b })
}

/// Finds the word after the word `t`, where there is one.
pub fn token_following(line: &[u8], t: Option<Span>) -> (r: Option<Span>)
    requires
        t matches Some(t) ==> t.end <= line.len(),
    ensures
        r == (match t {
            Some(t) => token_after(line@, t.end as int),
            None => None,
        }),
        r matches Some(next) ==> next.start < next.end <= line.len(),
{
    match t {
        Some(t) => next_token(line, t.end),
        None => None,
    }
}

/// Whether two byte strings are the same.
pub fn bytes_eq(a: &[u8], b: &[u8]) -> (r: bool)
    ensures
        r == (a@ == b@),
{
    if a.len() != b.len() {
        return false;
    }
    let mut i: usize = 0;
    while i < a.len()
        invariant
            i <= a.len(),
            a.len() == b.len(),
            a@.take(i as int) == b@.take(i as int),
        decreases a.len() - i,
    {
        if a[i] != b[i] {
            return false;
        }
        assert(a@.take(i as int + 1) =~= a@.take(i as int).push(a@[i as int]));
        assert(b@.take(i as int + 1) =~= b@.take(i as int).push(b@[i as int]));
        i += 1;
    }
    assert(a@.take(a.len() as int) =~= a@);
    assert(b@.take(b.len() as int) =~= b@);
    true
}

/// The position of the line feed that ends the line starting at `from` (the
/// length if there is none).
pub open spec fn line_end(s: Seq<u8>, from: int) -> int
    decreases s.len() - from,
{
    if 0 <= from < s.len() && s[from] != LINE_FEED {
        line_end(s, from + 1)
    } else {
        from
    }
}

/// `line_end` passes over bytes that are no line feed, and stops at the first that is.
pub proof fn lemma_line_end(s: Seq<u8>, from: int)
    requires
        0 <= from <= s.len(),
    ensures
        from <= line_end(s, from) <= s.len(),
        forall|i: int| from <= i < line_end(s, from) ==> #[trigger] s[i] != LINE_FEED,
        line_end(s, from) < s.len() ==> s[line_end(s, from)] == LINE_FEED,
    decreases s.len() - from,
{
    if from < s.len() && s[from] != LINE_FEED {
        lemma_line_end(s, from + 1);
    }
}

/// `line` without one trailing carriage return.
pub open spec fn trim_return(line: Seq<u8>) -> Seq<u8> {
    if line.len() > 0 && line.last() == CARRIAGE_RETURN {
        line.drop_last()
    } else {
        line
    }
}

/// The lines of `s` from position `from` on. A line ends at a line feed or at the
/// end of the text; the line feed, and a carriage return directly before it, are
/// not part of the line. Text that ends in a line feed has no empty last line.
pub open spec fn lines_from(s: Seq<u8>, from: int) -> Seq<Seq<u8>>
    decreases s.len() - from,
{
    if 0 <= from < s.len() {
        let e = line_end(s, from);
        if e < s.len() {
            proof {
                lemma_line_end(s, from);
            }
            seq![trim_return(s.subrange(from, e))] + lines_from(s, e + 1)
        } else {
            seq![s.subrange(from, e)]
        }
    } else {
        Seq::empty()
    }
}

/// The lines of a whole text.
pub open spec fn lines_of(s: Seq<u8>) -> Seq<Seq<u8>> {
    lines_from(s, 0)
}

/// The byte strings that a vector of lines holds.
pub open spec fn lines_view(lines: Seq<Vec<u8>>) -> Seq<Seq<u8>> {
    Seq::new(lines.len(), |i: int| lines[i]@)
}

/// Splits a text into its lines.
pub fn split_lines(text: &[u8]) -> (lines: Vec<Vec<u8>>)
    ensures
        lines_view(lines@) == lines_of(text@),
{
    let mut lines: Vec<Vec<u8>> = Vec::new();
    let mut from: usize = 0;
    assert(lines_view(lines@) + lines_from(text@, 0) =~= lines_of(text@));
    while from < text.len()
        invariant
            from <= text.len(),
            lines_view(lines@) + lines_from(text@, from as int) == lines_of(text@),
        decreases text.len() - from,
    {
        let mut e: usize = from;
        while e < text.len() && text[e] != LINE_FEED
            invariant
                from <= e <= text.len(),
                line_end(text@, e as int) == line_end(text@, from as int),
            decreases text.len() - e,
        {
            e += 1;
        }
        let terminated = e < text.len();
        let stop: usize = if terminated && e > from && text[e - 1] == CARRIAGE_RETURN {
            (e - 1) as usize
        } else {
            e
        };
        let line = slice_to_vec(slice_subrange(text, from, stop));
        let next: usize = if terminated {
            e + 1
        } else {
            e
        };
        proof {
            let body = text@.subrange(from as int, e as int);
            let expected = if e < text.len() {
                trim_return(body)
            } else {
                body
            };
            assert(line@ =~= expected);
            lemma_line_end(text@, from as int);
            assert(lines_from(text@, from as int) =~= seq![line@] + lines_from(
                text@,
                next as int,
            ));
            assert(lines_view(lines@.push(line)) =~= lines_view(lines@).push(line@));
            assert(lines_view(lines@).push(line@) + lines_from(text@, next as int) =~= lines_view(
                lines@,
            ) + (seq![line@] + lines_from(text@, next as int)));
        }
        lines.push(line);
        from = next;
    }
    assert(lines_view(lines@) + lines_from(text@, from as int) =~= lines_view(lines@));
    lines
}

/// A word that is one or more decimal digits and nothing else.
pub open spec fn is_number(s: Seq<u8>) -> bool {
    s.len() > 0 && forall|i: int| 0 <= i < s.len() ==> is_digit(#[trigger] s[i])
}

/// The number that a string of decimal digits denotes.
pub open spec fn decimal_value(s: Seq<u8>) -> nat
    decreases s.len(),
{
    if s.len() == 0 {
        0
    } else {
        decimal_value(s.drop_last()) * 10 + (s.last() - ZERO) as nat
    }
}

/// What reading a word as a decimal number up to a limit gives.
#[derive(Clone, Copy, PartialEq, Eq, Debug, Structural)]
pub enum Decimal {
    /// The word is not a string of digits.
    Malformed,
    /// The word is a number above the limit.
    TooLarge,
    /// The word is this number, which is at most the limit.
    Value(u64),
}

/// A word read as a decimal number of at most `limit`.
pub open spec fn decimal_up_to(s: Seq<u8>, limit: u64) -> Decimal {
    if !is_number(s) {
        Decimal::Malformed
    } else if decimal_value(s) > limit {
        Decimal::TooLarge
    } else {
        Decimal::Value(decimal_value(s) as u64)
    }
}

/// A longer string of digits denotes no smaller a number than its prefixes.
pub proof fn lemma_decimal_value_grows(s: Seq<u8>, n: int)
    requires
        0 <= n <= s.len(),
        forall|i: int| 0 <= i < s.len() ==> is_digit(#[trigger] s[i]),
    ensures
        decimal_value(s.take(n)) <= decimal_value(s),
    decreases s.len() - n,
{
    if n == s.len() {
        assert(s.take(n) =~= s);
    } else {
        lemma_decimal_value_grows(s.drop_last(), n);
        assert(s.drop_last().take(n) =~= s.take(n));
    }
}

/// The largest limit that `parse_decimal` takes.
pub const MAX_DECIMAL_LIMIT: u64 = 1_000_000_000_000_000_000;

/// Reads a word as a decimal number of at most `limit`.
pub fn parse_decimal(s: &[u8], limit: u64) -> (r: Decimal)
    requires
        limit <= MAX_DECIMAL_LIMIT,
    ensures
        r == decimal_up_to(s@, limit),
{
    if s.len() == 0 {
        return Decimal::Malformed;
    }
    let mut i: usize = 0;
    while i < s.len()
        invariant
            i <= s.len(),
            forall|j: int| 0 <= j < i ==> is_digit(#[trigger] s@[j]),
        decreases s.len() - i,
    {
        if !byte_is_digit(s[i]) {
            return Decimal::Malformed;
        }
        i += 1;
    }
    let mut value: u64 = 0;
    let mut k: usize = 0;
    assert(s@.take(0) =~= Seq::<u8>::empty());
    while k < s.len()
        invariant
            k <= s.len(),
            is_number(s@),
            limit <= MAX_DECIMAL_LIMIT,
            value <= limit,
            value == decimal_value(s@.take(k as int)),
        decreases s.len() - k,
    {
        let digit: u64 = (s[k] - ZERO) as u64;
        let next: u64 = value * 10 + digit;
        proof {
            assert(s@.take(k as int + 1).drop_last() =~= s@.take(k as int));
            assert(s@.take(k as int + 1).last() == s@[k as int]);
            assert(next == decimal_value(s@.take(k as int + 1)));
        }
        if next > limit {
            proof {
                lemma_decimal_value_grows(s@, k as int + 1);
            }
            return Decimal::TooLarge;
        }
        value = next;
        k += 1;
    }
    assert(s@.take(s.len() as int) =~= s@);
    Decimal::Value(value)
}

/// The digits of an unsigned number: the word without one leading `+`.
pub open spec fn unsigned_digits(s: Seq<u8>) -> Seq<u8> {
    if s.len() > 0 && s[0] == PLUS {
        s.drop_first()
    } else {
        s
    }
}

/// The digits of a signed number: the word without one leading `+` or `-`.
pub open spec fn signed_digits(s: Seq<u8>) -> Seq<u8> {
    if s.len() > 0 && (s[0] == PLUS || s[0] == MINUS) {
        s.drop_first()
    } else {
        s
    }
}

/// A word read as a signed decimal number that fits 32 bits: an optional sign,
/// then digits. `None` for anything else.
pub open spec fn signed_value(s: Seq<u8>) -> Option<i32> {
    let digits = signed_digits(s);
    let v: int = if s.len() > 0 && s[0] == MINUS {
        -(decimal_value(digits) as int)
    } else {
        decimal_value(digits) as int
    };
    if is_number(digits) && i32::MIN <= v <= i32::MAX {
        Some(v as i32)
    } else {
        None
    }
}

/// Reads the digits of an unsigned number of at most `limit`.
pub fn parse_unsigned(s: &[u8], limit: u64) -> (r: Decimal)
    requires
        limit <= MAX_DECIMAL_LIMIT,
    ensures
        r == decimal_up_to(unsigned_digits(s@), limit),
{
    if s.len() > 0 && s[0] == PLUS {
        parse_decimal(slice_subrange(s, 1, s.len()), limit)
    } else {
        parse_decimal(s, limit)
    }
}

/// Reads a word as a signed 32-bit decimal number.
pub fn parse_signed(s: &[u8]) -> (r: Option<i32>)
    ensures
        r == signed_value(s@),
{
    let negative = s.len() > 0 && s[0] == MINUS;
    let signed = s.len() > 0 && (s[0] == PLUS || s[0] == MINUS);
    let digits = if signed {
        slice_subrange(s, 1, s.len())
    } else {
        s
    };
    match parse_decimal(digits, 2147483648) {
        Decimal::Value(v) => {
            if negative {
                let w: i64 = v as i64;
                Some((0 - w) as i32)
            } else if v <= 2147483647 {
                Some(v as i32)
            } else {
                None
            }
        },
        _ => None,
    }
}

} // verus!
