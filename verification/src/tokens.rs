//! Splitting source text into tokens, and reading integer literals.
//!
//! Source text is taken as its UTF-8 bytes. A token is a longest run of bytes
//! none of which is ASCII whitespace. Whitespace is a single byte and never
//! part of a longer character, so every token begins and ends between two
//! characters and can be cut out of the text as a `&str`.

use vstd::prelude::*;
use vstd::string::StringSliceAdditionalSpecFns;
use vstd::utf8::{
    encode_utf8_valid_utf8, is_char_boundary, is_char_boundary_iff_not_is_continuation_byte,
    is_char_boundary_start_end_of_seq, is_continuation_byte, pop_first_scalar, valid_utf8, valid_utf8_split,
};

verus! {

/// ASCII whitespace: space, tab, line feed, form feed, carriage return.
pub open spec fn is_space(b: u8) -> bool {
    b == 0x20 || b == 0x09 || b == 0x0a || b == 0x0c || b == 0x0d
}

/// The first position at or after `i` that does not hold whitespace; the
/// length of `s` if there is none.
pub open spec fn skip_spaces(s: Seq<u8>, i: int) -> int
    decreases s.len() - i,
{
    if 0 <= i < s.len() && is_space(s[i]) {
        skip_spaces(s, i + 1)
    } else {
        i
    }
}

/// The first position at or after `i` that holds whitespace; the length of
/// `s` if there is none.
pub open spec fn skip_token(s: Seq<u8>, i: int) -> int
    decreases s.len() - i,
{
    if 0 <= i < s.len() && !is_space(s[i]) {
        skip_token(s, i + 1)
    } else {
        i
    }
}

/// A stretch of the text, from `start` up to but not including `end`.
pub struct Span {
    pub start: int,
    pub end: int,
}

/// The first token that begins at or after `i`.
pub open spec fn token_at(s: Seq<u8>, i: int) -> Option<Span> {
    let start = skip_spaces(s, i);
    if start < s.len() {
        Some(Span { start, end: skip_token(s, start) })
    } else {
        None
    }
}

/// `skip_spaces` moves forward over whitespace only and stops inside the text.
pub proof fn lemma_skip_spaces(s: Seq<u8>, i: int)
    requires
        0 <= i <= s.len(),
    ensures
        i <= skip_spaces(s, i) <= s.len(),
        forall|k: int| i <= k < skip_spaces(s, i) ==> is_space(#[trigger] s[k]),
        skip_spaces(s, i) < s.len() ==> !is_space(s[skip_spaces(s, i)]),
    decreases s.len() - i,
{
    if i < s.len() && is_space(s[i]) {
        lemma_skip_spaces(s, i + 1);
    }
}

/// `skip_token` moves forward over everything but whitespace and stops inside
/// the text.
pub proof fn lemma_skip_token(s: Seq<u8>, i: int)
    requires
        0 <= i <= s.len(),
    ensures
        i <= skip_token(s, i) <= s.len(),
        forall|k: int| i <= k < skip_token(s, i) ==> !is_space(#[trigger] s[k]),
        skip_token(s, i) < s.len() ==> is_space(s[skip_token(s, i)]),
        i < s.len() && !is_space(s[i]) ==> i < skip_token(s, i),
    decreases s.len() - i,
{
    if i < s.len() && !is_space(s[i]) {
        lemma_skip_token(s, i + 1);
    }
}

/// A token is not empty, lies inside the text at or after the place the
/// search began, holds no whitespace, and cannot be made longer: whitespace
/// or an end of the text stands on either side of it.
pub proof fn lemma_token_at(s: Seq<u8>, i: int)
    requires
        0 <= i <= s.len(),
    ensures
        match token_at(s, i) {
            Some(span) => {
                &&& i <= span.start < span.end <= s.len()
                &&& forall|k: int| i <= k < span.start ==> is_space(#[trigger] s[k])
                &&& forall|k: int| span.start <= k < span.end ==> !is_space(#[trigger] s[k])
                &&& span.end < s.len() ==> is_space(s[span.end])
            },
            None => forall|k: int| i <= k < s.len() ==> is_space(#[trigger] s[k]),
        },
{
    lemma_skip_spaces(s, i);
    lemma_skip_token(s, skip_spaces(s, i));
}

/// The tokens of `text` that begin at or after `i`, in the order they stand
/// in.
pub open spec fn tokens_from(text: Seq<u8>, i: int) -> Seq<Seq<u8>>
    decreases text.len() - i,
    when 0 <= i <= text.len()
    via tokens_from_decreases
{
    match token_at(text, i) {
        None => Seq::empty(),
        Some(span) => seq![text.subrange(span.start, span.end)] + tokens_from(text, span.end),
    }
}

#[via_fn]
proof fn tokens_from_decreases(text: Seq<u8>, i: int) {
    lemma_token_at(text, i);
}

/// The tokens of `text`.
pub open spec fn tokens(text: Seq<u8>) -> Seq<Seq<u8>> {
    tokens_from(text, 0)
}

/// The position behind the `count`-th token at or after `i`; `i` itself when
/// `count` is zero, and where the tokens run out when there are fewer.
pub open spec fn after_tokens(text: Seq<u8>, i: int, count: nat) -> int
    decreases count,
{
    if count == 0 {
        i
    } else {
        match token_at(text, i) {
            None => i,
            Some(span) => after_tokens(text, span.end, (count - 1) as nat),
        }
    }
}

/// `after_tokens` stays inside the text and leaves behind it exactly the
/// tokens it did not pass.
pub proof fn lemma_after_tokens(text: Seq<u8>, i: int, count: nat)
    requires
        0 <= i <= text.len(),
        count <= tokens_from(text, i).len(),
    ensures
        i <= after_tokens(text, i, count) <= text.len(),
        tokens_from(text, after_tokens(text, i, count)) == tokens_from(text, i).skip(count as int),
    decreases count,
{
    if count == 0 {
        assert(tokens_from(text, i).skip(0) =~= tokens_from(text, i));
    } else {
        lemma_token_at(text, i);
        let span = token_at(text, i).unwrap();
        lemma_after_tokens(text, span.end, (count - 1) as nat);
        assert(tokens_from(text, i).skip(count as int) =~= tokens_from(text, span.end).skip(
            count - 1,
        ));
    }
}

/// In valid UTF-8 the position behind an ASCII byte lies between two
/// characters.
pub proof fn lemma_boundary_after_ascii(s: Seq<u8>, i: int)
    requires
        valid_utf8(s),
        0 <= i < s.len(),
        s[i] < 0x80,
    ensures
        is_char_boundary(s, i),
        is_char_boundary(s, i + 1),
{
    is_char_boundary_iff_not_is_continuation_byte(s, i);
    assert(is_char_boundary(s, i));
    if i + 1 == s.len() {
        is_char_boundary_start_end_of_seq(s);
    } else {
        valid_utf8_split(s, i);
        let tail = s.subrange(i, s.len() as int);
        assert(tail[0] == s[i]);
        assert(valid_utf8(tail));
        let rest = pop_first_scalar(tail);
        assert(rest =~= s.subrange(i + 1, s.len() as int));
        assert(valid_utf8(rest));
        assert(rest[0] == s[i + 1]);
        assert(!is_continuation_byte(s[i + 1]));
        is_char_boundary_iff_not_is_continuation_byte(s, i + 1);
    }
}

/// A token found from a position between two characters begins and ends
/// between two characters.
pub proof fn lemma_token_boundaries(s: Seq<u8>, i: int)
    requires
        valid_utf8(s),
        0 <= i <= s.len(),
        is_char_boundary(s, i),
    ensures
        token_at(s, i) matches Some(span) ==> is_char_boundary(s, span.start) && is_char_boundary(
            s,
            span.end,
        ),
{
    lemma_token_at(s, i);
    if let Some(span) = token_at(s, i) {
        if span.start > i {
            assert(is_space(s[span.start - 1]));
            lemma_boundary_after_ascii(s, span.start - 1);
        }
        if span.end < s.len() {
            assert(is_space(s[span.end]));
            lemma_boundary_after_ascii(s, span.end);
        } else {
            is_char_boundary_start_end_of_seq(s);
        }
    }
}

/// Whether `b` is ASCII whitespace.
pub fn is_ascii_space(b: u8) -> (r: bool)
    ensures
        r == is_space(b),
{
    b == 0x20 || b == 0x09 || b == 0x0a || b == 0x0c || b == 0x0d
}

/// Finds the first token of `text` that begins at or after `from`, as the
/// pair of its first position and the position behind its last.
pub fn next_token(text: &[u8], from: usize) -> (r: Option<(usize, usize)>)
    requires
        from <= text@.len(),
    ensures
        match token_at(text@, from as int) {
            Some(span) => r == Some((span.start as usize, span.end as usize)) && from <= span.start
                < span.end <= text@.len(),
            None => r is None,
        },
{
    let n = text.len();
    let mut start = from;
    while start < n && is_ascii_space(text[start])
        invariant
            n == text@.len(),
            from <= start <= n,
            skip_spaces(text@, from as int) == skip_spaces(text@, start as int),
        decreases n - start,
    {
        start = start + 1;
    }
    if start >= n {
        return None;
    }
    let mut end = start;
    while end < n && !is_ascii_space(text[end])
        invariant
            n == text@.len(),
            start <= end <= n,
            skip_token(text@, start as int) == skip_token(text@, end as int),
        decreases n - end,
    {
        end = end + 1;
    }
    proof {
        lemma_token_at(text@, from as int);
    }
    Some((start, end))
}

/// The part of `s` from byte `start` up to byte `end`.
pub fn substring<'a>(s: &'a str, start: usize, end: usize) -> (part: &'a str)
    requires
        start <= end <= s.spec_bytes().len(),
        is_char_boundary(s.spec_bytes(), start as int),
        is_char_boundary(s.spec_bytes(), end as int),
    ensures
        part.spec_bytes() == s.spec_bytes().subrange(start as int, end as int),
{
    let (head, _) = s.split_at(end);
    proof {
        let bytes = s.spec_bytes();
        encode_utf8_valid_utf8(s@);
        encode_utf8_valid_utf8(head@);
        if start < end {
            is_char_boundary_iff_not_is_continuation_byte(bytes, start as int);
            is_char_boundary_iff_not_is_continuation_byte(head.spec_bytes(), start as int);
        } else {
            is_char_boundary_start_end_of_seq(head.spec_bytes());
        }
    }
    let (_, part) = head.split_at(start);
    proof {
        assert(part.spec_bytes() =~= s.spec_bytes().subrange(start as int, end as int));
    }
    part
}

/// A decimal digit.
pub open spec fn is_digit(b: u8) -> bool {
    0x30 <= b <= 0x39
}

/// The number that the decimal digits `digits` write.
pub open spec fn decimal_value(digits: Seq<u8>) -> nat
    decreases digits.len(),
{
    if digits.len() == 0 {
        0
    } else {
        decimal_value(digits.drop_last()) * 10 + (digits.last() - 0x30) as nat
    }
}

/// A literal without its sign: an integer literal may begin with one `+`.
pub open spec fn unsigned_part(token: Seq<u8>) -> Seq<u8> {
    if token.len() > 0 && token[0] == 0x2b {
        token.subrange(1, token.len() as int)
    } else {
        token
    }
}

/// The value of an unsigned integer literal: one or more decimal digits,
/// after an optional `+`, that write a number which fits in 32 bits. Any
/// other token is no literal.
pub open spec fn literal_value(token: Seq<u8>) -> Option<u32> {
    let digits = unsigned_part(token);
    if digits.len() > 0 && (forall|i: int| 0 <= i < digits.len() ==> is_digit(#[trigger] digits[i]))
        && decimal_value(digits) <= u32::MAX {
        Some(decimal_value(digits) as u32)
    } else {
        None
    }
}

/// More digits never write a smaller number.
pub proof fn lemma_decimal_value_grows(digits: Seq<u8>, k: int)
    requires
        0 <= k <= digits.len(),
        forall|i: int| 0 <= i < digits.len() ==> is_digit(#[trigger] digits[i]),
    ensures
        decimal_value(digits.subrange(0, k)) <= decimal_value(digits),
    decreases digits.len() - k,
{
    if k == digits.len() {
        assert(digits.subrange(0, k) =~= digits);
    } else {
        lemma_decimal_value_grows(digits, k + 1);
        let longer = digits.subrange(0, k + 1);
        assert(longer.drop_last() =~= digits.subrange(0, k));
        assert(is_digit(digits[k]));
        assert(longer.last() == digits[k]);
    }
}

/// Reads an unsigned integer literal.
pub fn parse_u32(token: &[u8]) -> (r: Option<u32>)
    ensures
        r == literal_value(token@),
{
    let n = token.len();
    let first: usize = if n > 0 && token[0] == 0x2b {
        1
    } else {
        0
    };
    if first == n {
        return None;
    }
    let ghost digits = unsigned_part(token@);
    proof {
        assert(digits =~= token@.subrange(first as int, n as int));
    }
    let mut value: u32 = 0;
    let mut i: usize = first;
    while i < n
        invariant
            n == token@.len(),
            first <= i <= n,
            first <= 1,
            digits == unsigned_part(token@),
            digits == token@.subrange(first as int, n as int),
            forall|k: int| 0 <= k < i - first ==> is_digit(#[trigger] digits[k]),
            value == decimal_value(digits.subrange(0, i - first)),
        decreases n - i,
    {
        let b: u8 = token[i];
        if b < 0x30 || b > 0x39 {
            proof {
                assert(digits[i - first] == b);
            }
            return None;
        }
        let ghost longer = digits.subrange(0, i - first + 1);
        proof {
            assert(longer.drop_last() =~= digits.subrange(0, i - first));
            assert(longer.last() == b);
        }
        let next = match value.checked_mul(10) {
            Some(tenfold) => tenfold.checked_add((b - 0x30) as u32),
            None => None,
        };
        match next {
            Some(v) => {
                value = v;
            },
            None => {
                proof {
                    assert(decimal_value(longer) > u32::MAX);
                    if forall|k: int| 0 <= k < digits.len() ==> is_digit(#[trigger] digits[k]) {
                        lemma_decimal_value_grows(digits, i - first + 1);
                    }
                }
                return None;
            },
        }
        i = i + 1;
    }
    proof {
        assert(digits.subrange(0, i - first) =~= digits);
    }
    Some(value)
}

} // verus!
