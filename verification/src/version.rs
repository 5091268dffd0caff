//! The version text that a blob declares about itself, such as `2.1.0`.
//!
//! Only the major component is read: the characters before the first `'.'`,
//! taken as a signed decimal integer that fits in an `i32`.

use vstd::prelude::*;
use vstd::std_specs::iter::IteratorSpec;

verus! {

/// Number of characters of `text` that stand before its first `'.'`
/// (all of them when it holds none).
pub open spec fn major_len(text: Seq<char>) -> nat
    decreases text.len(),
{
    if text.len() == 0 || text[0] == '.' {
        0
    } else {
        1 + major_len(text.drop_first())
    }
}

/// The major component of `text`: what stands before its first `'.'`.
pub open spec fn major_text(text: Seq<char>) -> Seq<char> {
    text.take(major_len(text) as int)
}

/// `n` is where the major component of `text` ends.
spec fn ends_major(text: Seq<char>, n: int) -> bool {
    &&& 0 <= n <= text.len()
    &&& forall|i: int| 0 <= i < n ==> text[i] != '.'
    &&& n < text.len() ==> text[n] == '.'
}

/// The end of the major component is the one position that `ends_major`
/// accepts.
proof fn lemma_major_len(text: Seq<char>, n: int)
    requires
        ends_major(text, n),
    ensures
        major_len(text) == n,
    decreases text.len(),
{
    if n > 0 {
        let rest = text.drop_first();
        assert forall|i: int| 0 <= i < n - 1 implies rest[i] != '.' by {
            assert(rest[i] == text[i + 1]);
        }
        lemma_major_len(rest, n - 1);
    }
}

/// `c` is a decimal digit.
pub open spec fn is_digit(c: char) -> bool {
    '0' <= c <= '9'
}

/// `digits` holds decimal digits and nothing else.
pub open spec fn all_digits(digits: Seq<char>) -> bool {
    forall|i: int| 0 <= i < digits.len() ==> is_digit(#[trigger] digits[i])
}

/// The number that a run of decimal digits writes, most significant digit first.
pub open spec fn decimal_value(digits: Seq<char>) -> nat
    decreases digits.len(),
{
    if digits.len() == 0 {
        0
    } else {
        (decimal_value(digits.drop_last()) * 10 + (digits.last() as int - '0' as int)) as nat
    }
}

/// The characters of `text` after an optional leading sign.
pub open spec fn unsigned_part(text: Seq<char>) -> Seq<char> {
    if text.len() > 0 && (text[0] == '-' || text[0] == '+') {
        text.skip(1)
    } else {
        text
    }
}

/// `text` starts with a minus sign.
pub open spec fn is_negative(text: Seq<char>) -> bool {
    text.len() > 0 && text[0] == '-'
}

/// The integer that `text` writes: an optional `+` or `-`, then at least one
/// decimal digit and nothing else. `None` for any other text.
pub open spec fn signed_decimal(text: Seq<char>) -> Option<int> {
    let digits = unsigned_part(text);
    if digits.len() == 0 || !all_digits(digits) {
        None
    } else if is_negative(text) {
        Some(-(decimal_value(digits) as int))
    } else {
        Some(decimal_value(digits) as int)
    }
}

/// `signed_decimal`, kept only where the integer fits in an `i32`.
pub open spec fn decimal_i32(text: Seq<char>) -> Option<i32> {
    match signed_decimal(text) {
        Some(v) if i32::MIN <= v <= i32::MAX => Some(v as i32),
        _ => None,
    }
}

/// The major version that `text` declares, if its major component is an `i32`.
pub open spec fn major_version(text: Seq<char>) -> Option<i32> {
    decimal_i32(major_text(text))
}

/// Appending digits never lowers the number written.
proof fn lemma_decimal_value_prefix(digits: Seq<char>, k: int)
    requires
        all_digits(digits),
        0 <= k <= digits.len(),
    ensures
        decimal_value(digits.take(k)) <= decimal_value(digits),
    decreases digits.len() - k,
{
    if k < digits.len() {
        let longer = digits.take(k + 1);
        assert(longer.drop_last() == digits.take(k));
        assert(longer.last() == digits[k]);
        assert(is_digit(digits[k]));
        lemma_decimal_value_prefix(digits, k + 1);
    } else {
        assert(digits.take(k) == digits);
    }
}

/// Collects the major component of `text`.
pub fn read_major_text(text: &str) -> (major: Vec<char>)
    ensures
        major@ == major_text(text@),
{
    let mut major: Vec<char> = Vec::new();
    let mut open = true;
    for c in it: text.chars()
        invariant
            it.seq() == text@,
            major@ == text@.take(major@.len() as int),
            major@.len() <= it.index(),
            forall|i: int| 0 <= i < major@.len() ==> text@[i] != '.',
            open ==> major@.len() == it.index(),
            !open ==> major@.len() < text@.len() && text@[major@.len() as int] == '.',
    {
        if open {
            if c == '.' {
                open = false;
            } else {
                major.push(c);
                assert(major@ == text@.take(major@.len() as int));
            }
        }
    }
    proof {
        lemma_major_len(text@, major@.len() as int);
    }
    major
}

/// Reads `text` as an `i32`: an optional sign, then decimal digits only.
pub fn read_decimal_i32(text: &[char]) -> (value: Option<i32>)
    ensures
        value == decimal_i32(text@),
{
    let len = text.len();
    let negative = len > 0 && text[0] == '-';
    let start: usize = if len > 0 && (text[0] == '-' || text[0] == '+') { 1 } else { 0 };
    if start == len {
        return None;
    }
    let ghost digits = unsigned_part(text@);
    assert(digits == text@.skip(start as int));
    let mut magnitude: i64 = 0;
    let mut i: usize = start;
    while i < len
        invariant
            start <= i <= len,
            len == text@.len(),
            digits == text@.skip(start as int),
            digits == unsigned_part(text@),
            all_digits(digits.take(i - start)),
            magnitude == decimal_value(digits.take(i - start)),
            0 <= magnitude <= 0x8000_0000,
        decreases len - i,
    {
        let c = text[i];
        assert(digits[i - start] == c);
        if !('0' <= c && c <= '9') {
            assert(!is_digit(digits[i - start]));
            return None;
        }
        let ghost longer = digits.take(i - start + 1);
        assert(longer.drop_last() == digits.take(i - start));
        assert(longer.last() == c);
        assert forall|j: int| 0 <= j < longer.len() implies is_digit(#[trigger] longer[j]) by {
            if j < i - start {
                assert(longer[j] == digits.take(i - start)[j]);
            }
        }
        let next: i64 = magnitude * 10 + (c as i64 - '0' as i64);
        assert(next == decimal_value(longer));
        if next > 0x8000_0000 {
            proof {
                if all_digits(digits) {
                    lemma_decimal_value_prefix(digits, i - start + 1);
                }
            }
            return None;
        }
        magnitude = next;
        i = i + 1;
    }
    assert(digits.take(i - start) == digits);
    if negative {
        Some((-magnitude) as i32)
    } else if magnitude <= 0x7fff_ffff {
        Some(magnitude as i32)
    } else {
        None
    }
}

/// The major version that `text` declares: its characters before the first
/// `'.'`, read as an `i32`.
pub fn read_major_version(text: &str) -> (major: Option<i32>)
    ensures
        major == major_version(text@),
{
    let component = read_major_text(text);
    read_decimal_i32(component.as_slice())
}

} // verus!
