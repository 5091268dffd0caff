//! Byte strings as elements of the Stark field, and the text form of a digest.

use vstd::prelude::*;

use crate::error::ArtifactError;

verus! {

/// The modulus of the Stark field: 2^251 + 17 * 2^192 + 1.
pub open spec fn field_modulus() -> nat {
    0x800000000000011000000000000000000000000000000000000000000000001nat
}

/// The upper sixteen bytes of the modulus; its lower sixteen hold the number 1.
pub const MODULUS_HIGH: u128 = 0x0800_0000_0000_0011_0000_0000_0000_0000u128;

/// 256 to the power `count`: the weight of the byte that stands `count`
/// places before the end of a big-endian number.
pub open spec fn byte_weight(count: nat) -> nat
    decreases count,
{
    if count == 0 {
        1
    } else {
        256 * byte_weight((count - 1) as nat)
    }
}

/// The number that `bytes` write, most significant byte first.
pub open spec fn be_value(bytes: Seq<u8>) -> nat
    decreases bytes.len(),
{
    if bytes.len() == 0 {
        0
    } else {
        be_value(bytes.drop_last()) * 256 + bytes.last() as nat
    }
}

/// `bytes` write a field element: at most 32 of them, and a number below the
/// modulus.
pub open spec fn writes_field_element(bytes: Seq<u8>) -> bool {
    bytes.len() <= 32 && be_value(bytes) < field_modulus()
}

proof fn lemma_byte_weight_grows(low: nat, high: nat)
    requires
        low <= high,
    ensures
        0 < byte_weight(low) <= byte_weight(high),
    decreases high,
{
    if low < high {
        lemma_byte_weight_grows(low, (high - 1) as nat);
    } else if low > 0 {
        lemma_byte_weight_grows((low - 1) as nat, (low - 1) as nat);
    }
}

proof fn lemma_byte_weight_sixteen()
    ensures
        byte_weight(16) == 0x1_0000_0000_0000_0000_0000_0000_0000_0000nat,
{
    reveal_with_fuel(byte_weight, 17);
}

/// A big-endian number is below the weight of a byte one place past its
/// length.
pub proof fn lemma_be_value_bound(bytes: Seq<u8>)
    ensures
        be_value(bytes) < byte_weight(bytes.len()),
    decreases bytes.len(),
{
    if bytes.len() > 0 {
        lemma_be_value_bound(bytes.drop_last());
    }
}

/// The number written by two byte strings one after the other.
pub proof fn lemma_be_value_concat(front: Seq<u8>, back: Seq<u8>)
    ensures
        be_value(front + back) == be_value(front) * byte_weight(back.len()) + be_value(back),
    decreases back.len(),
{
    if back.len() == 0 {
        assert(front + back == front);
        assert(be_value(back) == 0);
        assert(be_value(front) * 1 == be_value(front));
    } else {
        let whole = front + back;
        let shorter = back.drop_last();
        assert(whole.drop_last() == front + shorter);
        assert(whole.last() == back.last());
        lemma_be_value_concat(front, shorter);
        let f = be_value(front) as int;
        let s = be_value(shorter) as int;
        let w = byte_weight(shorter.len()) as int;
        assert(byte_weight(back.len()) == 256 * w);
        assert(be_value(whole) == (f * w + s) * 256 + back.last());
        assert((f * w + s) * 256 == f * (256 * w) + s * 256) by (nonlinear_arith);
        assert(be_value(back) == s * 256 + back.last());
    }
}

/// Two byte strings of one length that write the same number are the same.
pub proof fn lemma_be_value_distinct(first: Seq<u8>, second: Seq<u8>)
    requires
        first.len() == second.len(),
        be_value(first) == be_value(second),
    ensures
        first == second,
    decreases first.len(),
{
    if first.len() > 0 {
        lemma_be_value_distinct(first.drop_last(), second.drop_last());
        assert(first.last() == second.last());
        assert(first == first.drop_last().push(first.last()));
        assert(second == second.drop_last().push(second.last()));
    } else {
        assert(first == second);
    }
}

/// The number written by `bytes[from..to]`, which holds at most 16 bytes.
fn read_be(bytes: &[u8], from: usize, to: usize) -> (value: u128)
    requires
        from <= to <= bytes@.len(),
        to - from <= 16,
    ensures
        value == be_value(bytes@.subrange(from as int, to as int)),
{
    let mut value: u128 = 0;
    let mut i: usize = from;
    while i < to
        invariant
            from <= i <= to <= bytes@.len(),
            to - from <= 16,
            value == be_value(bytes@.subrange(from as int, i as int)),
        decreases to - i,
    {
        proof {
            let read = bytes@.subrange(from as int, i as int);
            let longer = bytes@.subrange(from as int, i + 1);
            lemma_be_value_bound(read);
            lemma_byte_weight_grows(read.len(), 15);
            lemma_byte_weight_grows(15, 16);
            lemma_byte_weight_sixteen();
            assert(byte_weight(16) == 256 * byte_weight(15));
            assert(longer.drop_last() == read);
            assert(longer.last() == bytes@[i as int]);
        }
        value = value * 256 + bytes[i] as u128;
        i = i + 1;
    }
    value
}

/// Whether `bytes` write a field element.
pub fn is_field_element(bytes: &[u8]) -> (fits: bool)
    ensures
        fits == writes_field_element(bytes@),
{
    let len = bytes.len();
    if len > 32 {
        return false;
    }
    let split: usize = if len > 16 {
        len - 16
    } else {
        0
    };
    let high = read_be(bytes, 0, split);
    let low = read_be(bytes, split, len);
    proof {
        let front = bytes@.subrange(0, split as int);
        let back = bytes@.subrange(split as int, len as int);
        assert(bytes@ == front + back);
        lemma_be_value_concat(front, back);
        lemma_be_value_bound(back);
        lemma_byte_weight_grows(back.len(), 16);
        lemma_byte_weight_sixteen();
        let weight = 0x1_0000_0000_0000_0000_0000_0000_0000_0000nat;
        if split > 0 {
            assert(back.len() == 16);
            assert(be_value(bytes@) == high * weight + low);
            assert(field_modulus() == MODULUS_HIGH * weight + 1);
        } else {
            assert(front.len() == 0);
            assert(high == 0);
            assert(be_value(bytes@) == low) by (nonlinear_arith)
                requires
                    be_value(bytes@) == high * byte_weight(back.len()) + low,
                    high == 0,
            ;
            assert(low < weight);
        }
    }
    high < MODULUS_HIGH || (high == MODULUS_HIGH && low == 0)
}

/// The lower-case hexadecimal digit for a number below 16.
pub open spec fn hex_digit(value: nat) -> char {
    seq![
        '0',
        '1',
        '2',
        '3',
        '4',
        '5',
        '6',
        '7',
        '8',
        '9',
        'a',
        'b',
        'c',
        'd',
        'e',
        'f',
    ][value as int]
}

/// `value` in lower-case hexadecimal, without leading zeros; `0` for zero.
pub open spec fn hex_digits(value: nat) -> Seq<char>
    decreases value,
{
    if value < 16 {
        seq![hex_digit(value)]
    } else {
        hex_digits(value / 16).push(hex_digit(value % 16))
    }
}

/// The text form of a digest: the marker `0x`, then the digits of its number.
pub open spec fn hash_text(value: nat) -> Seq<char> {
    seq!['0', 'x'] + hex_digits(value)
}

proof fn lemma_hex_digit_distinct(a: nat, b: nat)
    requires
        a < 16,
        b < 16,
        hex_digit(a) == hex_digit(b),
    ensures
        a == b,
{
}

proof fn lemma_hex_digits_len(value: nat)
    ensures
        hex_digits(value).len() >= 1,
        value >= 16 ==> hex_digits(value).len() >= 2,
    decreases value,
{
    if value >= 16 {
        lemma_hex_digits_len(value / 16);
    }
}

/// Two numbers with the same digits are the same number.
proof fn lemma_hex_digits_distinct(a: nat, b: nat)
    requires
        hex_digits(a) == hex_digits(b),
    ensures
        a == b,
    decreases a,
{
    lemma_hex_digits_len(a);
    lemma_hex_digits_len(b);
    if a < 16 && b < 16 {
        assert(hex_digits(a)[0] == hex_digit(a));
        assert(hex_digits(b)[0] == hex_digit(b));
        lemma_hex_digit_distinct(a, b);
    } else if a >= 16 && b >= 16 {
        let da = hex_digits(a / 16);
        let db = hex_digits(b / 16);
        assert(hex_digits(a).drop_last() == da);
        assert(hex_digits(b).drop_last() == db);
        assert(hex_digits(a).last() == hex_digit(a % 16));
        assert(hex_digits(b).last() == hex_digit(b % 16));
        lemma_hex_digits_distinct(a / 16, b / 16);
        lemma_hex_digit_distinct(a % 16, b % 16);
    }
}

/// The text form tells digests apart: equal texts come from equal numbers.
pub proof fn hash_text_is_injective(a: nat, b: nat)
    requires
        hash_text(a) == hash_text(b),
    ensures
        a == b,
{
    assert(hash_text(a).skip(2) == hex_digits(a));
    assert(hash_text(b).skip(2) == hex_digits(b));
    lemma_hex_digits_distinct(a, b);
}

/// 16 to the power `count`.
pub open spec fn hex_weight(count: nat) -> nat
    decreases count,
{
    if count == 0 {
        1
    } else {
        16 * hex_weight((count - 1) as nat)
    }
}

proof fn lemma_hex_digits_bound(value: nat, count: nat)
    requires
        count >= 1,
        value < hex_weight(count),
    ensures
        hex_digits(value).len() <= count,
    decreases count,
{
    if value >= 16 {
        assert(hex_weight(1) == 16) by {
            reveal_with_fuel(hex_weight, 2);
        }
        assert(count >= 2);
        lemma_hex_digits_bound(value / 16, (count - 1) as nat);
    }
}

/// The text form of a field element is never longer than 65 characters: the
/// marker and at most 63 digits.
pub proof fn hash_text_is_short(value: nat)
    requires
        value < field_modulus(),
    ensures
        hash_text(value).len() <= 65,
{
    assert(field_modulus() <= hex_weight(63)) by {
        reveal_with_fuel(hex_weight, 64);
    }
    lemma_hex_digits_bound(value, 63);
}

/// Every text form starts with the marker `0x` and holds a digit after it.
pub proof fn hash_text_has_marker(value: nat)
    ensures
        hash_text(value).len() >= 3,
        hash_text(value)[0] == '0',
        hash_text(value)[1] == 'x',
{
    lemma_hex_digits_len(value);
}

/// `FieldElement::from_bytes_be`, and the `{:#x}` form of the element it
/// gives: `None` where the number that the bytes write is not below the
/// modulus, else `0x` and that number in lower-case hexadecimal without
/// leading zeros.
#[verifier::external_body]
fn field_element_text(bytes: &[u8; 32]) -> (text: Option<String>)
    ensures
        text is Some <==> be_value(bytes@) < field_modulus(),
        text matches Some(t) ==> t@ == hash_text(be_value(bytes@)),
{
    starknet_crypto::FieldElement::from_bytes_be(bytes).ok().map(|element| format!("{:#x}", element))
}

/// The content hash that goes with a digest, where the digest is a field
/// element.
pub open spec fn content_hash_of(digest: Seq<u8>) -> Result<Seq<char>, ArtifactError> {
    if be_value(digest) < field_modulus() {
        Ok(hash_text(be_value(digest)))
    } else {
        Err(ArtifactError::Hash)
    }
}

/// The content hash tells digests apart: two digests of one length that have
/// the same content hash are the same digest.
pub proof fn content_hash_tells_digests_apart(first: Seq<u8>, second: Seq<u8>)
    requires
        first.len() == second.len(),
        content_hash_of(first) is Ok,
        content_hash_of(first) == content_hash_of(second),
    ensures
        first == second,
{
    hash_text_is_injective(be_value(first), be_value(second));
    lemma_be_value_distinct(first, second);
}

/// The digest or the error in `digest`, the digest by its view.
pub open spec fn digest_view(digest: Result<[u8; 32], ArtifactError>) -> Result<
    Seq<u8>,
    ArtifactError,
> {
    match digest {
        Ok(bytes) => Ok(bytes@),
        Err(e) => Err(e),
    }
}

/// The content hash or the error in `hash`, the hash by its view.
pub open spec fn hash_view(hash: Result<String, ArtifactError>) -> Result<
    Seq<char>,
    ArtifactError,
> {
    match hash {
        Ok(text) => Ok(text@),
        Err(e) => Err(e),
    }
}

/// Renders a 32-byte big-endian digest as a content hash.
pub fn render_digest(digest: &[u8; 32]) -> (hash: Result<String, ArtifactError>)
    ensures
        hash_view(hash) == content_hash_of(digest@),
{
    match field_element_text(digest) {
        Some(text) => Ok(text),
        None => Err(ArtifactError::Hash),
    }
}

} // verus!
