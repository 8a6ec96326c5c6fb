//! Packed-BCD and character-set primitives of EMV value encodings.
use vstd::prelude::*;

use crate::errors::{DecodeError, StringType};

verus! {

/// Nibble `i` of `raw`, high nibble of each byte first.
pub open spec fn nibble(raw: Seq<u8>, i: int) -> u8 {
    if i % 2 == 0 {
        raw[i / 2] >> 4
    } else {
        raw[i / 2] & 0x0f
    }
}

/// The first nibble above 9 among the first `n` nibbles.
pub open spec fn first_bad(raw: Seq<u8>, n: nat) -> Option<u8>
    decreases n,
{
    if n == 0 {
        None
    } else {
        match first_bad(raw, (n - 1) as nat) {
            Some(d) => Some(d),
            None => if nibble(raw, n - 1) > 9 {
                Some(nibble(raw, n - 1))
            } else {
                None
            },
        }
    }
}

/// The index of the first 0xF nibble among the first `n` nibbles, or `n`.
pub open spec fn first_f(raw: Seq<u8>, n: nat) -> nat
    decreases n,
{
    if n == 0 {
        0
    } else {
        let p = first_f(raw, (n - 1) as nat);
        if p < n - 1 {
            p
        } else if nibble(raw, n - 1) == 15 {
            (n - 1) as nat
        } else {
            n
        }
    }
}

/// The first `n` nibbles read as a decimal number.
pub open spec fn decimal(raw: Seq<u8>, n: nat) -> nat
    decreases n,
{
    if n == 0 {
        0
    } else {
        (decimal(raw, (n - 1) as nat) * 10 + nibble(raw, n - 1)) as nat
    }
}

pub open spec fn pow10(n: nat) -> nat
    decreases n,
{
    if n == 0 {
        1
    } else {
        10 * pow10((n - 1) as nat)
    }
}

/// The digits of a compressed numeric value: nibbles up to the first 0xF.
pub open spec fn cn_digits(raw: Seq<u8>) -> Seq<u8> {
    Seq::new(first_f(raw, 2 * raw.len()), |i: int| nibble(raw, i))
}

/// Decoding of a compressed numeric value (at most ten bytes).
pub open spec fn cn_spec(raw: Seq<u8>) -> Result<Seq<u8>, DecodeError> {
    if raw.len() > 10 {
        Err(DecodeError::LengthTooLong(10, raw.len() as usize))
    } else {
        match first_bad(raw, first_f(raw, 2 * raw.len())) {
            Some(d) => Err(DecodeError::BadBcd(d)),
            None => Ok(cn_digits(raw)),
        }
    }
}

/// Decoding of a numeric value: at most 19 bytes (38 digits), all nibbles 0-9.
pub open spec fn numeric_spec(raw: Seq<u8>) -> Result<u128, DecodeError> {
    if raw.len() > 19 {
        Err(DecodeError::LengthTooLong(19, raw.len() as usize))
    } else {
        match first_bad(raw, 2 * raw.len()) {
            Some(d) => Err(DecodeError::BadBcd(d)),
            None => Ok(decimal(raw, 2 * raw.len()) as u128),
        }
    }
}

/// Whether byte `b` belongs to the character set `t`.
pub open spec fn in_charset(t: StringType, b: u8) -> bool {
    let alpha = (0x41 <= b <= 0x5a) || (0x61 <= b <= 0x7a);
    match t {
        StringType::Alphabetic => alpha,
        StringType::Alphanumeric => alpha || (0x30 <= b <= 0x39),
        StringType::AlphanumericSpecial => 0x20 <= b <= 0x7e,
    }
}

/// The first byte of `raw` outside the character set `t`.
pub open spec fn first_outside(t: StringType, raw: Seq<u8>) -> Option<u8>
    decreases raw.len(),
{
    if raw.len() == 0 {
        None
    } else if !in_charset(t, raw[0]) {
        Some(raw[0])
    } else {
        first_outside(t, raw.drop_first())
    }
}

/// Bytes read as characters, one each.
pub open spec fn ascii_chars(raw: Seq<u8>) -> Seq<char> {
    Seq::new(raw.len(), |i: int| raw[i] as char)
}

proof fn lemma_nibble_bounds(b: u8)
    ensures
        b >> 4 <= 15,
        b & 0x0f <= 15,
{
    assert(b >> 4 <= 15) by (bit_vector);
    assert(b & 0x0f <= 15) by (bit_vector);
}

/// A bad nibble found in a prefix is the first bad nibble of any longer prefix.
proof fn lemma_first_bad_extends(raw: Seq<u8>, a: nat, b: nat)
    requires
        a <= b,
        first_bad(raw, a) is Some,
    ensures
        first_bad(raw, b) == first_bad(raw, a),
    decreases b,
{
    if b > a {
        lemma_first_bad_extends(raw, a, (b - 1) as nat);
    }
}

/// How the first 0xF nibble of a prefix relates to that of a longer prefix.
proof fn lemma_first_f_mono(raw: Seq<u8>, a: nat, b: nat)
    requires
        a <= b,
    ensures
        first_f(raw, a) <= a,
        first_f(raw, a) < a ==> first_f(raw, b) == first_f(raw, a),
        first_f(raw, a) == a ==> first_f(raw, b) >= a,
    decreases b,
{
    if b > a {
        lemma_first_f_mono(raw, a, (b - 1) as nat);
    } else {
        lemma_first_f_le(raw, a);
    }
}

pub(crate) proof fn lemma_first_f_le(raw: Seq<u8>, n: nat)
    ensures
        first_f(raw, n) <= n,
    decreases n,
{
    if n > 0 {
        lemma_first_f_le(raw, (n - 1) as nat);
    }
}

proof fn lemma_pow10_mono(a: nat, b: nat)
    requires
        a <= b,
    ensures
        pow10(a) <= pow10(b),
    decreases b,
{
    if b > a {
        lemma_pow10_mono(a, (b - 1) as nat);
    }
}

/// One byte read as two decimal digits is at most 165.
pub proof fn lemma_byte_decimal(b: u8)
    ensures
        decimal(seq![b], 2) <= 165,
{
    reveal_with_fuel(decimal, 3);
    lemma_nibble_bounds(b);
    assert(nibble(seq![b], 0) == b >> 4);
    assert(nibble(seq![b], 1) == b & 0x0f);
}

/// Nibble `k` of `raw`.
fn get_nibble(raw: &[u8], k: usize) -> (r: u8)
    requires
        k < 2 * raw@.len(),
    ensures
        r == nibble(raw@, k as int),
        r <= 15,
{
    proof {
        lemma_nibble_bounds(raw@[(k / 2) as int]);
    }
    if k % 2 == 0 {
        raw[k / 2] >> 4
    } else {
        raw[k / 2] & 0x0f
    }
}

/// Decodes a numeric (BCD) value into an integer.
pub fn numeric(raw: &[u8]) -> (r: Result<u128, DecodeError>)
    ensures
        r == numeric_spec(raw@),
{
    if raw.len() > 19 {
        return Err(DecodeError::LengthTooLong(19, raw.len()));
    }
    let n: usize = 2 * raw.len();
    let mut acc: u128 = 0;
    let mut k: usize = 0;
    proof {
        reveal_with_fuel(pow10, 39);
        lemma_pow10_mono(n as nat, 38);
    }
    while k < n
        invariant
            n == 2 * raw@.len(),
            n <= 38,
            k <= n,
            pow10(n as nat) <= 100000000000000000000000000000000000000,
            first_bad(raw@, k as nat) is None,
            acc == decimal(raw@, k as nat),
            decimal(raw@, k as nat) < pow10(k as nat),
        decreases n - k,
    {
        let d = get_nibble(raw, k);
        if d > 9 {
            proof {
                lemma_first_bad_extends(raw@, (k + 1) as nat, n as nat);
            }
            return Err(DecodeError::BadBcd(d));
        }
        proof {
            lemma_pow10_mono((k + 1) as nat, n as nat);
        }
        acc = acc * 10 + d as u128;
        k += 1;
    }
    Ok(acc)
}

/// Decodes a compressed numeric value into its digits.
pub fn compressed_numeric(raw: &[u8]) -> (r: Result<Vec<u8>, DecodeError>)
    ensures
        match r {
            Ok(d) => cn_spec(raw@) == Ok::<Seq<u8>, DecodeError>(d@),
            Err(e) => cn_spec(raw@) == Err::<Seq<u8>, DecodeError>(e),
        },
{
    if raw.len() > 10 {
        return Err(DecodeError::LengthTooLong(10, raw.len()));
    }
    let n: usize = 2 * raw.len();
    let mut digits: Vec<u8> = Vec::new();
    let mut k: usize = 0;
    while k < n
        invariant
            n == 2 * raw@.len(),
            raw@.len() <= 10,
            k <= n,
            first_f(raw@, k as nat) == k,
            first_bad(raw@, k as nat) is None,
            digits@ =~= Seq::new(k as nat, |i: int| nibble(raw@, i)),
        decreases n - k,
    {
        let d = get_nibble(raw, k);
        if d == 15 {
            proof {
                assert(first_f(raw@, (k + 1) as nat) == k);
                lemma_first_f_mono(raw@, (k + 1) as nat, n as nat);
                assert(cn_digits(raw@) =~= digits@);
            }
            return Ok(digits);
        }
        if d > 9 {
            proof {
                assert(first_f(raw@, (k + 1) as nat) == k + 1);
                assert(first_bad(raw@, (k + 1) as nat) == Some(d));
                lemma_first_f_mono(raw@, (k + 1) as nat, n as nat);
                lemma_first_bad_extends(raw@, (k + 1) as nat, first_f(raw@, n as nat));
            }
            return Err(DecodeError::BadBcd(d));
        }
        digits.push(d);
        k += 1;
    }
    proof {
        assert(cn_digits(raw@) =~= digits@);
    }
    Ok(digits)
}

/// Whether byte `b` belongs to the character set `t`.
pub fn is_in_charset(t: StringType, b: u8) -> (r: bool)
    ensures
        r == in_charset(t, b),
{
    let alpha = (0x41 <= b && b <= 0x5a) || (0x61 <= b && b <= 0x7a);
    match t {
        StringType::Alphabetic => alpha,
        StringType::Alphanumeric => alpha || (0x30 <= b && b <= 0x39),
        StringType::AlphanumericSpecial => 0x20 <= b && b <= 0x7e,
    }
}

/// Relies on `String::from_utf8`: bytes below 0x80 are valid UTF-8 and give
/// one character each.
#[verifier::external_body]
pub(crate) fn ascii_to_string(bytes: Vec<u8>) -> (r: String)
    requires
        forall|i: int| 0 <= i < bytes@.len() ==> bytes@[i] < 0x80,
    ensures
        r@ == ascii_chars(bytes@),
{
    match String::from_utf8(bytes) {
        Ok(s) => s,
        Err(_) => String::new(),
    }
}

/// Reads `raw` as a string of the character set `t`, or names the first
/// byte outside it.
pub fn restricted_charset(raw: &[u8], t: StringType) -> (r: Result<String, DecodeError>)
    ensures
        match first_outside(t, raw@) {
            Some(b) => r == Err::<String, DecodeError>(DecodeError::UnsupportedChar(t, b)),
            None => r matches Ok(s) && s@ == ascii_chars(raw@),
        },
{
    let mut i: usize = 0;
    proof {
        assert(raw@.subrange(0, raw@.len() as int) =~= raw@);
    }
    while i < raw.len()
        invariant
            i <= raw@.len(),
            first_outside(t, raw@) == first_outside(t, raw@.subrange(i as int, raw@.len() as int)),
            forall|j: int| 0 <= j < i ==> in_charset(t, #[trigger] raw@[j]),
        decreases raw.len() - i,
    {
        proof {
            assert(raw@.subrange(i as int, raw@.len() as int).drop_first() =~= raw@.subrange(
                i + 1,
                raw@.len() as int,
            ));
        }
        if !is_in_charset(t, raw[i]) {
            return Err(DecodeError::UnsupportedChar(t, raw[i]));
        }
        i += 1;
    }
    proof {
        assert(raw@.subrange(i as int, raw@.len() as int) =~= Seq::<u8>::empty());
    }
    let bytes = vstd::slice::slice_to_vec(raw);
    Ok(ascii_to_string(bytes))
}

} // verus!
