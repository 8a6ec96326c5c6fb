//! Data Object Lists: the tag and width of each value a card asks for, and
//! their encoding from the terminal's values.
use vstd::prelude::*;

use std::collections::HashMap;

use crate::decoders::{read_tl, tl_spec};
use crate::prefix::{encode_tl, tl_bytes};
use crate::errors::DecodeError;
use crate::value::Value;

verus! {

/// One requested data object: its tag and its width in bytes.
#[derive(Debug, PartialEq, Eq, Clone, Copy)]
pub struct DOLEntry {
    pub tag: u16,
    pub size: usize,
}

/// The sum of the widths of `entries`.
pub open spec fn dol_size(entries: Seq<DOLEntry>) -> int
    decreases entries.len(),
{
    if entries.len() == 0 {
        0
    } else {
        dol_size(entries.drop_last()) + entries.last().size
    }
}

/// The terminal's values by tag, from which a Data Object List is filled.
pub type OptionsMap = HashMap<u16, Value>;

/// The value of `tag` in `data`, if any.
pub open spec fn lookup(data: Map<u16, Value>, tag: u16) -> Option<Value> {
    if data.contains_key(tag) {
        Some(data[tag])
    } else {
        None
    }
}

pub open spec fn zeros(n: nat) -> Seq<u8> {
    Seq::new(n, |i: int| 0u8)
}

/// `b` cut or padded with zero bytes on the right to `n` bytes.
pub open spec fn left_justify(b: Seq<u8>, n: nat) -> Seq<u8> {
    Seq::new(n, |i: int| if i < b.len() { b[i] } else { 0u8 })
}

/// Digits packed two per byte into `n` bytes, padded with 0xF nibbles.
pub open spec fn pack_digits(d: Seq<u8>, n: nat) -> Seq<u8> {
    Seq::new(
        n,
        |i: int|
            if 2 * i + 1 < d.len() {
                (d[2 * i] << 4u8) | d[2 * i + 1]
            } else if 2 * i < d.len() {
                (d[2 * i] << 4u8) | 0x0f
            } else {
                0xffu8
            },
    )
}

pub open spec fn pow100(n: nat) -> nat
    decreases n,
{
    if n == 0 {
        1
    } else {
        100 * pow100((n - 1) as nat)
    }
}

/// Two decimal digits (below 100) as one BCD byte.
pub open spec fn bcd_byte(d: u8) -> u8 {
    ((d / 10) << 4u8) | (d % 10)
}

/// `x` as `n` bytes of BCD, right-justified and cut on the left.
pub open spec fn numeric_bytes(x: nat, n: nat) -> Seq<u8> {
    Seq::new(n, |j: int| bcd_byte(((x / pow100((n - 1 - j) as nat)) % 100) as u8))
}

/// The bytes that fill `e` from the value `v`: strings and binary
/// left-justified, numbers right-justified in BCD, digit strings packed;
/// zeros for a missing value, a template or a list.
pub open spec fn entry_bytes(e: DOLEntry, v: Option<Value>) -> Seq<u8> {
    let n = e.size as nat;
    match v {
        Some(Value::Alphabetic(s)) => left_justify(vstd::utf8::encode_utf8(s@), n),
        Some(Value::Alphanumeric(s)) => left_justify(vstd::utf8::encode_utf8(s@), n),
        Some(Value::AlphanumericSpecial(s)) => left_justify(vstd::utf8::encode_utf8(s@), n),
        Some(Value::Binary(b)) => left_justify(b@, n),
        Some(Value::DigitString(d)) => pack_digits(d@, n),
        Some(Value::Numeric(x)) => numeric_bytes(x as nat, n),
        _ => zeros(n),
    }
}

/// The entries of a list filled from `data`, in order.
pub open spec fn dol_body(entries: Seq<DOLEntry>, data: Map<u16, Value>) -> Seq<u8>
    decreases entries.len(),
{
    if entries.len() == 0 {
        Seq::empty()
    } else {
        dol_body(entries.drop_last(), data) + entry_bytes(
            entries.last(),
            lookup(data, entries.last().tag),
        )
    }
}

/// The encoded length of a Data Object List is the sum of its widths,
/// whatever values fill it.
pub proof fn lemma_dol_body_len(entries: Seq<DOLEntry>, data: Map<u16, Value>)
    ensures
        dol_body(entries, data).len() == dol_size(entries),
    decreases entries.len(),
{
    if entries.len() > 0 {
        lemma_dol_body_len(entries.drop_last(), data);
    }
}

/// The entries of a Data Object List, from the tag/length prefixes of `raw`.
pub open spec fn dol_parse(raw: Seq<u8>) -> Result<Seq<DOLEntry>, DecodeError>
    decreases raw.len(),
{
    if raw.len() == 0 {
        Ok(Seq::empty())
    } else {
        match tl_spec(raw) {
            Err(e) => Err(e),
            Ok((tag, size, hl)) => match dol_parse(raw.subrange(hl as int, raw.len() as int)) {
                Err(e) => Err(e),
                Ok(rest) => Ok(seq![DOLEntry { tag, size }] + rest),
            },
        }
    }
}

/// Decoding of a Data Object List: its entries, whose widths must sum to a `usize`.
pub open spec fn dol_result(raw: Seq<u8>) -> Result<Seq<DOLEntry>, DecodeError> {
    match dol_parse(raw) {
        Err(e) => Err(e),
        Ok(entries) => if dol_size(entries) > usize::MAX {
            Err(DecodeError::LengthTooLong(usize::MAX, usize::MAX))
        } else {
            Ok(entries)
        },
    }
}

/// A Data Object List, with the total width of its entries.
#[derive(Debug, PartialEq, Eq)]
pub struct Dol {
    entries: Vec<DOLEntry>,
    size: usize,
}

impl View for Dol {
    type V = Seq<DOLEntry>;

    closed spec fn view(&self) -> Seq<DOLEntry> {
        self.entries@
    }
}

impl Dol {
    #[verifier::type_invariant]
    closed spec fn inv(&self) -> bool {
        self.size == dol_size(self.entries@)
    }

    /// A list of `entries`, whose widths must sum to a `usize`.
    pub fn new_from_entries(entries: Vec<DOLEntry>) -> (r: Self)
        requires
            dol_size(entries@) <= usize::MAX,
        ensures
            r@ == entries@,
    {
        let mut size: usize = 0;
        let mut i: usize = 0;
        while i < entries.len()
            invariant
                0 <= i <= entries.len(),
                dol_size(entries@) <= usize::MAX,
                size == dol_size(entries@.subrange(0, i as int)),
            decreases entries.len() - i,
        {
            proof {
                lemma_dol_size_prefix_le(entries@, i as int + 1);
                assert(entries@.subrange(0, i + 1).drop_last() =~= entries@.subrange(0, i as int));
            }
            size = size + entries[i].size;
            i += 1;
        }
        proof {
            assert(entries@.subrange(0, i as int) =~= entries@);
        }
        Dol { entries, size }
    }

    /// Decodes a Data Object List: tag/length prefixes without values.
    pub fn from_bytes(raw: &[u8]) -> (r: Result<Self, DecodeError>)
        ensures
            match r {
                Ok(d) => dol_result(raw@) == Ok::<Seq<DOLEntry>, DecodeError>(d@),
                Err(e) => dol_result(raw@) == Err::<Seq<DOLEntry>, DecodeError>(e),
            },
    {
        let mut entries: Vec<DOLEntry> = Vec::new();
        let mut rest: &[u8] = raw;
        proof {
            assert(entries@ + Seq::<DOLEntry>::empty() =~= Seq::<DOLEntry>::empty());
            assert forall|t: Seq<DOLEntry>| entries@ + t =~= t by {}
        }
        while rest.len() > 0
            invariant
                dol_parse(raw@) == match dol_parse(rest@) {
                    Ok(t) => Ok(entries@ + t),
                    Err(e) => Err::<Seq<DOLEntry>, DecodeError>(e),
                },
            decreases rest@.len(),
        {
            match read_tl(rest) {
                Err(e) => {
                    return Err(e);
                },
                Ok((tag, size, hl)) => {
                    let ghost old_rest = rest@;
                    let ghost old_entries = entries@;
                    rest = vstd::slice::slice_subrange(rest, hl, rest.len());
                    entries.push(DOLEntry { tag, size });
                    proof {
                        assert forall|t: Seq<DOLEntry>|
                            old_entries + (seq![DOLEntry { tag, size }] + t) =~= entries@ + t by {}
                    }
                },
            }
        }
        proof {
            assert(entries@ + Seq::<DOLEntry>::empty() =~= entries@);
        }
        let mut size: usize = 0;
        let mut i: usize = 0;
        while i < entries.len()
            invariant
                0 <= i <= entries.len(),
                dol_parse(raw@) == Ok::<Seq<DOLEntry>, DecodeError>(entries@),
                size == dol_size(entries@.subrange(0, i as int)),
            decreases entries.len() - i,
        {
            proof {
                assert(entries@.subrange(0, i + 1).drop_last() =~= entries@.subrange(0, i as int));
            }
            match size.checked_add(entries[i].size) {
                Some(s) => {
                    size = s;
                },
                None => {
                    proof {
                        lemma_dol_size_prefix_le(entries@, i + 1);
                    }
                    return Err(DecodeError::LengthTooLong(usize::MAX, usize::MAX));
                },
            }
            i += 1;
        }
        proof {
            assert(entries@.subrange(0, i as int) =~= entries@);
        }
        Ok(Dol { entries, size })
    }

    /// Fills the list from `data`; with `tag`, the payload is preceded by the
    /// minimal tag/length prefix of `tag` and the total width.
    pub fn encode(&self, tag: Option<u16>, data: &OptionsMap) -> (r: Vec<u8>)
        ensures
            r@ == match tag {
                Some(t) => tl_bytes(t, dol_size(self@) as nat) + dol_body(self@, data@),
                None => dol_body(self@, data@),
            },
            r@.len() == match tag {
                Some(t) => tl_bytes(t, dol_size(self@) as nat).len() + dol_size(self@),
                None => dol_size(self@),
            },
    {
        broadcast use vstd::std_specs::hash::group_hash_axioms;

        proof {
            use_type_invariant(self);
        }
        let mut out: Vec<u8> = Vec::new();
        match tag {
            Some(t) => encode_tl(t, self.size, &mut out),
            None => {},
        }
        let ghost start = out@;
        let mut i: usize = 0;
        while i < self.entries.len()
            invariant
                i <= self.entries@.len(),
                out@ == start + dol_body(self.entries@.subrange(0, i as int), data@),
            decreases self.entries.len() - i,
        {
            let entry = self.entries[i];
            let ghost before = out@;
            match data.get(&entry.tag) {
                Some(v) => Self::encode_entry(entry, v, &mut out),
                None => push_zeros(entry.size, &mut out),
            }
            proof {
                let s = self.entries@.subrange(0, i + 1);
                assert(s.drop_last() =~= self.entries@.subrange(0, i as int));
                assert(out@ =~= start + dol_body(s, data@));
            }
            i += 1;
        }
        proof {
            assert(self.entries@.subrange(0, i as int) =~= self.entries@);
            lemma_dol_body_len(self@, data@);
        }
        out
    }

    fn encode_entry(e: DOLEntry, v: &Value, out: &mut Vec<u8>)
        ensures
            final(out)@ == old(out)@ + entry_bytes(e, Some(*v)),
    {
        match v {
            Value::Alphabetic(s) => Self::copy_bytes(s.as_str().as_bytes(), e.size, out),
            Value::Alphanumeric(s) => Self::copy_bytes(s.as_str().as_bytes(), e.size, out),
            Value::AlphanumericSpecial(s) => Self::copy_bytes(s.as_str().as_bytes(), e.size, out),
            Value::Binary(b) => Self::copy_bytes(b.as_slice(), e.size, out),
            Value::DigitString(d) => push_digits(d.as_slice(), e.size, out),
            Value::Numeric(x) => push_numeric(*x, e.size, out),
            Value::Template(_) => push_zeros(e.size, out),
            Value::Dol(_) => push_zeros(e.size, out),
        }
    }

    /// Appends `b` cut or zero-padded on the right to `size` bytes.
    fn copy_bytes(b: &[u8], size: usize, out: &mut Vec<u8>)
        ensures
            final(out)@ == old(out)@ + left_justify(b@, size as nat),
    {
        let ghost start = out@;
        let mut i: usize = 0;
        while i < size
            invariant
                i <= size,
                out@ == start + left_justify(b@, size as nat).subrange(0, i as int),
            decreases size - i,
        {
            let byte = if i < b.len() { b[i] } else { 0u8 };
            out.push(byte);
            proof {
                assert(left_justify(b@, size as nat).subrange(0, i + 1) =~= left_justify(
                    b@,
                    size as nat,
                ).subrange(0, i as int).push(byte));
            }
            i += 1;
        }
        proof {
            assert(left_justify(b@, size as nat).subrange(0, i as int) =~= left_justify(
                b@,
                size as nat,
            ));
        }
    }

    /// The total width of the entries.
    pub fn get_size(&self) -> (r: usize)
        ensures
            r == dol_size(self@),
    {
        proof {
            use_type_invariant(self);
        }
        self.size
    }

    /// The entries in order.
    pub fn get_entries(&self) -> (r: &[DOLEntry])
        ensures
            r@ == self@,
    {
        self.entries.as_slice()
    }
}

/// Appends `size` zero bytes.
fn push_zeros(size: usize, out: &mut Vec<u8>)
    ensures
        final(out)@ == old(out)@ + zeros(size as nat),
{
    let ghost start = out@;
    let mut i: usize = 0;
    while i < size
        invariant
            i <= size,
            out@ =~= start + zeros(i as nat),
        decreases size - i,
    {
        out.push(0);
        i += 1;
    }
}

/// Appends `digits` packed into `size` bytes with 0xF padding.
pub(crate) fn push_digits(digits: &[u8], size: usize, out: &mut Vec<u8>)
    ensures
        final(out)@ == old(out)@ + pack_digits(digits@, size as nat),
{
    let ghost start = out@;
    let len = digits.len();
    let pairs = len / 2;
    let halves = len - pairs;
    let mut i: usize = 0;
    while i < size
        invariant
            i <= size,
            len == digits@.len(),
            pairs == len / 2,
            halves == len - pairs,
            out@ == start + pack_digits(digits@, size as nat).subrange(0, i as int),
        decreases size - i,
    {
        proof {
            assert(i < pairs ==> 2 * i + 1 < len);
            assert(i < halves ==> 2 * i < len);
        }
        let byte = if i < pairs {
            (digits[2 * i] << 4u8) | digits[2 * i + 1]
        } else if i < halves {
            (digits[2 * i] << 4u8) | 0x0f
        } else {
            0xffu8
        };
        out.push(byte);
        proof {
            assert(pack_digits(digits@, size as nat).subrange(0, i + 1) =~= pack_digits(
                digits@,
                size as nat,
            ).subrange(0, i as int).push(byte));
        }
        i += 1;
    }
    proof {
        assert(pack_digits(digits@, size as nat).subrange(0, i as int) =~= pack_digits(
            digits@,
            size as nat,
        ));
    }
}

pub(crate) proof fn lemma_pow100_mono(a: nat, b: nat)
    requires
        a <= b,
    ensures
        1 <= pow100(a) <= pow100(b),
    decreases b,
{
    lemma_pow100_pos(a);
    if b > a {
        lemma_pow100_mono(a, (b - 1) as nat);
    }
}

pub(crate) proof fn lemma_pow100_pos(n: nat)
    ensures
        pow100(n) >= 1,
    decreases n,
{
    if n > 0 {
        lemma_pow100_pos((n - 1) as nat);
    }
}

fn pow100_exec(n: usize) -> (r: u128)
    requires
        n < 20,
    ensures
        r == pow100(n as nat),
        r >= 1,
{
    let mut r: u128 = 1;
    let mut i: usize = 0;
    proof {
        reveal_with_fuel(pow100, 20);
        lemma_pow100_pos(n as nat);
    }
    while i < n
        invariant
            i <= n < 20,
            r == pow100(i as nat),
            pow100(18) == 1_000000_000000_000000_000000_000000_000000,
        decreases n - i,
    {
        proof {
            lemma_pow100_mono(i as nat, 18);
        }
        r = r * 100;
        i += 1;
    }
    r
}

fn encode_bcd_byte(d: u8) -> (r: u8)
    ensures
        r == bcd_byte(d),
{
    ((d / 10) << 4u8) | (d % 10)
}

/// Appends `x` as `size` bytes of right-justified BCD.
pub(crate) fn push_numeric(x: u128, size: usize, out: &mut Vec<u8>)
    ensures
        final(out)@ == old(out)@ + numeric_bytes(x as nat, size as nat),
{
    let ghost start = out@;
    proof {
        reveal_with_fuel(pow100, 21);
    }
    let mut j: usize = 0;
    while j < size
        invariant
            j <= size,
            pow100(20) == 1_0000_000000_000000_000000_000000_000000_000000,
            out@ == start + numeric_bytes(x as nat, size as nat).subrange(0, j as int),
        decreases size - j,
    {
        let k = size - 1 - j;
        let byte = if k >= 20 {
            proof {
                lemma_pow100_mono(20, k as nat);
                assert(x as nat / pow100(k as nat) == 0) by (nonlinear_arith)
                    requires
                        x < pow100(k as nat),
                ;
                assert(((0u8 / 10) << 4u8) | (0u8 % 10) == 0) by (bit_vector);
            }
            0u8
        } else {
            let p = pow100_exec(k);
            encode_bcd_byte(((x / p) % 100) as u8)
        };
        out.push(byte);
        proof {
            assert(numeric_bytes(x as nat, size as nat).subrange(0, j + 1) =~= numeric_bytes(
                x as nat,
                size as nat,
            ).subrange(0, j as int).push(byte));
        }
        j += 1;
    }
    proof {
        assert(numeric_bytes(x as nat, size as nat).subrange(0, j as int) =~= numeric_bytes(
            x as nat,
            size as nat,
        ));
    }
}

/// A prefix of a list is no wider than the list.
pub proof fn lemma_dol_size_prefix_le(entries: Seq<DOLEntry>, n: int)
    requires
        0 <= n <= entries.len(),
    ensures
        dol_size(entries.subrange(0, n)) <= dol_size(entries),
        dol_size(entries.subrange(0, n)) >= 0,
    decreases entries.len(),
{
    if n == entries.len() {
        assert(entries.subrange(0, n) =~= entries);
        lemma_dol_size_nonneg(entries);
    } else {
        assert(entries.drop_last().subrange(0, n) =~= entries.subrange(0, n));
        lemma_dol_size_prefix_le(entries.drop_last(), n);
    }
}

/// Widths are never negative.
pub proof fn lemma_dol_size_nonneg(entries: Seq<DOLEntry>)
    ensures
        dol_size(entries) >= 0,
    decreases entries.len(),
{
    if entries.len() > 0 {
        lemma_dol_size_nonneg(entries.drop_last());
    }
}

} // verus!
