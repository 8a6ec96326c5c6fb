//! BER-TLV encoding of decoded values, with minimal lengths.
use vstd::prelude::*;

use crate::dol::{
    lemma_pow100_pos, numeric_bytes, pack_digits, pow100, push_digits, push_numeric, DOLEntry,
};
use crate::prefix::{append_bytes, encode_tl, tl_bytes};
use crate::value::{Field, Value};

verus! {

/// Bytes of BCD that `n` needs: none for zero.
pub open spec fn bcd_len(n: nat) -> nat
    decreases n,
{
    if n == 0 {
        0
    } else {
        1 + bcd_len(n / 100)
    }
}

/// The tag/length prefixes of the entries of a Data Object List.
pub open spec fn entries_bytes(es: Seq<DOLEntry>) -> Seq<u8>
    decreases es.len(),
{
    if es.len() == 0 {
        Seq::empty()
    } else {
        entries_bytes(es.drop_last()) + tl_bytes(es.last().tag, es.last().size as nat)
    }
}

/// The encoding of a value: strings and binary as their bytes, numbers in
/// as few BCD bytes as they need, digit strings packed with 0xF padding,
/// templates as their fields, lists as their entries' prefixes.
pub open spec fn value_bytes(v: Value) -> Seq<u8>
    decreases v,
{
    match v {
        Value::Alphabetic(s) => vstd::utf8::encode_utf8(s@),
        Value::Alphanumeric(s) => vstd::utf8::encode_utf8(s@),
        Value::AlphanumericSpecial(s) => vstd::utf8::encode_utf8(s@),
        Value::Binary(b) => b@,
        Value::DigitString(d) => pack_digits(d@, ((d@.len() + 1) / 2) as nat),
        Value::Numeric(n) => numeric_bytes(n as nat, bcd_len(n as nat)),
        Value::Template(fs) => fields_bytes(fs@),
        Value::Dol(d) => entries_bytes(d@),
    }
}

/// The encoding of a field: minimal tag/length prefix, then the value.
pub open spec fn field_bytes(f: Field) -> Seq<u8>
    decreases f,
{
    tl_bytes(f.tag, value_bytes(f.value).len()) + value_bytes(f.value)
}

/// The encodings of `fs`, one after the other.
pub open spec fn fields_bytes(fs: Seq<Field>) -> Seq<u8>
    decreases fs,
{
    if fs.len() == 0 {
        Seq::empty()
    } else {
        fields_bytes(fs.subrange(0, fs.len() - 1)) + field_bytes(fs[fs.len() - 1])
    }
}

fn bcd_len_exec(n: u128) -> (r: usize)
    ensures
        r == bcd_len(n as nat),
{
    let mut k: usize = 0;
    let mut m: u128 = n;
    proof {
        assert(pow100(0) == 1);
        assert(u128::MAX as nat / 1 == u128::MAX as nat);
    }
    while m > 0
        invariant
            bcd_len(n as nat) == k + bcd_len(m as nat),
            k <= 20,
            m as nat <= u128::MAX as nat / pow100(k as nat),
        decreases m,
    {
        proof {
            assert(k < 20) by {
                if k >= 20 {
                    lemma_pow100_big(k as nat);
                }
            }
            assert((m / 100) as nat <= u128::MAX as nat / pow100((k + 1) as nat)) by {
                lemma_pow100_pos(k as nat);
                lemma_div_step(m as nat, u128::MAX as nat, pow100(k as nat));
            }
        }
        m = m / 100;
        k = k + 1;
    }
    k
}


proof fn lemma_pow100_big(k: nat)
    requires
        k >= 20,
    ensures
        u128::MAX as nat / pow100(k) == 0,
    decreases k,
{
    if k == 20 {
        reveal_with_fuel(pow100, 21);
        assert(pow100(20) == 1_0000_000000_000000_000000_000000_000000_000000);
    } else {
        lemma_pow100_big((k - 1) as nat);
        lemma_pow100_pos((k - 1) as nat);
        assert(u128::MAX as nat / pow100(k) == 0) by (nonlinear_arith)
            requires
                u128::MAX as nat / pow100((k - 1) as nat) == 0,
                pow100((k - 1) as nat) >= 1,
                pow100(k) == 100 * pow100((k - 1) as nat),
        ;
    }
}


proof fn lemma_div_step(m: nat, top: nat, p: nat)
    requires
        p >= 1,
        m <= top / p,
    ensures
        m / 100 <= top / (100 * p),
{
    assert(m / 100 <= top / (100 * p)) by (nonlinear_arith)
        requires
            p >= 1,
            m <= top / p,
    ;
}

/// Appends the encoding of `v` to `out`.
pub fn encode_value(v: &Value, out: &mut Vec<u8>)
    ensures
        final(out)@ == old(out)@ + value_bytes(*v),
    decreases *v,
{
    let ghost start = out@;
    match v {
        Value::Alphabetic(s) => append_bytes(out, s.as_str().as_bytes()),
        Value::Alphanumeric(s) => append_bytes(out, s.as_str().as_bytes()),
        Value::AlphanumericSpecial(s) => append_bytes(out, s.as_str().as_bytes()),
        Value::Binary(b) => append_bytes(out, b.as_slice()),
        Value::DigitString(d) => push_digits(d.as_slice(), d.len() / 2 + d.len() % 2, out),
        Value::Numeric(n) => push_numeric(*n, bcd_len_exec(*n), out),
        Value::Template(fs) => {
            let mut i: usize = 0;
            while i < fs.len()
                invariant
                    i <= fs@.len(),
                    *v == Value::Template(*fs),
                    out@ == start + fields_bytes(fs@.subrange(0, i as int)),
                decreases fs.len() - i,
            {
                proof {
                    assert(fs@.subrange(0, i + 1).subrange(0, i as int) =~= fs@.subrange(0, i as int));
                }
                proof {
                    vstd::std_specs::vec::axiom_vec_index_decreases(*fs, i as int);
                    assert(decreases_to!(*v => (*v)->Template_0));
                }
                let b = encode_field(&fs[i]);
                append_bytes(out, b.as_slice());
                proof {
                    assert(out@ =~= start + fields_bytes(fs@.subrange(0, i + 1)));
                }
                i += 1;
            }
            proof {
                assert(fs@.subrange(0, i as int) =~= fs@);
            }
        },
        Value::Dol(d) => {
            let entries = d.get_entries();
            let mut i: usize = 0;
            while i < entries.len()
                invariant
                    i <= entries@.len(),
                    entries@ == d@,
                    out@ == start + entries_bytes(entries@.subrange(0, i as int)),
                decreases entries.len() - i,
            {
                proof {
                    assert(entries@.subrange(0, i + 1).drop_last() =~= entries@.subrange(0, i as int));
                }
                encode_tl(entries[i].tag, entries[i].size, out);
                i += 1;
            }
            proof {
                assert(entries@.subrange(0, i as int) =~= entries@);
            }
        },
    }
}

/// Encodes a field with a minimal tag/length prefix.
pub fn encode_field(f: &Field) -> (r: Vec<u8>)
    ensures
        r@ == field_bytes(*f),
    decreases *f,
{
    let mut body: Vec<u8> = Vec::new();
    encode_value(&f.value, &mut body);
    let mut out: Vec<u8> = Vec::new();
    encode_tl(f.tag, body.len(), &mut out);
    append_bytes(&mut out, body.as_slice());
    proof {
        assert(body@ =~= value_bytes(f.value));
    }
    out
}

/// Encodes the fields of a template, one after the other.
pub fn encode_fields(fs: &Vec<Field>) -> (r: Vec<u8>)
    ensures
        r@ == fields_bytes(fs@),
{
    let mut out: Vec<u8> = Vec::new();
    let mut i: usize = 0;
    while i < fs.len()
        invariant
            i <= fs@.len(),
            out@ == fields_bytes(fs@.subrange(0, i as int)),
        decreases fs.len() - i,
    {
        proof {
            assert(fs@.subrange(0, i + 1).subrange(0, i as int) =~= fs@.subrange(0, i as int));
        }
        let b = encode_field(&fs[i]);
        append_bytes(&mut out, b.as_slice());
        proof {
            assert(out@ =~= fields_bytes(fs@.subrange(0, i + 1)));
        }
        i += 1;
    }
    proof {
        assert(fs@.subrange(0, i as int) =~= fs@);
    }
    out
}


} // verus!
