//! Re-encoding decoded TLV data with minimal lengths gives back the same
//! fields, in no more bytes.
use vstd::prelude::*;

use vstd::arithmetic::div_mod::{lemma_div_denominator, lemma_fundamental_div_mod};

use crate::bcd::{
    ascii_chars, cn_digits, cn_spec, decimal, first_bad, first_f, first_outside, in_charset,
    lemma_first_f_le, nibble, numeric_spec, pow10,
};
use crate::decoders::{
    be_value, fields_error, fields_ok, tl_spec, tlv_consumed, tlv_error, value_error, value_ok,
};
use crate::dol::{
    bcd_byte, dol_parse, lemma_pow100_pos, numeric_bytes, pack_digits, pow100, DOLEntry,
};
use crate::elements::{tag_type, ElementType};
use crate::encode::{bcd_len, entries_bytes, field_bytes, fields_bytes, value_bytes};
use crate::prefix::{
    be_bytes, byte_count, length_bytes, lemma_byte_count_bound, lemma_byte_count_pos,
    lemma_pow256_pos, pow256, tag_bytes, tl_bytes,
};
use crate::errors::{DecodeError, StringType};
use crate::value::{Field, Value};

verus! {

/// A tag whose minimal encoding decodes to it: two bytes exactly where the
/// first has its low five bits set.
pub open spec fn canonical_tag(tag: u16) -> bool {
    if tag >= 0x100 {
        (tag / 256) as u8 & 0x1f == 0x1f
    } else {
        (tag as u8) & 0x1f != 0x1f
    }
}

proof fn lemma_be_bytes_value(x: nat, n: nat)
    requires
        x < pow256(n),
    ensures
        be_value(be_bytes(x, n)) == x,
    decreases n,
{
    if n == 0 {
        assert(be_bytes(x, n) =~= Seq::<u8>::empty());
    } else {
        let b = be_bytes(x, n);
        let q = x / 256;
        lemma_pow256_pos((n - 1) as nat);
        assert(q < pow256((n - 1) as nat)) by (nonlinear_arith)
            requires
                x < 256 * pow256((n - 1) as nat),
                q == x / 256,
        ;
        assert forall|i: int| 0 <= i < n - 1 implies #[trigger] b.drop_last()[i] == be_bytes(
            q,
            (n - 1) as nat,
        )[i] by {
            let k = (n - 2 - i) as nat;
            lemma_pow256_pos(k);
            lemma_div_denominator(x as int, 256, pow256(k) as int);
            assert(pow256((n - 1 - i) as nat) == 256 * pow256(k));
        }
        assert(b.drop_last() =~= be_bytes(q, (n - 1) as nat));
        lemma_be_bytes_value(q, (n - 1) as nat);
        assert(pow256(0) == 1);
        assert(b[n - 1] == ((x / pow256((n - 1 - (n - 1)) as nat)) % 256) as u8);
        assert(x / 1 == x);
        assert(b.last() == x % 256);
        lemma_fundamental_div_mod(x as int, 256);
        assert(be_value(b) == be_value(b.drop_last()) * 256 + b.last());
    }
}

proof fn lemma_be_value_bound(s: Seq<u8>)
    ensures
        be_value(s) < pow256(s.len()),
    decreases s.len(),
{
    if s.len() > 0 {
        lemma_be_value_bound(s.drop_last());
        let p = pow256((s.len() - 1) as nat);
        assert(be_value(s.drop_last()) * 256 + s.last() < 256 * p) by (nonlinear_arith)
            requires
                be_value(s.drop_last()) < p,
                s.last() < 256,
        ;
    }
}

proof fn lemma_byte_count_mono(a: nat, b: nat)
    requires
        a <= b,
    ensures
        byte_count(a) <= byte_count(b),
    decreases b,
{
    if a >= 256 {
        assert(a / 256 <= b / 256) by (nonlinear_arith)
            requires
                a <= b,
        ;
        lemma_byte_count_mono(a / 256, b / 256);
    } else {
        lemma_byte_count_pos(b);
    }
}

/// A shorter value needs no longer a length field.
pub proof fn lemma_length_bytes_mono(a: nat, b: nat)
    requires
        a <= b,
    ensures
        length_bytes(a).len() <= length_bytes(b).len(),
{
    lemma_byte_count_mono(a, b);
    lemma_byte_count_pos(a);
}

/// What a tag/length prefix decodes to: a canonical tag, a length below
/// 2^32, and a prefix no shorter than the minimal one.
pub proof fn lemma_tl_decoded(raw: Seq<u8>)
    requires
        tl_spec(raw) is Ok,
    ensures
        ({
            let (tag, len, hl) = tl_spec(raw)->Ok_0;
            &&& canonical_tag(tag)
            &&& len <= 0xffff_ffff
            &&& tl_bytes(tag, len as nat).len() <= hl
        }),
{
    let (tag, len, hl) = tl_spec(raw)->Ok_0;
    let b0 = raw[0];
    if b0 & 0x1f == 0x1f {
        let b1 = raw[1];
        assert(tag == b0 * 256 + b1);
        assert(tag >= 0x100) by (bit_vector)
            requires
                b0 & 0x1f == 0x1f,
                tag == b0 * 256 + b1,
        ;
    }
    let tag_len: nat = if b0 & 0x1f == 0x1f { 2 } else { 1 };
    assert(tag_bytes(tag).len() == tag_len);
    let first = raw[tag_len as int];
    if first & 0x80 == 0x80 {
        let n: nat = (first & 0x7f) as nat;
        let body = raw.subrange(tag_len + 1 as int, tag_len + 1 + n as int);
        lemma_be_value_bound(body);
        reveal_with_fuel(pow256, 5);
        crate::prefix::lemma_pow256_mono(n, 4);
        assert(be_value(body) <= 0xffff_ffff);
        if n >= 1 {
            lemma_byte_count_bound(be_value(body), n);
        } else {
            assert(body.len() == 0);
        }
    } else {
        assert(first < 128) by (bit_vector)
            requires
                !(first & 0x80 == 0x80),
        ;
    }
}

/// A minimal prefix of a canonical tag and a length below 2^32 decodes to them.
pub proof fn lemma_tl_parse(tag: u16, len: nat, rest: Seq<u8>)
    requires
        canonical_tag(tag),
        len <= 0xffff_ffff,
    ensures
        tl_spec(tl_bytes(tag, len) + rest) == Ok::<(u16, usize, usize), crate::errors::DecodeError>(
            (tag, len as usize, tl_bytes(tag, len).len() as usize),
        ),
{
    let raw = tl_bytes(tag, len) + rest;
    let t = tag_bytes(tag);
    let l = length_bytes(len);
    assert(raw =~= t + l + rest);
    if tag >= 0x100 {
        let hi = (tag / 256) as u8;
        let lo = (tag % 256) as u8;
        assert(raw[0] == hi && raw[1] == lo);
        assert(hi * 256 + lo == tag);
    } else {
        assert(raw[0] == tag as u8);
    }
    let tl = t.len();
    assert(raw[tl as int] == l[0]);
    if len < 128 {
        let b = len as u8;
        assert(!(b & 0x80 == 0x80)) by (bit_vector)
            requires
                b < 128,
        ;
    } else {
        reveal_with_fuel(pow256, 5);
        lemma_byte_count_bound(len, 4);
        let n = byte_count(len);
        let nb = n as u8;
        let b = (0x80 + n) as u8;
        assert(b == 0x80 + nb);
        assert(b & 0x80 == 0x80 && (b & 0x7f) == nb) by (bit_vector)
            requires
                b == 0x80 + nb,
                1 <= nb <= 4,
        ;
        assert(raw.subrange(tl + 1 as int, tl + 1 + n as int) =~= be_bytes(len, n));
        lemma_be_bytes_value(len, n);
    }
}

proof fn lemma_all_in_charset(t: StringType, raw: Seq<u8>)
    requires
        first_outside(t, raw) is None,
    ensures
        forall|i: int| 0 <= i < raw.len() ==> in_charset(t, #[trigger] raw[i]),
    decreases raw.len(),
{
    if raw.len() > 0 {
        lemma_all_in_charset(t, raw.drop_first());
        assert forall|i: int| 0 <= i < raw.len() implies in_charset(t, #[trigger] raw[i]) by {
            if i > 0 {
                assert(raw[i] == raw.drop_first()[i - 1]);
            }
        }
    }
}

/// A string value decoded from `raw` encodes back to `raw`.
proof fn lemma_string_bytes(t: StringType, raw: Seq<u8>)
    requires
        first_outside(t, raw) is None,
    ensures
        vstd::utf8::encode_utf8(ascii_chars(raw)) == raw,
{
    lemma_all_in_charset(t, raw);
    let chars = ascii_chars(raw);
    assert forall|i: int| 0 <= i < chars.len() implies '\0' <= #[trigger] chars[i] <= '\u{7f}' by {
        assert(in_charset(t, raw[i]));
        assert(raw[i] < 0x80);
    }
    vstd::utf8::is_ascii_chars_encode_utf8(chars);
    assert(vstd::utf8::encode_utf8(chars) =~= raw);
}

proof fn lemma_first_bad_none(raw: Seq<u8>, n: nat)
    ensures
        first_bad(raw, n) is None <==> forall|i: int| 0 <= i < n ==> #[trigger] nibble(raw, i) <= 9,
    decreases n,
{
    if n > 0 {
        lemma_first_bad_none(raw, (n - 1) as nat);
    }
}

proof fn lemma_first_f_none(raw: Seq<u8>, n: nat)
    requires
        forall|i: int| 0 <= i < n ==> #[trigger] nibble(raw, i) != 15,
    ensures
        first_f(raw, n) == n,
    decreases n,
{
    if n > 0 {
        lemma_first_f_none(raw, (n - 1) as nat);
    }
}


proof fn lemma_pack_nibbles(a: u8, b: u8)
    requires
        a <= 9,
        b <= 15,
    ensures
        ((a << 4u8) | b) >> 4u8 == a,
        ((a << 4u8) | b) & 0x0f == b,
{
    assert(((a << 4u8) | b) >> 4u8 == a) by (bit_vector)
        requires
            a <= 9,
            b <= 15,
    ;
    assert(((a << 4u8) | b) & 0x0f == b) by (bit_vector)
        requires
            a <= 9,
            b <= 15,
    ;
}

/// A digit string decoded from `raw` packs back into no more bytes, which
/// decode to the same digits.
proof fn lemma_digits_round_trip(raw: Seq<u8>, d: Seq<u8>)
    requires
        cn_spec(raw) == Ok::<Seq<u8>, DecodeError>(d),
    ensures
        ({
            let p = pack_digits(d, ((d.len() + 1) / 2) as nat);
            &&& cn_spec(p) == Ok::<Seq<u8>, DecodeError>(d)
            &&& p.len() <= raw.len()
        }),
{
    let e = first_f(raw, 2 * raw.len());
    lemma_first_f_le(raw, 2 * raw.len());
    lemma_first_bad_none(raw, e);
    assert(d == cn_digits(raw));
    assert(forall|i: int| 0 <= i < d.len() ==> #[trigger] d[i] == nibble(raw, i));
    let m = ((d.len() + 1) / 2) as nat;
    let p = pack_digits(d, m);
    assert forall|i: int| 0 <= i < d.len() implies #[trigger] nibble(p, i) == d[i] by {
        let j = i / 2;
        if 2 * j + 1 < d.len() {
            lemma_pack_nibbles(d[2 * j], d[2 * j + 1]);
        } else {
            lemma_pack_nibbles(d[2 * j], 0x0f);
        }
    }
    assert forall|i: int| 0 <= i < d.len() implies #[trigger] nibble(p, i) <= 9 by {
        assert(nibble(p, i) == d[i]);
    }
    lemma_first_bad_none(p, d.len());
    lemma_first_f_none(p, d.len());
    if d.len() % 2 == 1 {
        let j = (d.len() / 2) as int;
        lemma_pack_nibbles(d[2 * j], 0x0f);
        assert(nibble(p, d.len() as int) == 15);
        assert(first_f(p, (d.len() + 1) as nat) == d.len());
        assert(2 * p.len() == d.len() + 1);
    } else {
        assert(2 * p.len() == d.len());
    }
    assert(cn_digits(p) =~= d);
}

proof fn lemma_decimal_bound(raw: Seq<u8>, k: nat)
    requires
        first_bad(raw, k) is None,
    ensures
        decimal(raw, k) < pow10(k),
    decreases k,
{
    if k > 0 {
        lemma_decimal_bound(raw, (k - 1) as nat);
    }
}

proof fn lemma_pow10_pow100(j: nat)
    ensures
        pow10(2 * j) == pow100(j),
    decreases j,
{
    if j > 0 {
        lemma_pow10_pow100((j - 1) as nat);
        assert(pow10(2 * j) == 10 * pow10((2 * j - 1) as nat));
        assert(pow10((2 * j - 1) as nat) == 10 * pow10((2 * j - 2) as nat));
        assert((2 * j - 2) as nat == 2 * ((j - 1) as nat));
    }
}


proof fn lemma_bcd_len(n: nat, j: nat)
    ensures
        n < pow100(bcd_len(n)),
        n < pow100(j) ==> bcd_len(n) <= j,
    decreases n,
{
    if n > 0 {
        if j > 0 {
            assert(n < pow100(j) ==> n / 100 < pow100((j - 1) as nat)) by (nonlinear_arith)
                requires
                    pow100(j) == 100 * pow100((j - 1) as nat),
            ;
            lemma_bcd_len(n / 100, (j - 1) as nat);
        } else {
            lemma_bcd_len(n / 100, 0);
        }
        let q = pow100(bcd_len(n / 100));
        assert(n < 100 * q) by (nonlinear_arith)
            requires
                n / 100 < q,
        ;
    }
}

proof fn lemma_bcd_byte_nibbles(y: u8)
    requires
        y < 100,
    ensures
        bcd_byte(y) >> 4u8 == y / 10,
        bcd_byte(y) & 0x0f == y % 10,
{
    assert(((y / 10) << 4u8) | (y % 10) == bcd_byte(y));
    lemma_pack_nibbles(y / 10, y % 10);
}

/// The first `2j` nibbles of `n` in `m` BCD bytes read as `n / 100^(m-j)`.
proof fn lemma_numeric_prefix(n: nat, m: nat, j: nat)
    requires
        j <= m,
        n < pow100(m),
    ensures
        decimal(numeric_bytes(n, m), 2 * j) == n / pow100((m - j) as nat),
        first_bad(numeric_bytes(n, m), 2 * j) is None,
    decreases j,
{
    let b = numeric_bytes(n, m);
    lemma_pow100_pos((m - j) as nat);
    if j == 0 {
        assert(n / pow100(m) == 0) by (nonlinear_arith)
            requires
                n < pow100(m),
        ;
    } else {
        lemma_numeric_prefix(n, m, (j - 1) as nat);
        let q = pow100((m - j) as nat);
        lemma_pow100_pos((m - j) as nat);
        let y = ((n / q) % 100) as u8;
        assert(b[j - 1] == bcd_byte(y));
        lemma_bcd_byte_nibbles(y);
        let k = (2 * j - 2) as nat;
        assert(nibble(b, k as int) == y / 10);
        assert(nibble(b, k + 1 as int) == y % 10);
        assert(y / 10 <= 9 && y % 10 <= 9);
        assert(decimal(b, k + 1) == decimal(b, k) * 10 + nibble(b, k as int));
        assert(decimal(b, k + 2) == decimal(b, k + 1) * 10 + nibble(b, k + 1 as int));
        assert(decimal(b, k + 2) == (decimal(b, k) * 10 + y / 10) * 10 + y % 10);
        assert(first_bad(b, k + 1) is None);
        assert(first_bad(b, k + 2) is None);
        assert(pow100((m - (j - 1)) as nat) == 100 * q);
        lemma_div_denominator(n as int, q as int, 100);
        lemma_fundamental_div_mod((n / q) as int, 100);
        lemma_fundamental_div_mod(y as int, 10);
        assert(k + 2 == 2 * j);
    }
}

/// A number decoded from `raw` encodes back into no more BCD bytes, which
/// decode to the same number.
proof fn lemma_numeric_round_trip(raw: Seq<u8>, n: u128)
    requires
        numeric_spec(raw) == Ok::<u128, DecodeError>(n),
    ensures
        numeric_spec(numeric_bytes(n as nat, bcd_len(n as nat))) == Ok::<u128, DecodeError>(n),
        bcd_len(n as nat) <= raw.len(),
{
    let k = 2 * raw.len();
    lemma_decimal_bound(raw, k);
    lemma_pow10_pow100(raw.len());
    reveal_with_fuel(pow100, 20);
    assert(pow100(19) == 1_00_00_00_00_00_00_00_00_00_00_00_00_00_00_00_00_00_00_00);
    crate::dol::lemma_pow100_mono(raw.len(), 19);
    assert(decimal(raw, k) < pow100(19));
    assert(n as nat == decimal(raw, k));
    let m = bcd_len(n as nat);
    lemma_bcd_len(n as nat, raw.len());
    lemma_numeric_prefix(n as nat, m, m);
    assert(pow100(0) == 1);
    assert(n as nat / 1 == n as nat);
}

proof fn lemma_entries_front(es: Seq<DOLEntry>)
    requires
        es.len() > 0,
    ensures
        entries_bytes(es) == tl_bytes(es[0].tag, es[0].size as nat) + entries_bytes(es.drop_first()),
    decreases es.len(),
{
    if es.len() == 1 {
        assert(es.drop_last() =~= Seq::<DOLEntry>::empty());
        assert(es.drop_first() =~= Seq::<DOLEntry>::empty());
        assert(entries_bytes(es) =~= tl_bytes(es[0].tag, es[0].size as nat) + Seq::<u8>::empty());
    } else {
        lemma_entries_front(es.drop_last());
        assert(es.drop_first().drop_last() =~= es.drop_last().drop_first());
        assert(es.drop_last()[0] == es[0]);
        assert(es.drop_first().last() == es.last());
        assert(entries_bytes(es) =~= tl_bytes(es[0].tag, es[0].size as nat) + entries_bytes(
            es.drop_first(),
        ));
    }
}

proof fn lemma_fields_front(fs: Seq<Field>)
    requires
        fs.len() > 0,
    ensures
        fields_bytes(fs) == field_bytes(fs[0]) + fields_bytes(fs.drop_first()),
    decreases fs.len(),
{
    let init = fs.subrange(0, fs.len() - 1);
    if fs.len() == 1 {
        assert(init =~= Seq::<Field>::empty());
        assert(fs.drop_first() =~= Seq::<Field>::empty());
        assert(fields_bytes(init) == Seq::<u8>::empty());
        assert(fields_bytes(fs) == fields_bytes(init) + field_bytes(fs[0]));
        assert(fields_bytes(fs) =~= field_bytes(fs[0]) + Seq::<u8>::empty());
    } else {
        lemma_fields_front(init);
        let tail = fs.drop_first();
        assert(tail.subrange(0, tail.len() - 1) =~= init.drop_first());
        assert(init[0] == fs[0]);
        assert(tail[tail.len() - 1] == fs[fs.len() - 1]);
        assert(fields_bytes(fs) =~= field_bytes(fs[0]) + fields_bytes(tail));
    }
}

/// A Data Object List decoded from `raw` re-encodes with minimal prefixes
/// into no more bytes, which decode to the same entries.
proof fn lemma_dol_round_trip(raw: Seq<u8>, es: Seq<DOLEntry>)
    requires
        dol_parse(raw) == Ok::<Seq<DOLEntry>, DecodeError>(es),
    ensures
        dol_parse(entries_bytes(es)) == Ok::<Seq<DOLEntry>, DecodeError>(es),
        entries_bytes(es).len() <= raw.len(),
    decreases raw.len(),
{
    if raw.len() == 0 {
        assert(es.len() == 0);
    } else {
        let (tag, size, hl) = tl_spec(raw)->Ok_0;
        let rest = raw.subrange(hl as int, raw.len() as int);
        let rest_es = dol_parse(rest)->Ok_0;
        assert(es =~= seq![DOLEntry { tag, size }] + rest_es);
        lemma_dol_round_trip(rest, rest_es);
        lemma_tl_decoded(raw);
        lemma_entries_front(es);
        assert(es.drop_first() =~= rest_es);
        let er = entries_bytes(rest_es);
        let enc = entries_bytes(es);
        lemma_tl_parse(tag, size as nat, er);
        assert(enc == tl_bytes(tag, size as nat) + er);
        let h2 = tl_bytes(tag, size as nat).len();
        assert(enc.subrange(h2 as int, enc.len() as int) =~= er);
    }
}

/// Re-encoding a value decoded from `raw` as `typ` gives no more bytes,
/// which decode as `typ` to the same value.
proof fn lemma_value_round_trip(typ: ElementType, raw: Seq<u8>, v: Value)
    requires
        value_error(typ, raw) is None,
        value_ok(typ, raw, v),
    ensures
        value_error(typ, value_bytes(v)) is None,
        value_ok(typ, value_bytes(v), v),
        value_bytes(v).len() <= raw.len(),
    decreases raw.len(), 1nat,
{
    match typ {
        ElementType::Alphabetic => lemma_string_bytes(StringType::Alphabetic, raw),
        ElementType::Alphanumeric => lemma_string_bytes(StringType::Alphanumeric, raw),
        ElementType::AlphanumericSpecial => lemma_string_bytes(
            StringType::AlphanumericSpecial,
            raw,
        ),
        ElementType::Binary => {},
        ElementType::DigitString => {
            if let Value::DigitString(d) = v {
                lemma_digits_round_trip(raw, d@);
            }
        },
        ElementType::Numeric => {
            if let Value::Numeric(n) = v {
                lemma_numeric_round_trip(raw, n);
            }
        },
        ElementType::Template => {
            if let Value::Template(fs) = v {
                lemma_fields_round_trip(raw, fs@);
            }
        },
        ElementType::Dol => {
            if let Value::Dol(d) = v {
                lemma_dol_round_trip(raw, d@);
            }
        },
    }
}

/// Re-encoding the fields that `raw` decodes to, with minimal lengths,
/// gives a byte string no longer than `raw` that decodes to the same fields.
pub proof fn lemma_fields_round_trip(raw: Seq<u8>, fs: Seq<Field>)
    requires
        fields_error(raw) is None,
        fields_ok(raw, fs),
    ensures
        fields_error(fields_bytes(fs)) is None,
        fields_ok(fields_bytes(fs), fs),
        fields_bytes(fs).len() <= raw.len(),
    decreases raw.len(), 0nat,
{
    if raw.len() == 0 {
        assert(fs.len() == 0);
    } else {
        let (tag, len, hl) = tl_spec(raw)->Ok_0;
        let body = raw.subrange(hl as int, hl + len);
        let rest = raw.subrange(hl + len, raw.len() as int);
        let f0 = fs[0];
        let v0 = f0.value;
        assert(tlv_error(raw) is None);
        assert(tlv_consumed(raw) == hl + len);
        lemma_value_round_trip(tag_type(tag), body, v0);
        lemma_fields_round_trip(rest, fs.drop_first());
        let b0 = value_bytes(v0);
        let r2 = fields_bytes(fs.drop_first());
        lemma_tl_decoded(raw);
        lemma_length_bytes_mono(b0.len(), len as nat);
        lemma_fields_front(fs);
        let enc = fields_bytes(fs);
        let pre = tl_bytes(tag, b0.len());
        assert(enc =~= pre + (b0 + r2));
        lemma_tl_parse(tag, b0.len(), b0 + r2);
        let h2 = pre.len();
        assert(enc.subrange(h2 as int, h2 + b0.len() as int) =~= b0);
        assert(enc.subrange(h2 + b0.len() as int, enc.len() as int) =~= r2);
        assert(tlv_consumed(enc) == h2 + b0.len());
        assert(tlv_error(enc) is None);
        assert(fields_ok(enc, fs));
    }
}

} // verus!
