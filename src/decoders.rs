//! BER-TLV decoding as EMV uses it: one- or two-byte tags, lengths of up
//! to four bytes, and values typed by the data-element dictionary.
use vstd::prelude::*;

use crate::bcd::{
    ascii_chars, cn_spec, compressed_numeric, first_outside, numeric, numeric_spec,
    restricted_charset,
};
use crate::dol::{dol_result, Dol};
use crate::elements::{element_type, tag_type, ElementType};
use crate::errors::{DecodeError, StringType};
use crate::value::{Field, Value};

verus! {

/// The bytes of `b` read as a big-endian integer.
pub open spec fn be_value(b: Seq<u8>) -> nat
    decreases b.len(),
{
    if b.len() == 0 {
        0
    } else {
        (be_value(b.drop_last()) * 256 + b.last()) as nat
    }
}

/// The tag/length prefix at the start of `raw`: (tag, value length, prefix length).
pub open spec fn tl_spec(raw: Seq<u8>) -> Result<(u16, usize, usize), DecodeError> {
    if raw.len() == 0 {
        Err(DecodeError::MessageTooShort(2, 0))
    } else {
        let tag_len: nat = if raw[0] & 0x1f == 0x1f { 2 } else { 1 };
        if raw.len() < tag_len + 1 {
            Err(DecodeError::MessageTooShort((tag_len + 1) as usize, raw.len() as usize))
        } else {
            let tag: u16 = if tag_len == 2 {
                (raw[0] * 256 + raw[1]) as u16
            } else {
                raw[0] as u16
            };
            let first = raw[tag_len as int];
            if first & 0x80 == 0x80 {
                let n: nat = (first & 0x7f) as nat;
                if n > 4 {
                    Err(DecodeError::LengthTooLong(4, n as usize))
                } else if raw.len() < tag_len + 1 + n {
                    Err(
                        DecodeError::MessageTooShort(
                            (tag_len + 1 + n) as usize,
                            raw.len() as usize,
                        ),
                    )
                } else {
                    Ok(
                        (
                            tag,
                            be_value(raw.subrange(tag_len + 1 as int, tag_len + 1 + n as int)) as usize,
                            (tag_len + 1 + n) as usize,
                        ),
                    )
                }
            } else {
                Ok((tag, first as usize, (tag_len + 1) as usize))
            }
        }
    }
}

/// Reads the tag and length at the start of `raw`; returns the tag, the
/// length of the value and the number of bytes the prefix took.
pub fn read_tl(raw: &[u8]) -> (r: Result<(u16, usize, usize), DecodeError>)
    ensures
        r == tl_spec(raw@),
{
    if raw.len() == 0 {
        return Err(DecodeError::MessageTooShort(2, 0));
    }
    let tag_len: usize = if raw[0] & 0x1f == 0x1f { 2 } else { 1 };
    if raw.len() < tag_len + 1 {
        return Err(DecodeError::MessageTooShort(tag_len + 1, raw.len()));
    }
    let tag: u16 = if tag_len == 2 {
        raw[0] as u16 * 256 + raw[1] as u16
    } else {
        raw[0] as u16
    };
    let first = raw[tag_len];
    if first & 0x80 == 0x80 {
        let n: usize = (first & 0x7f) as usize;
        if n > 4 {
            return Err(DecodeError::LengthTooLong(4, n));
        }
        if raw.len() < tag_len + 1 + n {
            return Err(DecodeError::MessageTooShort(tag_len + 1 + n, raw.len()));
        }
        let start: usize = tag_len + 1;
        let mut len: u64 = 0;
        let mut i: usize = 0;
        while i < n
            invariant
                n <= 4,
                start <= 3,
                start + n <= raw@.len(),
                i <= n,
                len == be_value(raw@.subrange(start as int, start + i)),
                i == 0 ==> len == 0,
                i == 1 ==> len < 0x100,
                i == 2 ==> len < 0x10000,
                i == 3 ==> len < 0x1000000,
                i == 4 ==> len < 0x100000000,
            decreases n - i,
        {
            proof {
                assert(raw@.subrange(start as int, start + i + 1).drop_last() =~= raw@.subrange(
                    start as int,
                    start + i,
                ));
            }
            len = len * 256 + raw[start + i] as u64;
            i += 1;
        }
        Ok((tag, len as usize, start + n))
    } else {
        Ok((tag, first as usize, tag_len + 1))
    }
}

/// Bytes a whole TLV takes at the start of `raw`, once its prefix reads.
pub open spec fn tlv_consumed(raw: Seq<u8>) -> nat {
    match tl_spec(raw) {
        Ok((_, len, hl)) => (hl + len) as nat,
        Err(_) => 0,
    }
}

/// The error, if any, of decoding the TLV at the start of `raw`.
pub open spec fn tlv_error(raw: Seq<u8>) -> Option<DecodeError>
    decreases raw.len(), 0nat,
{
    match tl_spec(raw) {
        Err(e) => Some(e),
        Ok((tag, len, hl)) => if hl + len > raw.len() {
            Some(DecodeError::MessageTooShort(hl.saturating_add(len), raw.len() as usize))
        } else {
            match value_error(tag_type(tag), raw.subrange(hl as int, hl + len)) {
                Some(e) => Some(DecodeError::TemplateInternal(tag, Box::new(e))),
                None => None,
            }
        },
    }
}

/// The error, if any, of decoding `raw` as a value of type `typ`.
pub open spec fn value_error(typ: ElementType, raw: Seq<u8>) -> Option<DecodeError>
    decreases raw.len(), 2nat,
{
    match typ {
        ElementType::Alphabetic => match first_outside(StringType::Alphabetic, raw) {
            Some(b) => Some(DecodeError::UnsupportedChar(StringType::Alphabetic, b)),
            None => None,
        },
        ElementType::Alphanumeric => match first_outside(StringType::Alphanumeric, raw) {
            Some(b) => Some(DecodeError::UnsupportedChar(StringType::Alphanumeric, b)),
            None => None,
        },
        ElementType::AlphanumericSpecial => match first_outside(
            StringType::AlphanumericSpecial,
            raw,
        ) {
            Some(b) => Some(DecodeError::UnsupportedChar(StringType::AlphanumericSpecial, b)),
            None => None,
        },
        ElementType::Binary => None,
        ElementType::DigitString => match cn_spec(raw) {
            Err(e) => Some(e),
            Ok(_) => None,
        },
        ElementType::Numeric => match numeric_spec(raw) {
            Err(e) => Some(e),
            Ok(_) => None,
        },
        ElementType::Template => fields_error(raw),
        ElementType::Dol => match dol_result(raw) {
            Err(e) => Some(e),
            Ok(_) => None,
        },
    }
}

/// The error, if any, of decoding all of `raw` as the fields of a template.
pub open spec fn fields_error(raw: Seq<u8>) -> Option<DecodeError>
    decreases raw.len(), 1nat,
{
    if raw.len() == 0 {
        None
    } else {
        match tlv_error(raw) {
            Some(e) => Some(e),
            None => {
                let n = tlv_consumed(raw);
                if 0 < n <= raw.len() {
                    fields_error(raw.subrange(n as int, raw.len() as int))
                } else {
                    None
                }
            },
        }
    }
}

/// `v` is what decoding `raw` as type `typ` gives, where that succeeds.
pub open spec fn value_ok(typ: ElementType, raw: Seq<u8>, v: Value) -> bool
    decreases raw.len(), 2nat,
{
    match typ {
        ElementType::Alphabetic => v matches Value::Alphabetic(s) && s@ == ascii_chars(raw),
        ElementType::Alphanumeric => v matches Value::Alphanumeric(s) && s@ == ascii_chars(raw),
        ElementType::AlphanumericSpecial => v matches Value::AlphanumericSpecial(s) && s@
            == ascii_chars(raw),
        ElementType::Binary => v matches Value::Binary(b) && b@ == raw,
        ElementType::DigitString => v matches Value::DigitString(d) && cn_spec(raw) == Ok::<
            Seq<u8>,
            DecodeError,
        >(d@),
        ElementType::Numeric => v matches Value::Numeric(n) && numeric_spec(raw) == Ok::<
            u128,
            DecodeError,
        >(n),
        ElementType::Template => v matches Value::Template(fs) && fields_ok(raw, fs@),
        ElementType::Dol => v matches Value::Dol(d) && dol_result(raw) == Ok::<
            Seq<crate::dol::DOLEntry>,
            DecodeError,
        >(d@),
    }
}

/// `fs` are the fields that decoding all of `raw` as a template gives.
pub open spec fn fields_ok(raw: Seq<u8>, fs: Seq<Field>) -> bool
    decreases raw.len(), 1nat,
{
    if raw.len() == 0 {
        fs.len() == 0
    } else {
        match tl_spec(raw) {
            Ok((tag, len, hl)) => {
                &&& hl + len <= raw.len()
                &&& fs.len() > 0
                &&& fs[0].tag == tag
                &&& value_ok(tag_type(tag), raw.subrange(hl as int, hl + len), fs[0].value)
                &&& fields_ok(raw.subrange(hl + len, raw.len() as int), fs.drop_first())
            },
            Err(_) => false,
        }
    }
}

/// `(tag, v)` is the field that the TLV at the start of `raw` decodes to.
pub open spec fn tlv_ok(raw: Seq<u8>, tag: u16, v: Value) -> bool {
    match tl_spec(raw) {
        Ok((t, len, hl)) => {
            &&& hl + len <= raw.len()
            &&& t == tag
            &&& value_ok(tag_type(t), raw.subrange(hl as int, hl + len), v)
        },
        Err(_) => false,
    }
}

/// Decodes `raw` as a value of type `typ`.
pub fn decode_with_type(typ: ElementType, raw: &[u8]) -> (r: Result<Value, DecodeError>)
    ensures
        match r {
            Ok(v) => value_error(typ, raw@) is None && value_ok(typ, raw@, v),
            Err(e) => value_error(typ, raw@) == Some(e),
        },
    decreases raw@.len(), 2nat,
{
    match typ {
        ElementType::Alphabetic => alphabetic(raw),
        ElementType::Alphanumeric => alphanumeric(raw),
        ElementType::AlphanumericSpecial => alphanumeric_special(raw),
        ElementType::Binary => Ok(Value::Binary(binary(raw))),
        ElementType::DigitString => match compressed_numeric(raw) {
            Ok(d) => Ok(Value::DigitString(d)),
            Err(e) => Err(e),
        },
        ElementType::Numeric => match numeric(raw) {
            Ok(n) => Ok(Value::Numeric(n)),
            Err(e) => Err(e),
        },
        ElementType::Template => match template(raw) {
            Ok(fs) => Ok(Value::Template(fs)),
            Err(e) => Err(e),
        },
        ElementType::Dol => match dol(raw) {
            Ok(d) => Ok(Value::Dol(d)),
            Err(e) => Err(e),
        },
    }
}

/// Decodes the TLV at the start of `raw`: its tag, the bytes it took and its value.
pub fn read_tlv(raw: &[u8]) -> (r: Result<(u16, usize, Value), DecodeError>)
    ensures
        match r {
            Ok((t, n, v)) => {
                &&& tlv_error(raw@) is None
                &&& n == tlv_consumed(raw@)
                &&& tlv_ok(raw@, t, v)
            },
            Err(e) => tlv_error(raw@) == Some(e),
        },
    decreases raw@.len(), 0nat,
{
    let (tag, len, hl) = match read_tl(raw) {
        Ok(t) => t,
        Err(e) => {
            return Err(e);
        },
    };
    if len > raw.len() - hl {
        return Err(DecodeError::MessageTooShort(hl.saturating_add(len), raw.len()));
    }
    let body = vstd::slice::slice_subrange(raw, hl, hl + len);
    match decode_with_type(element_type(tag), body) {
        Ok(v) => Ok((tag, hl + len, v)),
        Err(e) => Err(DecodeError::TemplateInternal(tag, Box::new(e))),
    }
}

/// Decodes the field at the start of `raw`; bytes after it are ignored.
pub fn read_field(raw: &[u8]) -> (r: Result<Field, DecodeError>)
    ensures
        match r {
            Ok(f) => tlv_error(raw@) is None && tlv_ok(raw@, f.tag, f.value),
            Err(e) => tlv_error(raw@) == Some(e),
        },
{
    match read_tlv(raw) {
        Ok((tag, _, value)) => Ok(Field { tag, value }),
        Err(e) => Err(e),
    }
}

/// Decodes all of `raw` as the fields of a template, in order.
pub fn template(raw: &[u8]) -> (r: Result<Vec<Field>, DecodeError>)
    ensures
        match r {
            Ok(fs) => fields_error(raw@) is None && fields_ok(raw@, fs@),
            Err(e) => fields_error(raw@) == Some(e),
        },
    decreases raw@.len(), 1nat,
{
    let mut fields: Vec<Field> = Vec::new();
    let mut rest: &[u8] = raw;
    proof {
        assert forall|tail: Seq<Field>| fields_ok(rest@, tail) implies fields_ok(
            raw@,
            fields@ + tail,
        ) by {
            assert(fields@ + tail =~= tail);
        }
    }
    while rest.len() > 0
        invariant
            rest@.len() <= raw@.len(),
            fields_error(raw@) == fields_error(rest@),
            forall|tail: Seq<Field>| #[trigger]
                fields_ok(rest@, tail) ==> fields_ok(raw@, fields@ + tail),
        decreases rest@.len(),
    {
        match read_tlv(rest) {
            Err(e) => {
                return Err(e);
            },
            Ok((tag, n, value)) => {
                let ghost old_rest = rest@;
                let ghost old_fields = fields@;
                rest = vstd::slice::slice_subrange(rest, n, rest.len());
                fields.push(Field { tag, value });
                proof {
                    let f = fields@.last();
                    assert forall|tail: Seq<Field>| fields_ok(rest@, tail) implies fields_ok(
                        raw@,
                        fields@ + tail,
                    ) by {
                        let t2 = seq![f] + tail;
                        assert(t2.drop_first() =~= tail);
                        assert(fields_ok(old_rest, t2));
                        assert(old_fields + t2 =~= fields@ + tail);
                    }
                }
            },
        }
    }
    proof {
        assert(fields_ok(rest@, Seq::<Field>::empty()));
        assert(fields@ + Seq::<Field>::empty() =~= fields@);
    }
    Ok(fields)
}

/// Decodes a Data Object List.
pub fn dol(raw: &[u8]) -> (r: Result<Dol, DecodeError>)
    ensures
        match r {
            Ok(d) => dol_result(raw@) == Ok::<Seq<crate::dol::DOLEntry>, DecodeError>(d@),
            Err(e) => dol_result(raw@) == Err::<Seq<crate::dol::DOLEntry>, DecodeError>(e),
        },
{
    Dol::from_bytes(raw)
}

/// Copies a binary value.
pub fn binary(raw: &[u8]) -> (r: Vec<u8>)
    ensures
        r@ == raw@,
{
    vstd::slice::slice_to_vec(raw)
}

/// Decodes an alphabetic string (ASCII letters).
pub fn alphabetic(raw: &[u8]) -> (r: Result<Value, DecodeError>)
    ensures
        match r {
            Ok(v) => value_error(ElementType::Alphabetic, raw@) is None && value_ok(
                ElementType::Alphabetic,
                raw@,
                v,
            ),
            Err(e) => value_error(ElementType::Alphabetic, raw@) == Some(e),
        },
{
    match restricted_charset(raw, StringType::Alphabetic) {
        Ok(s) => Ok(Value::Alphabetic(s)),
        Err(e) => Err(e),
    }
}

/// Decodes an alphanumeric string (ASCII letters and digits).
pub fn alphanumeric(raw: &[u8]) -> (r: Result<Value, DecodeError>)
    ensures
        match r {
            Ok(v) => value_error(ElementType::Alphanumeric, raw@) is None && value_ok(
                ElementType::Alphanumeric,
                raw@,
                v,
            ),
            Err(e) => value_error(ElementType::Alphanumeric, raw@) == Some(e),
        },
{
    match restricted_charset(raw, StringType::Alphanumeric) {
        Ok(s) => Ok(Value::Alphanumeric(s)),
        Err(e) => Err(e),
    }
}

/// Decodes an alphanumeric-special string (bytes 0x20 to 0x7E).
pub fn alphanumeric_special(raw: &[u8]) -> (r: Result<Value, DecodeError>)
    ensures
        match r {
            Ok(v) => value_error(ElementType::AlphanumericSpecial, raw@) is None && value_ok(
                ElementType::AlphanumericSpecial,
                raw@,
                v,
            ),
            Err(e) => value_error(ElementType::AlphanumericSpecial, raw@) == Some(e),
        },
{
    match restricted_charset(raw, StringType::AlphanumericSpecial) {
        Ok(s) => Ok(Value::AlphanumericSpecial(s)),
        Err(e) => Err(e),
    }
}

} // verus!
