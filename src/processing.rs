//! GET PROCESSING OPTIONS, the Application File Locator walk and the
//! static data to authenticate; INTERNAL AUTHENTICATE data.
use vstd::prelude::*;

use crate::decoders::{read_field, read_tl, tl_spec, tlv_error, tlv_ok};
use crate::dol::{dol_body, dol_size, OptionsMap};
use crate::elements::ElementType;
use crate::prefix::{append_bytes, tl_bytes};
use crate::errors::{CardError, DecodeError};
use crate::value::{descend, fields_path, find_field, find_tag, value_path, Field, Value};

verus! {

/// The GET PROCESSING OPTIONS data: the PDOL of the FCI (0xA5 / 0x9F38)
/// filled from `state` and wrapped in tag 0x83, or `83 00` without a PDOL.
pub fn pdol_payload(fci: &Vec<Field>, state: &OptionsMap) -> (r: Vec<u8>)
    ensures
        match descend(fci@, seq![0xa5u16, 0x9f38u16]) {
            Ok(Value::Dol(d)) => r@ == tl_bytes(0x83, dol_size(d@) as nat) + dol_body(d@, state@),
            _ => r@ == seq![0x83u8, 0x00u8],
        },
{
    let path: [u16; 2] = [0xa5, 0x9f38];
    proof {
        assert(path@ =~= seq![0xa5u16, 0x9f38u16]);
    }
    match fields_path(fci, &path) {
        Ok(Value::Dol(d)) => d.encode(Some(0x83), state),
        _ => {
            let v = vec![0x83u8, 0x00u8];
            proof {
                assert(v@ =~= seq![0x83u8, 0x00u8]);
            }
            v
        },
    }
}

/// The binary value that the one-tag path `tag` finds from the template `v`.
pub open spec fn binary_at(v: Value, tag: u16) -> Result<Seq<u8>, DecodeError> {
    match value_path(v, seq![tag]) {
        Ok(Value::Binary(b)) => Ok(b@),
        Ok(_) => Err(DecodeError::WrongType(tag, ElementType::Binary)),
        Err(e) => Err(e),
    }
}

fn binary_child(v: &Value, tag: u16) -> (r: Result<Vec<u8>, CardError>)
    ensures
        match binary_at(*v, tag) {
            Ok(b) => r matches Ok(x) && x@ == b,
            Err(e) => r == Err::<Vec<u8>, CardError>(CardError::Decode(e)),
        },
{
    let path: [u16; 1] = [tag];
    proof {
        assert(path@ =~= seq![tag]);
    }
    match v.get_path_binary(&path) {
        Ok(b) => Ok(vstd::slice::slice_to_vec(b)),
        Err(e) => Err(CardError::Decode(e)),
    }
}

/// The AIP and AFL of a GET PROCESSING OPTIONS answer: format 2 (0x77)
/// holds them as 0x82 and 0x94; format 1 (0x80) is two AIP bytes then the AFL.
pub fn gpo_response(field: &Field) -> (r: Result<(Vec<u8>, Vec<u8>), CardError>)
    ensures
        field.tag == 0x77 ==> match (binary_at(field.value, 0x82), binary_at(field.value, 0x94)) {
            (Err(e), _) => r == Err::<(Vec<u8>, Vec<u8>), CardError>(CardError::Decode(e)),
            (Ok(_), Err(e)) => r == Err::<(Vec<u8>, Vec<u8>), CardError>(CardError::Decode(e)),
            (Ok(aip), Ok(afl)) => r matches Ok(x) && x.0@ == aip && x.1@ == afl,
        },
        field.tag == 0x80 ==> match field.value {
            Value::Binary(b) => if b@.len() < 6 {
                r == Err::<(Vec<u8>, Vec<u8>), CardError>(CardError::TooShort(b@.len() as usize))
            } else {
                r matches Ok(x) && x.0@ == b@.subrange(0, 2) && x.1@ == b@.subrange(
                    2,
                    b@.len() as int,
                )
            },
            _ => r == Err::<(Vec<u8>, Vec<u8>), CardError>(
                CardError::Decode(DecodeError::WrongType(0x80, ElementType::Binary)),
            ),
        },
        field.tag != 0x77 && field.tag != 0x80 ==> r == Err::<(Vec<u8>, Vec<u8>), CardError>(
            CardError::UnexpectedTag(field.tag),
        ),
{
    if field.tag == 0x77 {
        let aip = match binary_child(&field.value, 0x82) {
            Ok(b) => b,
            Err(e) => {
                return Err(e);
            },
        };
        let afl = match binary_child(&field.value, 0x94) {
            Ok(b) => b,
            Err(e) => {
                return Err(e);
            },
        };
        Ok((aip, afl))
    } else if field.tag == 0x80 {
        match &field.value {
            Value::Binary(b) => {
                if b.len() < 6 {
                    return Err(CardError::TooShort(b.len()));
                }
                let aip = vstd::slice::slice_to_vec(vstd::slice::slice_subrange(b.as_slice(), 0, 2));
                let afl = vstd::slice::slice_to_vec(
                    vstd::slice::slice_subrange(b.as_slice(), 2, b.len()),
                );
                Ok((aip, afl))
            },
            _ => Err(CardError::Decode(DecodeError::WrongType(0x80, ElementType::Binary))),
        }
    } else {
        Err(CardError::UnexpectedTag(field.tag))
    }
}

/// One READ RECORD that the AFL asks for, and whether the record is part of
/// the static data to authenticate.
#[derive(Debug, PartialEq, Eq, Clone, Copy)]
pub struct RecordRead {
    pub sfi: u8,
    pub record: u8,
    pub sda: bool,
}

/// The reads of one 4-byte AFL entry (SFI << 3, first, last, SDA count).
pub open spec fn entry_reads(e: Seq<u8>) -> Seq<RecordRead> {
    let first = e[1] as int;
    let last = e[2] as int;
    let n = if last >= first {
        last - first + 1
    } else {
        0
    };
    Seq::new(
        n as nat,
        |j: int| RecordRead { sfi: e[0] >> 3, record: (first + j) as u8, sda: j < e[3] },
    )
}

/// The reads of the first `n` AFL entries, in order.
pub open spec fn afl_reads(afl: Seq<u8>, n: nat) -> Seq<RecordRead>
    decreases n,
{
    if n == 0 {
        Seq::empty()
    } else {
        afl_reads(afl, (n - 1) as nat) + entry_reads(afl.subrange(4 * n - 4, 4 * n as int))
    }
}

/// Every record read that the AFL asks for; a trailing partial entry is ignored.
pub fn record_reads(afl: &[u8]) -> (r: Vec<RecordRead>)
    ensures
        r@ == afl_reads(afl@, afl@.len() / 4),
{
    let mut out: Vec<RecordRead> = Vec::new();
    let len = afl.len();
    let n = len / 4;
    let mut i: usize = 0;
    while i < n
        invariant
            len == afl@.len(),
            n == len / 4,
            i <= n,
            out@ == afl_reads(afl@, i as nat),
        decreases n - i,
    {
        proof {
            assert(4 * i + 3 < len);
        }
        let sfi = afl[4 * i] >> 3;
        let first = afl[4 * i + 1];
        let last = afl[4 * i + 2];
        let num_sda = afl[4 * i + 3];
        let ghost e = afl@.subrange(4 * (i + 1) - 4, 4 * (i + 1) as int);
        let ghost start = out@;
        proof {
            assert(e[0] == afl@[4 * i as int] && e[1] == first && e[2] == last && e[3] == num_sda);
        }
        if first <= last {
            let mut rec: u8 = first;
            loop
                invariant_except_break
                    out@ == start + entry_reads(e).subrange(0, rec - first),
                invariant
                    first <= rec <= last,
                    e.len() == 4,
                    e[0] >> 3 == sfi && e[1] == first && e[2] == last && e[3] == num_sda,
                ensures
                    out@ == start + entry_reads(e).subrange(0, last - first + 1),
                decreases last - rec,
            {
                let read = RecordRead { sfi, record: rec, sda: rec - first < num_sda };
                out.push(read);
                proof {
                    assert(entry_reads(e).subrange(0, rec - first + 1) =~= entry_reads(e).subrange(
                        0,
                        rec - first,
                    ).push(read));
                }
                if rec == last {
                    break;
                }
                rec = rec + 1;
            }
            proof {
                assert(entry_reads(e).subrange(0, last - first + 1) =~= entry_reads(e));
                assert(out@ == start + entry_reads(e));
            }
        } else {
            proof {
                assert(entry_reads(e) =~= Seq::<RecordRead>::empty());
                assert(out@ =~= start + entry_reads(e));
            }
        }
        proof {
            assert(afl_reads(afl@, (i + 1) as nat) == start + entry_reads(e));
        }
        i += 1;
    }
    out
}

/// The card data known before the records are read: AIP (0x82) and AFL (0x94).
pub fn initial_card_info(aip: Vec<u8>, afl: Vec<u8>) -> (r: Vec<Field>)
    ensures
        r@.len() == 2,
        r@[0].tag == 0x82 && r@[0].value == Value::Binary(aip),
        r@[1].tag == 0x94 && r@[1].value == Value::Binary(afl),
{
    let mut r: Vec<Field> = Vec::new();
    r.push(Field { tag: 0x82, value: Value::Binary(aip) });
    r.push(Field { tag: 0x94, value: Value::Binary(afl) });
    r
}

/// The bytes that a record `raw` read from `sfi` adds to the static data to
/// authenticate: its value without the tag/length prefix for SFI 1 to 10, the
/// whole record for SFI 11 to 30, nothing otherwise.
pub open spec fn sda_bytes(sfi: u8, raw: Seq<u8>) -> Seq<u8> {
    if 1 <= sfi <= 10 {
        match tl_spec(raw) {
            Ok((_, _, hl)) => raw.subrange(hl as int, raw.len() as int),
            Err(_) => Seq::empty(),
        }
    } else if 11 <= sfi <= 30 {
        raw
    } else {
        Seq::empty()
    }
}


/// Takes the record `response` of `read`: its inner fields join
/// `card_info` (the record's own tag is dropped) and, where the AFL says so,
/// its bytes join the static data `sda`.
pub fn absorb_record(
    card_info: &mut Vec<Field>,
    sda: &mut Vec<u8>,
    read: RecordRead,
    response: &[u8],
) -> (r: Result<(), CardError>)
    ensures
        match tlv_error(response@) {
            Some(e) => r == Err::<(), CardError>(CardError::Decode(e)) && final(card_info)@ == old(
                card_info,
            )@ && final(sda)@ == old(sda)@,
            None => exists|f: Field|
                #![trigger tlv_ok(response@, f.tag, f.value)]
                tlv_ok(response@, f.tag, f.value) && match f.value {
                    Value::Template(fs) => {
                        &&& r is Ok
                        &&& final(card_info)@ == old(card_info)@ + fs@
                        &&& final(sda)@ == old(sda)@ + if read.sda {
                            sda_bytes(read.sfi, response@)
                        } else {
                            Seq::empty()
                        }
                    },
                    _ => r == Err::<(), CardError>(
                        CardError::Decode(DecodeError::WrongType(f.tag, ElementType::Template)),
                    ) && final(card_info)@ == old(card_info)@ && final(sda)@ == old(sda)@,
                },
        },
{
    let f = match read_field(response) {
        Ok(f) => f,
        Err(e) => {
            return Err(CardError::Decode(e));
        },
    };
    let ghost g = f;
    let tag = f.tag;
    let mut fields = match f.value {
        Value::Template(fs) => fs,
        _ => {
            return Err(CardError::Decode(DecodeError::WrongType(tag, ElementType::Template)));
        },
    };
    if read.sda {
        if 1 <= read.sfi && read.sfi <= 10 {
            match read_tl(response) {
                Ok((_, _, hl)) => append_bytes(
                    sda,
                    vstd::slice::slice_subrange(response, hl, response.len()),
                ),
                Err(_) => {},
            }
        } else if 11 <= read.sfi && read.sfi <= 30 {
            append_bytes(sda, response);
        }
    }
    card_info.append(&mut fields);
    Ok(())
}

/// The INTERNAL AUTHENTICATE data: the DDOL (0x9F49) filled from `state`.
pub fn ddol_payload(options: &Vec<Field>, state: &OptionsMap) -> (r: Result<Vec<u8>, DecodeError>)
    ensures
        match find_tag(options@, 0x9f49) {
            Some(Value::Dol(d)) => r matches Ok(x) && x@ == dol_body(d@, state@),
            Some(_) => r matches Err(x) && x == DecodeError::WrongType(0x9f49, ElementType::Dol),
            None => r matches Err(x) && x == DecodeError::NoSuchMember(0x9f49),
        },
{
    match find_field(options, 0x9f49) {
        Some(Value::Dol(d)) => Ok(d.encode(None, state)),
        Some(_) => Err(DecodeError::WrongType(0x9f49, ElementType::Dol)),
        None => Err(DecodeError::NoSuchMember(0x9f49)),
    }
}

/// The Signed Dynamic Application Data of an INTERNAL AUTHENTICATE answer:
/// 0x77 / 0x9F4B, or the whole value of format 1 (0x80).
pub fn signed_dynamic_data(field: &Field) -> (r: Result<Vec<u8>, CardError>)
    ensures
        field.tag == 0x77 ==> match binary_at(field.value, 0x9f4b) {
            Ok(b) => r matches Ok(x) && x@ == b,
            Err(e) => r == Err::<Vec<u8>, CardError>(CardError::Decode(e)),
        },
        field.tag == 0x80 ==> match field.value {
            Value::Binary(b) => r matches Ok(x) && x@ == b@,
            _ => r == Err::<Vec<u8>, CardError>(
                CardError::Decode(DecodeError::WrongType(0x80, ElementType::Binary)),
            ),
        },
        field.tag != 0x77 && field.tag != 0x80 ==> r == Err::<Vec<u8>, CardError>(
            CardError::UnexpectedTag(field.tag),
        ),
{
    if field.tag == 0x77 {
        binary_child(&field.value, 0x9f4b)
    } else if field.tag == 0x80 {
        match &field.value {
            Value::Binary(b) => Ok(vstd::slice::slice_to_vec(b.as_slice())),
            _ => Err(CardError::Decode(DecodeError::WrongType(0x80, ElementType::Binary))),
        }
    } else {
        Err(CardError::UnexpectedTag(field.tag))
    }
}

} // verus!
