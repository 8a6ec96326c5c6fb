//! Application discovery: the Payment System Environment directory and the
//! Application Templates it lists.
use vstd::prelude::*;

use crate::bcd::ascii_chars;
use crate::decoders::{read_field, tlv_error, tlv_ok};
use crate::elements::ElementType;
use crate::errors::{CardError, DecodeError};
use crate::value::{descend, fields_path, find_field, find_tag, Field, Value};

verus! {

/// A payment application listed by the card.
#[derive(Debug, PartialEq, Eq, Clone)]
pub struct ApplicationTemplate {
    pub aid: Vec<u8>,
    pub label: String,
    pub priority: Option<u8>,
    pub country: Option<String>,
    pub iin: Option<u32>,
}

/// What the Payment System Environment lists.
#[derive(Debug, PartialEq, Eq, Clone)]
pub struct PSEData {
    pub languages: Vec<String>,
    pub applications: Vec<ApplicationTemplate>,
}

/// The Application Priority Indicator (0x87): its first byte.
pub open spec fn priority_of(fs: Seq<Field>) -> Option<u8> {
    match find_tag(fs, 0x87) {
        Some(Value::Binary(b)) => if b@.len() > 0 {
            Some(b@[0])
        } else {
            None
        },
        _ => None,
    }
}

/// The issuer country (0x73 / 0x5F55), alphabetic.
pub open spec fn country_of(fs: Seq<Field>) -> Option<Seq<char>> {
    match find_tag(fs, 0x73) {
        Some(Value::Template(inner)) => match find_tag(inner@, 0x5f55) {
            Some(Value::Alphabetic(s)) => Some(s@),
            _ => None,
        },
        _ => None,
    }
}

/// The IIN (0x73 / 0x42), numeric, kept to 32 bits.
pub open spec fn iin_of(fs: Seq<Field>) -> Option<u32> {
    match find_tag(fs, 0x73) {
        Some(Value::Template(inner)) => match find_tag(inner@, 0x42) {
            Some(Value::Numeric(n)) => Some(n as u32),
            _ => None,
        },
        _ => None,
    }
}

pub open spec fn string_view(o: Option<String>) -> Option<Seq<char>> {
    match o {
        Some(s) => Some(s@),
        None => None,
    }
}

/// `r` is the application template that the fields `fs` describe: AID
/// (0x4F, binary) and label (0x50) are required, the rest optional.
pub open spec fn template_outcome(fs: Seq<Field>, r: Result<ApplicationTemplate, DecodeError>) -> bool {
    match (find_tag(fs, 0x4f), find_tag(fs, 0x50)) {
        (Some(Value::Binary(aid)), Some(Value::AlphanumericSpecial(label))) => r matches Ok(t) && {
            &&& t.aid@ == aid@
            &&& t.label@ == label@
            &&& t.priority == priority_of(fs)
            &&& string_view(t.country) == country_of(fs)
            &&& t.iin == iin_of(fs)
        },
        (Some(Value::Binary(_)), _) => r == Err::<ApplicationTemplate, DecodeError>(
            DecodeError::NoSuchMember(0x50),
        ),
        _ => r == Err::<ApplicationTemplate, DecodeError>(DecodeError::NoSuchMember(0x4f)),
    }
}

impl ApplicationTemplate {
    /// Reads an Application Template from its fields.
    pub fn from_fields(template: &Vec<Field>) -> (r: Result<Self, DecodeError>)
        ensures
            template_outcome(template@, r),
    {
        let aid = match find_field(template, 0x4f) {
            Some(Value::Binary(b)) => vstd::slice::slice_to_vec(b.as_slice()),
            _ => {
                return Err(DecodeError::NoSuchMember(0x4f));
            },
        };
        let label = match find_field(template, 0x50) {
            Some(Value::AlphanumericSpecial(s)) => s.clone(),
            _ => {
                return Err(DecodeError::NoSuchMember(0x50));
            },
        };
        let priority = match find_field(template, 0x87) {
            Some(Value::Binary(b)) => if b.len() > 0 {
                Some(b[0])
            } else {
                None
            },
            _ => None,
        };
        let (country, iin) = match find_field(template, 0x73) {
            Some(Value::Template(inner)) => {
                let country = match find_field(inner, 0x5f55) {
                    Some(Value::Alphabetic(s)) => Some(s.clone()),
                    _ => None,
                };
                let iin = match find_field(inner, 0x42) {
                    Some(Value::Numeric(n)) => Some(*n as u32),
                    _ => None,
                };
                (country, iin)
            },
            _ => (None, None),
        };
        Ok(ApplicationTemplate { aid, label, priority, country, iin })
    }
}

/// The values of the fields of `fs` tagged `tag`, in order.
pub open spec fn tagged(fs: Seq<Field>, tag: u16) -> Seq<Value>
    decreases fs.len(),
{
    if fs.len() == 0 {
        Seq::empty()
    } else {
        tagged(fs.drop_last(), tag) + if fs.last().tag == tag {
            seq![fs.last().value]
        } else {
            Seq::empty()
        }
    }
}

/// Reading the values `vs` as Application Templates succeeded up to `n`.
pub open spec fn templates_ok(vs: Seq<Value>, apps: Seq<ApplicationTemplate>, n: int) -> bool {
    &&& apps.len() == n
    &&& forall|i: int|
        0 <= i < n ==> (#[trigger] vs[i] matches Value::Template(inner) && template_outcome(
            inner@,
            Ok(apps[i]),
        ))
}

/// `r` is the outcome of reading every value of `vs` as an Application
/// Template: all of them, or the error of the first that fails.
pub open spec fn applications_outcome(
    vs: Seq<Value>,
    r: Result<Vec<ApplicationTemplate>, DecodeError>,
) -> bool {
    match r {
        Ok(apps) => vs.len() > 0 && templates_ok(vs, apps@, vs.len() as int),
        Err(e) => (vs.len() == 0 && e == DecodeError::NoSuchMember(0x61)) || exists|
            i: int,
            apps: Seq<ApplicationTemplate>,
        |
            #![trigger templates_ok(vs, apps, i)]
            0 <= i < vs.len() && templates_ok(vs, apps, i) && match vs[i] {
                Value::Template(inner) => template_outcome(
                    inner@,
                    Err::<ApplicationTemplate, DecodeError>(e),
                ),
                _ => e == DecodeError::WrongType(0x61, ElementType::Template),
            },
    }
}

/// Reads every Application Template (0x61) among `children`; there must be one.
pub fn applications_in(children: &Vec<Field>) -> (r: Result<Vec<ApplicationTemplate>, DecodeError>)
    ensures
        applications_outcome(tagged(children@, 0x61), r),
{
    let mut apps: Vec<ApplicationTemplate> = Vec::new();
    let mut i: usize = 0;
    while i < children.len()
        invariant
            i <= children@.len(),
            templates_ok(
                tagged(children@, 0x61),
                apps@,
                tagged(children@.subrange(0, i as int), 0x61).len() as int,
            ),
            tagged(children@.subrange(0, i as int), 0x61).len() <= tagged(children@, 0x61).len(),
            tagged(children@, 0x61).subrange(0, tagged(children@.subrange(0, i as int), 0x61).len() as int)
                == tagged(children@.subrange(0, i as int), 0x61),
        decreases children.len() - i,
    {
        proof {
            lemma_tagged_prefix(children@, i as int + 1);
            assert(children@.subrange(0, i + 1).drop_last() =~= children@.subrange(0, i as int));
        }
        let f = &children[i];
        if f.tag == 0x61 {
            let ghost vs = tagged(children@, 0x61);
            let ghost n = tagged(children@.subrange(0, i as int), 0x61).len() as int;
            proof {
                let s1 = children@.subrange(0, i + 1);
                assert(s1.last() == children@[i as int]);
                assert(tagged(s1, 0x61) =~= tagged(s1.drop_last(), 0x61) + seq![f.value]);
                assert(tagged(s1, 0x61)[n] == f.value);
                assert(vs.subrange(0, n + 1)[n] == vs[n]);
            }
            match &f.value {
                Value::Template(inner) => match ApplicationTemplate::from_fields(inner) {
                    Ok(t) => {
                        apps.push(t);
                        proof {
                            assert forall|j: int| 0 <= j < n + 1 implies (#[trigger] vs[j] matches Value::Template(inner) && template_outcome(
                                inner@,
                                Ok(apps@[j]),
                            )) by {
                                if j < n {
                                    assert(templates_ok(vs, apps@.drop_last(), n));
                                }
                            }
                        }
                    },
                    Err(e) => {
                        proof {
                            assert(templates_ok(vs, apps@, n));
                        }
                        return Err(e);
                    },
                },
                _ => {
                    proof {
                        assert(templates_ok(vs, apps@, n));
                    }
                    return Err(DecodeError::WrongType(0x61, ElementType::Template));
                },
            }
        }
        i += 1;
    }
    proof {
        assert(children@.subrange(0, i as int) =~= children@);
    }
    if apps.len() == 0 {
        return Err(DecodeError::NoSuchMember(0x61));
    }
    Ok(apps)
}

/// The values tagged `tag` in a prefix of `fs` begin those of `fs`.
proof fn lemma_tagged_prefix(fs: Seq<Field>, n: int)
    requires
        0 <= n <= fs.len(),
    ensures
        tagged(fs.subrange(0, n), 0x61).len() <= tagged(fs, 0x61).len(),
        tagged(fs, 0x61).subrange(0, tagged(fs.subrange(0, n), 0x61).len() as int) == tagged(
            fs.subrange(0, n),
            0x61,
        ),
    decreases fs.len(),
{
    if n == fs.len() {
        assert(fs.subrange(0, n) =~= fs);
        assert(tagged(fs, 0x61).subrange(0, tagged(fs, 0x61).len() as int) =~= tagged(fs, 0x61));
    } else {
        assert(fs.drop_last().subrange(0, n) =~= fs.subrange(0, n));
        lemma_tagged_prefix(fs.drop_last(), n);
        let a = tagged(fs.drop_last(), 0x61);
        let m = tagged(fs.subrange(0, n), 0x61).len() as int;
        assert(tagged(fs, 0x61).subrange(0, m) =~= a.subrange(0, m));
    }
}

/// The applications listed by a proximity PSE: all Application Templates of
/// FCI / 0xA5 / 0xBF0C.
pub fn list_from_ppse(pse_map: &Vec<Field>) -> (r: Result<Vec<ApplicationTemplate>, DecodeError>)
    ensures
        match descend(pse_map@, seq![0xa5u16, 0xbf0cu16]) {
            Err(e) => r matches Err(x) && x == e,
            Ok(Value::Template(children)) => applications_outcome(tagged(children@, 0x61), r),
            Ok(_) => r matches Err(x) && x == DecodeError::WrongType(0xbf0c, ElementType::Template),
        },
{
    let path: [u16; 2] = [0xa5, 0xbf0c];
    proof {
        assert(path@ =~= seq![0xa5u16, 0xbf0cu16]);
    }
    match fields_path(pse_map, &path) {
        Err(e) => Err(e),
        Ok(Value::Template(children)) => applications_in(children),
        Ok(_) => Err(DecodeError::WrongType(0xbf0c, ElementType::Template)),
    }
}

/// The root fields of the PSE that a SELECT answered with `response` and
/// status `sw`: the answer must be an FCI template (0x6F).
pub fn parse_pse_response(response: &[u8], sw: u16) -> (r: Result<Vec<Field>, CardError>)
    ensures
        sw != 0x9000 ==> r == Err::<Vec<Field>, CardError>(CardError::Status(sw)),
        sw == 0x9000 ==> match tlv_error(response@) {
            Some(e) => r == Err::<Vec<Field>, CardError>(CardError::Decode(e)),
            None => exists|f: Field|
                #![trigger tlv_ok(response@, f.tag, f.value)]
                tlv_ok(response@, f.tag, f.value) && if f.tag != 0x6f {
                    r == Err::<Vec<Field>, CardError>(CardError::UnexpectedTag(f.tag))
                } else {
                    match f.value {
                        Value::Template(children) => r matches Ok(x) && x@ == children@,
                        _ => r == Err::<Vec<Field>, CardError>(
                            CardError::Decode(DecodeError::WrongType(0x6f, ElementType::Template)),
                        ),
                    }
                },
        },
{
    if sw != 0x9000 {
        return Err(CardError::Status(sw));
    }
    let f = match read_field(response) {
        Ok(f) => f,
        Err(e) => {
            return Err(CardError::Decode(e));
        },
    };
    let ghost g = f;
    if f.tag != 0x6f {
        return Err(CardError::UnexpectedTag(f.tag));
    }
    match f.value {
        Value::Template(children) => Ok(children),
        _ => Err(CardError::Decode(DecodeError::WrongType(0x6f, ElementType::Template))),
    }
}

/// The short file identifier of the PSE directory (FCI / 0xA5 / 0x88).
pub fn pse_sfi(pse_map: &Vec<Field>) -> (r: Result<u8, CardError>)
    ensures
        match descend(pse_map@, seq![0xa5u16, 0x88u16]) {
            Err(e) => r == Err::<u8, CardError>(CardError::Decode(e)),
            Ok(Value::Binary(b)) => if b@.len() == 0 {
                r == Err::<u8, CardError>(CardError::TooShort(0))
            } else if b@[0] >= 32 {
                r == Err::<u8, CardError>(CardError::InvalidSfi(b@[0]))
            } else {
                r == Ok::<u8, CardError>(b@[0])
            },
            Ok(_) => r == Err::<u8, CardError>(
                CardError::Decode(DecodeError::WrongType(0x88, ElementType::Binary)),
            ),
        },
{
    let path: [u16; 2] = [0xa5, 0x88];
    proof {
        assert(path@ =~= seq![0xa5u16, 0x88u16]);
    }
    match fields_path(pse_map, &path) {
        Err(e) => Err(CardError::Decode(e)),
        Ok(Value::Binary(b)) => {
            if b.len() == 0 {
                return Err(CardError::TooShort(0));
            }
            let sfi = b[0];
            if sfi >= 32 {
                Err(CardError::InvalidSfi(sfi))
            } else {
                Ok(sfi)
            }
        },
        Ok(_) => Err(CardError::Decode(DecodeError::WrongType(0x88, ElementType::Binary))),
    }
}

/// The PSE directory record to read after `current` (`None` before the
/// first): records 1 to 15 in order, then none.
pub fn next_pse_record(current: Option<u8>) -> (r: Option<u8>)
    ensures
        r == match current {
            None => Some(1u8),
            Some(n) => if 1 <= n < 15 {
                Some((n + 1) as u8)
            } else {
                None::<u8>
            },
        },
{
    match current {
        None => Some(1),
        Some(n) => if 1 <= n && n < 15 {
            Some(n + 1)
        } else {
            None
        },
    }
}

/// The applications of a PSE record outcome, as a decoding outcome.
pub open spec fn record_apps(r: Result<Option<Vec<ApplicationTemplate>>, CardError>) -> Result<
    Vec<ApplicationTemplate>,
    DecodeError,
> {
    match r {
        Ok(Some(v)) => Ok(v),
        Err(CardError::Decode(e)) => Err(e),
        _ => Err(DecodeError::NoPathRequested),
    }
}

/// Takes the answer (`response`, `sw`) to READ RECORD of the PSE directory:
/// the Application Templates of the record, `None` past the last record
/// (0x6A83), or the status as an error.
pub fn pse_record(sw: u16, response: &[u8]) -> (r: Result<Option<Vec<ApplicationTemplate>>, CardError>)
    ensures
        sw == 0x6a83 ==> r matches Ok(None),
        sw != 0x9000 && sw != 0x6a83 ==> r == Err::<Option<Vec<ApplicationTemplate>>, CardError>(
            CardError::Status(sw),
        ),
        sw == 0x9000 ==> match tlv_error(response@) {
            Some(e) => r == Err::<Option<Vec<ApplicationTemplate>>, CardError>(CardError::Decode(e)),
            None => exists|f: Field|
                #![trigger tlv_ok(response@, f.tag, f.value)]
                tlv_ok(response@, f.tag, f.value) && match f.value {
                    Value::Template(children) => applications_outcome(
                        tagged(children@, 0x61),
                        record_apps(r),
                    ) && !(r matches Ok(None)),
                    _ => r == Err::<Option<Vec<ApplicationTemplate>>, CardError>(
                        CardError::Decode(DecodeError::WrongType(f.tag, ElementType::Template)),
                    ),
                },
        },
{
    if sw == 0x6a83 {
        return Ok(None);
    }
    if sw != 0x9000 {
        return Err(CardError::Status(sw));
    }
    let f = match read_field(response) {
        Ok(f) => f,
        Err(e) => {
            return Err(CardError::Decode(e));
        },
    };
    let ghost g = f;
    match &f.value {
        Value::Template(children) => match applications_in(children) {
            Ok(apps) => Ok(Some(apps)),
            Err(e) => Err(CardError::Decode(e)),
        },
        _ => Err(CardError::Decode(DecodeError::WrongType(f.tag, ElementType::Template))),
    }
}

/// Two-letter language codes from the bytes `b`: the first `n` pairs, those
/// that are ASCII.
pub open spec fn lang_codes(b: Seq<u8>, n: nat) -> Seq<Seq<char>>
    decreases n,
{
    if n == 0 {
        Seq::empty()
    } else {
        let pair = b.subrange(2 * n - 2, 2 * n as int);
        lang_codes(b, (n - 1) as nat) + if pair[0] < 0x80 && pair[1] < 0x80 {
            seq![ascii_chars(pair)]
        } else {
            Seq::empty()
        }
    }
}

/// The Language Preference (FCI / 0xA5 / 0x5F2D) split into two-letter codes.
pub fn languages(pse_map: &Vec<Field>) -> (r: Vec<String>)
    ensures
        match descend(pse_map@, seq![0xa5u16, 0x5f2du16]) {
            Ok(Value::Alphanumeric(s)) => r@.map_values(|x: String| x@) == lang_codes(
                vstd::utf8::encode_utf8(s@),
                vstd::utf8::encode_utf8(s@).len() / 2,
            ),
            _ => r@.len() == 0,
        },
{
    let mut out: Vec<String> = Vec::new();
    let path: [u16; 2] = [0xa5, 0x5f2d];
    proof {
        assert(path@ =~= seq![0xa5u16, 0x5f2du16]);
    }
    let s = match fields_path(pse_map, &path) {
        Ok(Value::Alphanumeric(s)) => s,
        _ => {
            return out;
        },
    };
    let b = s.as_str().as_bytes();
    let len = b.len();
    let pairs = len / 2;
    let mut i: usize = 0;
    while i < pairs
        invariant
            len == b@.len(),
            pairs == len / 2,
            i <= pairs,
            out@.map_values(|x: String| x@) == lang_codes(b@, i as nat),
        decreases pairs - i,
    {
        proof {
            assert(2 * i + 1 < len);
        }
        let hi = b[2 * i];
        let lo = b[2 * i + 1];
        let ghost before = out@;
        if hi < 0x80 && lo < 0x80 {
            let pair = vstd::slice::slice_to_vec(vstd::slice::slice_subrange(b, 2 * i, 2 * i + 2));
            out.push(crate::bcd::ascii_to_string(pair));
            proof {
                assert(out@.map_values(|x: String| x@) =~= before.map_values(|x: String| x@).push(
                    out@.last()@,
                ));
            }
        }
        proof {
            let pair = b@.subrange(2 * (i + 1) - 2, 2 * (i + 1));
            assert(pair[0] == hi && pair[1] == lo);
            assert(out@.map_values(|x: String| x@) =~= lang_codes(b@, (i + 1) as nat));
        }
        i += 1;
    }
    out
}

} // verus!
