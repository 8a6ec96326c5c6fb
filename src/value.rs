//! The decoded value tree: typed values, fields, templates and path lookup.
use vstd::prelude::*;

use crate::dol::Dol;
use crate::elements::ElementType;
use crate::errors::DecodeError;

verus! {

/// A decoded TLV value (EMV Book 3, section 4.3).
#[derive(Debug, PartialEq, Eq)]
pub enum Value {
    Alphabetic(String),
    Alphanumeric(String),
    AlphanumericSpecial(String),
    Binary(Vec<u8>),
    /// Compressed numeric, as its digits 0-9.
    DigitString(Vec<u8>),
    Numeric(u128),
    /// The fields of a template in wire order; a tag may repeat.
    Template(Vec<Field>),
    Dol(Dol),
}

/// A tag with its value.
#[derive(Debug, PartialEq, Eq)]
pub struct Field {
    pub tag: u16,
    pub value: Value,
}

/// The value of the first field of `fs` tagged `tag`.
pub open spec fn find_tag(fs: Seq<Field>, tag: u16) -> Option<Value>
    decreases fs.len(),
{
    if fs.len() == 0 {
        None
    } else if fs[0].tag == tag {
        Some(fs[0].value)
    } else {
        find_tag(fs.drop_first(), tag)
    }
}

/// Follows `path` from the fields `fs` of a template: each step takes the
/// first child with the tag, and every step but the last needs a template.
pub open spec fn descend(fs: Seq<Field>, path: Seq<u16>) -> Result<Value, DecodeError>
    decreases path.len(),
{
    if path.len() == 0 {
        Err(DecodeError::NoPathRequested)
    } else {
        match find_tag(fs, path[0]) {
            None => Err(DecodeError::NoSuchMember(path[0])),
            Some(v) => if path.len() == 1 {
                Ok(v)
            } else {
                match v {
                    Value::Template(inner) => descend(inner@, path.drop_first()),
                    _ => Err(DecodeError::WrongType(path[0], ElementType::Template)),
                }
            },
        }
    }
}

/// Path lookup from a value, which must be a template.
pub open spec fn value_path(v: Value, path: Seq<u16>) -> Result<Value, DecodeError> {
    match v {
        Value::Template(fs) => descend(fs@, path),
        _ => Err(DecodeError::WrongType(0, ElementType::Template)),
    }
}

/// One step of a path: the first child tagged `tag` of the template `v`.
pub open spec fn step(v: Value, tag: u16) -> Result<Value, DecodeError> {
    match v {
        Value::Template(fs) => match find_tag(fs@, tag) {
            Some(c) => Ok(c),
            None => Err(DecodeError::NoSuchMember(tag)),
        },
        _ => Err(DecodeError::WrongType(0, ElementType::Template)),
    }
}

impl Value {
    /// The alphabetic content, if this is one.
    pub fn into_alphabetic(self) -> (r: Option<String>)
        ensures
            r == match self {
                Value::Alphabetic(x) => Some(x),
                _ => None,
            },
    {
        match self {
            Value::Alphabetic(x) => Some(x),
            _ => None,
        }
    }

    /// The alphanumeric content, if this is one.
    pub fn into_alphanumeric(self) -> (r: Option<String>)
        ensures
            r == match self {
                Value::Alphanumeric(x) => Some(x),
                _ => None,
            },
    {
        match self {
            Value::Alphanumeric(x) => Some(x),
            _ => None,
        }
    }

    /// The alphanumeric special content, if this is one.
    pub fn into_alphanumeric_special(self) -> (r: Option<String>)
        ensures
            r == match self {
                Value::AlphanumericSpecial(x) => Some(x),
                _ => None,
            },
    {
        match self {
            Value::AlphanumericSpecial(x) => Some(x),
            _ => None,
        }
    }

    /// The binary content, if this is one.
    pub fn into_binary(self) -> (r: Option<Vec<u8>>)
        ensures
            r == match self {
                Value::Binary(x) => Some(x),
                _ => None,
            },
    {
        match self {
            Value::Binary(x) => Some(x),
            _ => None,
        }
    }

    /// The digit string content, if this is one.
    pub fn into_digit_string(self) -> (r: Option<Vec<u8>>)
        ensures
            r == match self {
                Value::DigitString(x) => Some(x),
                _ => None,
            },
    {
        match self {
            Value::DigitString(x) => Some(x),
            _ => None,
        }
    }

    /// The numeric content, if this is one.
    pub fn into_numeric(self) -> (r: Option<u128>)
        ensures
            r == match self {
                Value::Numeric(x) => Some(x),
                _ => None,
            },
    {
        match self {
            Value::Numeric(x) => Some(x),
            _ => None,
        }
    }

    /// The template content, if this is one.
    pub fn into_template(self) -> (r: Option<Vec<Field>>)
        ensures
            r == match self {
                Value::Template(x) => Some(x),
                _ => None,
            },
    {
        match self {
            Value::Template(x) => Some(x),
            _ => None,
        }
    }

    /// The dol content, if this is one.
    pub fn into_dol(self) -> (r: Option<Dol>)
        ensures
            r == match self {
                Value::Dol(x) => Some(x),
                _ => None,
            },
    {
        match self {
            Value::Dol(x) => Some(x),
            _ => None,
        }
    }

    /// A view of the alphabetic content, if this is one.
    pub fn as_alphabetic(&self) -> (r: Option<&str>)
        ensures
            match self {
                Value::Alphabetic(s) => r matches Some(x) && x@ == s@,
                _ => r is None,
            },
    {
        match self {
            Value::Alphabetic(x) => Some(x.as_str()),
            _ => None,
        }
    }

    /// A view of the alphanumeric content, if this is one.
    pub fn as_alphanumeric(&self) -> (r: Option<&str>)
        ensures
            match self {
                Value::Alphanumeric(s) => r matches Some(x) && x@ == s@,
                _ => r is None,
            },
    {
        match self {
            Value::Alphanumeric(x) => Some(x.as_str()),
            _ => None,
        }
    }

    /// A view of the alphanumeric special content, if this is one.
    pub fn as_alphanumeric_special(&self) -> (r: Option<&str>)
        ensures
            match self {
                Value::AlphanumericSpecial(s) => r matches Some(x) && x@ == s@,
                _ => r is None,
            },
    {
        match self {
            Value::AlphanumericSpecial(x) => Some(x.as_str()),
            _ => None,
        }
    }

    /// A view of the binary content, if this is one.
    pub fn as_binary(&self) -> (r: Option<&[u8]>)
        ensures
            match self {
                Value::Binary(s) => r matches Some(x) && x@ == s@,
                _ => r is None,
            },
    {
        match self {
            Value::Binary(x) => Some(x.as_slice()),
            _ => None,
        }
    }

    /// A view of the digit string content, if this is one.
    pub fn as_digit_string(&self) -> (r: Option<&[u8]>)
        ensures
            match self {
                Value::DigitString(s) => r matches Some(x) && x@ == s@,
                _ => r is None,
            },
    {
        match self {
            Value::DigitString(x) => Some(x.as_slice()),
            _ => None,
        }
    }

    /// A view of the numeric content, if this is one.
    pub fn as_numeric(&self) -> (r: Option<&u128>)
        ensures
            match self {
                Value::Numeric(s) => r matches Some(x) && *x == *s,
                _ => r is None,
            },
    {
        match self {
            Value::Numeric(x) => Some(x),
            _ => None,
        }
    }

    /// A view of the template content, if this is one.
    pub fn as_template(&self) -> (r: Option<&Vec<Field>>)
        ensures
            match self {
                Value::Template(s) => r matches Some(x) && x@ == s@,
                _ => r is None,
            },
    {
        match self {
            Value::Template(x) => Some(x),
            _ => None,
        }
    }

    /// A view of the dol content, if this is one.
    pub fn as_dol(&self) -> (r: Option<&Dol>)
        ensures
            match self {
                Value::Dol(s) => r matches Some(x) && x@ == s@,
                _ => r is None,
            },
    {
        match self {
            Value::Dol(x) => Some(x),
            _ => None,
        }
    }

    /// Follows `path` from this template.
    pub fn get_path(&self, path: &[u16]) -> (r: Result<&Value, DecodeError>)
        ensures
            match value_path(*self, path@) {
                Ok(v) => r matches Ok(x) && *x == v,
                Err(e) => r matches Err(x) && x == e,
            },
    {
        match self {
            Value::Template(fs) => fields_path(fs, path),
            _ => Err(DecodeError::WrongType(0, ElementType::Template)),
        }
    }

    /// Follows `path` from this template to a binary value.
    pub fn get_path_binary(&self, path: &[u16]) -> (r: Result<&[u8], DecodeError>)
        ensures
            match value_path(*self, path@) {
                Ok(Value::Binary(b)) => r matches Ok(x) && x@ == b@,
                Ok(_) => r matches Err(x) && x == DecodeError::WrongType(
                    path@.last(),
                    ElementType::Binary,
                ),
                Err(e) => r matches Err(x) && x == e,
            },
    {
        match self.get_path(path) {
            Ok(Value::Binary(b)) => Ok(b.as_slice()),
            Ok(_) => Err(DecodeError::WrongType(path[path.len() - 1], ElementType::Binary)),
            Err(e) => Err(e),
        }
    }

    /// Follows `path` from this template, giving up the rest of the tree.
    pub fn get_path_owned(self, path: &[u16]) -> (r: Result<Value, DecodeError>)
        ensures
            r == value_path(self, path@),
    {
        let mut fields = match self {
            Value::Template(fs) => fs,
            _ => {
                return Err(DecodeError::WrongType(0, ElementType::Template));
            },
        };
        if path.len() == 0 {
            return Err(DecodeError::NoPathRequested);
        }
        let ghost all = fields@;
        let mut i: usize = 0;
        proof {
            assert(path@.subrange(0, path@.len() as int) =~= path@);
        }
        loop
            invariant
                i < path@.len(),
                value_path(self, path@) == descend(all, path@),
                descend(all, path@) == descend(fields@, path@.subrange(i as int, path@.len() as int)),
            decreases path.len() - i,
        {
            let tag = path[i];
            let ghost rest = path@.subrange(i as int, path@.len() as int);
            proof {
                assert(rest.drop_first() =~= path@.subrange(i + 1, path@.len() as int));
                assert(rest[0] == tag);
                assert(rest.len() == 1 <==> i + 1 == path@.len());
            }
            let v = match take_field(fields, tag) {
                None => {
                    return Err(DecodeError::NoSuchMember(tag));
                },
                Some(v) => v,
            };
            if i + 1 == path.len() {
                return Ok(v);
            }
            match v {
                Value::Template(inner) => {
                    fields = inner;
                },
                _ => {
                    return Err(DecodeError::WrongType(tag, ElementType::Template));
                },
            }
            i += 1;
        }
    }
}

/// The value of the first field of `fs` tagged `tag`, taken out of `fs`.
fn take_field(fields: Vec<Field>, tag: u16) -> (r: Option<Value>)
    ensures
        r == find_tag(fields@, tag),
{
    let mut fs = fields;
    let ghost all = fs@;
    let mut i: usize = 0;
    proof {
        assert(all.subrange(0, all.len() as int) =~= all);
    }
    while i < fs.len()
        invariant
            fs@ == all,
            all == fields@,
            0 <= i <= all.len(),
            find_tag(all, tag) == find_tag(all.subrange(i as int, all.len() as int), tag),
        decreases all.len() - i,
    {
        proof {
            let rest = all.subrange(i as int, all.len() as int);
            assert(rest.drop_first() =~= all.subrange(i + 1, all.len() as int));
        }
        if fs[i].tag == tag {
            proof {
                let rest = all.subrange(i as int, all.len() as int);
                assert(rest[0] == all[i as int]);
                assert(find_tag(rest, tag) == Some(all[i as int].value));
            }
            let f = fs.swap_remove(i);
            return Some(f.value);
        }
        i += 1;
    }
    None
}

/// Looking up a one-tag path is one step from the template itself: the
/// first child with that tag.
pub proof fn lemma_path_single(v: Value, tag: u16)
    ensures
        value_path(v, seq![tag]) == step(v, tag),
{
    if let Value::Template(fs) = v {
        assert(seq![tag][0] == tag);
    }
}

/// Extending a path by one tag descends one step from what the path finds.
pub proof fn lemma_path_snoc(v: Value, path: Seq<u16>, tag: u16)
    requires
        path.len() > 0,
    ensures
        value_path(v, path.push(tag)) == match value_path(v, path) {
            Ok(Value::Template(fs)) => step(Value::Template(fs), tag),
            Ok(_) => Err(DecodeError::WrongType(path.last(), ElementType::Template)),
            Err(e) => Err(e),
        },
{
    if let Value::Template(fs) = v {
        lemma_descend_snoc(fs@, path, tag);
    }
}

proof fn lemma_descend_snoc(fs: Seq<Field>, path: Seq<u16>, tag: u16)
    requires
        path.len() > 0,
    ensures
        descend(fs, path.push(tag)) == match descend(fs, path) {
            Ok(Value::Template(inner)) => step(Value::Template(inner), tag),
            Ok(_) => Err(DecodeError::WrongType(path.last(), ElementType::Template)),
            Err(e) => Err(e),
        },
    decreases path.len(),
{
    let p2 = path.push(tag);
    assert(p2[0] == path[0]);
    if path.len() == 1 {
        assert(p2.drop_first() =~= seq![tag]);
        assert(path.last() == path[0]);
        match find_tag(fs, path[0]) {
            Some(Value::Template(inner)) => {
                assert(seq![tag][0] == tag);
                assert(descend(inner@, seq![tag]) == step(Value::Template(inner), tag));
            },
            _ => {},
        }
    } else {
        assert(p2.drop_first() =~= path.drop_first().push(tag));
        assert(path.drop_first().last() == path.last());
        match find_tag(fs, path[0]) {
            Some(Value::Template(inner)) => {
                lemma_descend_snoc(inner@, path.drop_first(), tag);
            },
            _ => {},
        }
    }
}

/// Follows `path` from the fields `fs` of a template.
pub fn fields_path<'a>(fs: &'a Vec<Field>, path: &[u16]) -> (r: Result<&'a Value, DecodeError>)
    ensures
        match descend(fs@, path@) {
            Ok(v) => r matches Ok(x) && *x == v,
            Err(e) => r matches Err(x) && x == e,
        },
{
    if path.len() == 0 {
        return Err(DecodeError::NoPathRequested);
    }
    let mut cur: &Vec<Field> = fs;
    let mut i: usize = 0;
    proof {
        assert(path@.subrange(0, path@.len() as int) =~= path@);
    }
    while i + 1 < path.len()
        invariant
            i < path@.len(),
            descend(fs@, path@) == descend(cur@, path@.subrange(i as int, path@.len() as int)),
        decreases path.len() - i,
    {
        let tag = path[i];
        let ghost rest = path@.subrange(i as int, path@.len() as int);
        proof {
            assert(rest.drop_first() =~= path@.subrange(i + 1, path@.len() as int));
            assert(rest[0] == tag);
            assert(rest.len() >= 2);
        }
        match find_field(cur, tag) {
            None => {
                return Err(DecodeError::NoSuchMember(tag));
            },
            Some(Value::Template(inner)) => {
                cur = inner;
            },
            Some(_) => {
                return Err(DecodeError::WrongType(tag, ElementType::Template));
            },
        }
        i += 1;
    }
    let last = path[i];
    proof {
        let rest = path@.subrange(i as int, path@.len() as int);
        assert(rest.len() == 1 && rest[0] == last);
    }
    match find_field(cur, last) {
        Some(v) => Ok(v),
        None => Err(DecodeError::NoSuchMember(last)),
    }
}

/// The first field of `fs` tagged `tag`.
pub fn find_field<'a>(fs: &'a Vec<Field>, tag: u16) -> (r: Option<&'a Value>)
    ensures
        match find_tag(fs@, tag) {
            Some(v) => r matches Some(x) && *x == v,
            None => r is None,
        },
{
    let mut i: usize = 0;
    proof {
        assert(fs@.subrange(0, fs@.len() as int) =~= fs@);
    }
    while i < fs.len()
        invariant
            0 <= i <= fs.len(),
            find_tag(fs@, tag) == find_tag(fs@.subrange(i as int, fs@.len() as int), tag),
        decreases fs.len() - i,
    {
        proof {
            let rest = fs@.subrange(i as int, fs@.len() as int);
            assert(rest.drop_first() =~= fs@.subrange(i + 1, fs@.len() as int));
        }
        if fs[i].tag == tag {
            return Some(&fs[i].value);
        }
        i += 1;
    }
    None
}

} // verus!
