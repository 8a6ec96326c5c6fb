//! Error taxonomies of the TLV codec and of the certificate verifier.
use vstd::prelude::*;

use crate::elements::ElementType;

verus! {

/// The restricted character sets of EMV string values.
#[derive(Debug, PartialEq, Eq, Clone, Copy)]
pub enum StringType {
    Alphabetic,
    Alphanumeric,
    AlphanumericSpecial,
}

/// Why a TLV byte string could not be decoded, or a path not followed.
#[derive(Debug, PartialEq, Eq)]
pub enum DecodeError {
    /// A BCD nibble outside 0-9.
    BadBcd(u8),
    /// An error inside the value of the field with this tag.
    TemplateInternal(u16, Box<DecodeError>),
    /// (largest accepted, found).
    LengthTooLong(usize, usize),
    /// (bytes needed, bytes present).
    MessageTooShort(usize, usize),
    UnsupportedChar(StringType, u8),
    NoPathRequested,
    /// The field with this tag is not of the expected kind.
    WrongType(u16, ElementType),
    NoSuchMember(u16),
}

/// Why a public-key certificate was not accepted.
#[derive(Debug, PartialEq, Eq, Clone, Copy)]
pub enum VerifyError {
    UnknownCAKey { rid: [u8; 5], index: u8 },
    CertificateTooLarge(usize),
    CertificateLengthMismatch { mod_size: usize, cert_size: usize },
    InvalidSignature,
    InvalidData,
    MissingTag(u16),
    UnmatchedPAN,
}

/// Why a step of a card session failed.
#[derive(Debug, PartialEq, Eq)]
pub enum CardError {
    /// A response did not decode, or lacked a field.
    Decode(DecodeError),
    /// The card answered with this status word.
    Status(u16),
    /// A response had this unexpected root tag.
    UnexpectedTag(u16),
    /// A short file identifier with its top three bits set.
    InvalidSfi(u8),
    /// A response of this many bytes is too short.
    TooShort(usize),
}

} // verus!
