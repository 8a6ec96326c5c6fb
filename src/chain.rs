//! Offline data authentication: recovery and checking of Issuer and ICC
//! public-key certificates (EMV Book 2, Annex B2).
use vstd::prelude::*;

use crypto_bigint::modular::runtime_mod::{DynResidue, DynResidueParams};
use crypto_bigint::{Encoding, U2048};
use sha1::{Digest, Sha1};
use vstd::arithmetic::power::pow;

use crate::bcd::{cn_spec, compressed_numeric};
use crate::ca_keys::{ca_expiry, ca_key, ca_modulus, KeyId};
use crate::date::{date_ym, expiry_spec, Date};
use crate::decoders::be_value;
use crate::dol::zeros;
use crate::prefix::append_bytes;
use crate::errors::VerifyError;
use crate::value::{find_field, find_tag, Field, Value};

verus! {

/// The SHA-1 digest of `data`.
pub uninterp spec fn sha1_of(data: Seq<u8>) -> Seq<u8>;

/// Relies on sha1's `Sha1::digest`: the 20-byte SHA-1 digest of `data`,
/// which depends on `data` alone.
#[verifier::external_body]
fn sha1_digest(data: &[u8]) -> (r: Vec<u8>)
    ensures
        r@ == sha1_of(data@),
        r@.len() == 20,
{
    Sha1::digest(data).to_vec()
}

/// Relies on crypto-bigint's `U2048` and `DynResidue`: `from_be_slice` of
/// 256 bytes, Montgomery exponentiation modulo an odd modulus
/// (`DynResidueParams::new` panics on an even one) with a 32-bit exponent,
/// and `to_be_bytes` of the reduced result.
#[verifier::external_body]
fn mod_pow(base: &[u8], modulus: &[u8], exponent: u32) -> (r: Vec<u8>)
    requires
        base@.len() == 256,
        modulus@.len() == 256,
        modulus@[255] % 2 == 1,
    ensures
        r@.len() == 256,
        be_value(r@) == pow(be_value(base@) as int, exponent as nat) % (be_value(
            modulus@,
        ) as int),
{
    let m = U2048::from_be_slice(modulus);
    let c = U2048::from_be_slice(base);
    let params = DynResidueParams::new(&m);
    let r = DynResidue::new(&c, params).pow_bounded_exp(&U2048::from_u32(exponent), 32);
    r.retrieve().to_be_bytes().to_vec()
}

/// What a certificate yields: PAN or IIN digits, expiry, serial number,
/// public exponent and 2048-bit modulus (256 big-endian bytes).
#[derive(Debug, PartialEq, Eq, Clone)]
pub struct CertificateData {
    pub pan: Vec<u8>,
    pub expiry: Date,
    pub serial_number: [u8; 3],
    pub exponent: u32,
    pub modulus: Vec<u8>,
}

impl CertificateData {
    pub open spec fn model(&self) -> (Seq<u8>, Date, Seq<u8>, u32, Seq<u8>) {
        (self.pan@, self.expiry, self.serial_number@, self.exponent, self.modulus@)
    }
}

/// `b` as a 2048-bit number: zero-extended, or cut on the left, to 256 bytes.
pub open spec fn to_2048(b: Seq<u8>) -> Seq<u8> {
    if b.len() >= 256 {
        b.subrange(b.len() - 256, b.len() as int)
    } else {
        zeros((256 - b.len()) as nat) + b
    }
}

/// Bytes of the PAN field in a recovered certificate: the IIN (4) for an
/// Issuer certificate, the whole PAN (10) for an ICC certificate.
pub open spec fn pan_len(is_icc: bool) -> int {
    if is_icc {
        10
    } else {
        4
    }
}

/// Whether `a` is a prefix of `b`.
pub open spec fn is_prefix(a: Seq<u8>, b: Seq<u8>) -> bool {
    a.len() <= b.len() && b.subrange(0, a.len() as int) == a
}

/// The child modulus: within the payload where its declared length fits,
/// else the payload's tail followed by the remainder.
pub open spec fn child_modulus(is_icc: bool, rec: Seq<u8>, rem: Seq<u8>) -> Result<
    Seq<u8>,
    VerifyError,
> {
    let k = rec.len() as int;
    let p = pan_len(is_icc);
    let l = rec[9 + p] as int;
    if l <= k - 32 - p {
        Ok(to_2048(rec.subrange(11 + p, 11 + p + l)))
    } else if rem.len() > 248 {
        Err(VerifyError::CertificateTooLarge(rem.len() as usize))
    } else {
        Ok(to_2048(rec.subrange(11 + p, k - 21) + rem))
    }
}

/// The fixed bytes of a recovered certificate: header 0x6A, format 0x02
/// (Issuer) or 0x04 (ICC), hash and signature algorithm 01 01, trailer 0xBC,
/// in a block long enough for the layout.
pub open spec fn layout_ok(is_icc: bool, rec: Seq<u8>) -> bool {
    let k = rec.len() as int;
    let p = pan_len(is_icc);
    let format: u8 = if is_icc { 4 } else { 2 };
    &&& k >= 32 + p
    &&& rec[0] == 0x6a
    &&& rec[1] == format
    &&& rec[7 + p] == 1
    &&& rec[8 + p] == 1
    &&& rec[k - 1] == 0xbc
}

/// The data whose SHA-1 digest a certificate carries: its payload, the
/// remainder, the exponent and the further signed data.
pub open spec fn signature_input(rec: Seq<u8>, exp: Seq<u8>, rem: Seq<u8>, signed: Seq<u8>) -> Seq<
    u8,
> {
    rec.subrange(1, rec.len() - 21) + rem + exp + signed
}

/// Checking a recovered certificate `rec` whose signed data has the SHA-1
/// digest `digest`, against the child exponent `exp`, remainder `rem` and
/// card PAN digits `pan`.
pub open spec fn verify_spec(
    is_icc: bool,
    rec: Seq<u8>,
    exp: Seq<u8>,
    rem: Seq<u8>,
    pan: Seq<u8>,
    digest: Seq<u8>,
) -> Result<(Seq<u8>, Date, Seq<u8>, u32, Seq<u8>), VerifyError> {
    let k = rec.len() as int;
    let p = pan_len(is_icc);
    if !layout_ok(is_icc, rec) {
        Err(VerifyError::InvalidSignature)
    } else if digest != rec.subrange(k - 21, k - 1) {
        Err(VerifyError::InvalidSignature)
    } else {
        match cn_spec(rec.subrange(2, 2 + p)) {
            Err(_) => Err(VerifyError::UnmatchedPAN),
            Ok(cert_pan) => if (is_icc && cert_pan != pan) || (!is_icc && !is_prefix(
                cert_pan,
                pan,
            )) {
                Err(VerifyError::UnmatchedPAN)
            } else {
                match child_modulus(is_icc, rec, rem) {
                    Err(e) => Err(e),
                    Ok(m) => if exp.len() > 4 {
                        Err(VerifyError::InvalidData)
                    } else {
                        match expiry_spec(rec[2 + p], rec[3 + p]) {
                            Err(e) => Err(e),
                            Ok(d) => Ok(
                                (cert_pan, d, rec.subrange(4 + p, 7 + p), be_value(exp) as u32, m),
                            ),
                        }
                    },
                }
            },
        }
    }
}

/// Checking a recovered certificate `rec` against the child exponent `exp`,
/// remainder `rem`, card PAN digits `pan` and further signed data `signed`.
pub open spec fn check_spec(
    is_icc: bool,
    rec: Seq<u8>,
    exp: Seq<u8>,
    rem: Seq<u8>,
    pan: Seq<u8>,
    signed: Seq<u8>,
) -> Result<(Seq<u8>, Date, Seq<u8>, u32, Seq<u8>), VerifyError> {
    if !layout_ok(is_icc, rec) {
        Err(VerifyError::InvalidSignature)
    } else {
        verify_spec(is_icc, rec, exp, rem, pan, sha1_of(signature_input(rec, exp, rem, signed)))
    }
}

/// `r` is the executable form of the outcome `s`.
pub open spec fn outcome_is(
    r: Result<CertificateData, VerifyError>,
    s: Result<(Seq<u8>, Date, Seq<u8>, u32, Seq<u8>), VerifyError>,
) -> bool {
    match r {
        Ok(d) => s == Ok::<(Seq<u8>, Date, Seq<u8>, u32, Seq<u8>), VerifyError>(d.model()),
        Err(e) => s == Err::<(Seq<u8>, Date, Seq<u8>, u32, Seq<u8>), VerifyError>(e),
    }
}


fn bytes_equal(a: &[u8], b: &[u8]) -> (r: bool)
    ensures
        r == (a@ == b@),
{
    if a.len() != b.len() {
        return false;
    }
    let mut i: usize = 0;
    while i < a.len()
        invariant
            a@.len() == b@.len(),
            i <= a@.len(),
            forall|j: int| 0 <= j < i ==> a@[j] == b@[j],
        decreases a.len() - i,
    {
        if a[i] != b[i] {
            return false;
        }
        i += 1;
    }
    proof {
        assert(a@ =~= b@);
    }
    true
}

fn starts_with(b: &[u8], a: &[u8]) -> (r: bool)
    ensures
        r == is_prefix(a@, b@),
{
    if a.len() > b.len() {
        return false;
    }
    let r = bytes_equal(a, vstd::slice::slice_subrange(b, 0, a.len()));
    proof {
        if !r {
            assert(b@.subrange(0, a@.len() as int) != a@);
        }
    }
    r
}

/// `slice` preceded by zero bytes up to `len` bytes.
pub fn left_pad_slice(slice: &[u8], len: usize) -> (r: Vec<u8>)
    requires
        slice@.len() <= len,
    ensures
        r@ == zeros((len - slice@.len()) as nat) + slice@,
{
    let mut out: Vec<u8> = Vec::new();
    let pad = len - slice.len();
    let mut i: usize = 0;
    while i < pad
        invariant
            i <= pad,
            out@ =~= zeros(i as nat),
        decreases pad - i,
    {
        out.push(0);
        i += 1;
    }
    append_bytes(&mut out, slice);
    out
}

/// `b` as 256 big-endian bytes.
fn to_2048_bytes(b: &[u8]) -> (r: Vec<u8>)
    ensures
        r@ == to_2048(b@),
{
    if b.len() >= 256 {
        vstd::slice::slice_to_vec(vstd::slice::slice_subrange(b, b.len() - 256, b.len()))
    } else {
        left_pad_slice(b, 256)
    }
}

/// A certificate as a 2048-bit number; at most 248 bytes are accepted.
pub fn certificate_to_bigint(certificate: &[u8]) -> (r: Result<Vec<u8>, VerifyError>)
    ensures
        certificate@.len() > 248 ==> r == Err::<Vec<u8>, VerifyError>(
            VerifyError::CertificateTooLarge(certificate@.len() as usize),
        ),
        certificate@.len() <= 248 ==> (r matches Ok(v) && v@ == to_2048(certificate@)),
{
    if certificate.len() > 248 {
        return Err(VerifyError::CertificateTooLarge(certificate.len()));
    }
    Ok(left_pad_slice(certificate, 256))
}

/// At most four bytes read as a big-endian integer.
fn be_u32(b: &[u8]) -> (r: u32)
    requires
        b@.len() <= 4,
    ensures
        r as nat == be_value(b@),
{
    let mut v: u64 = 0;
    let mut i: usize = 0;
    while i < b.len()
        invariant
            b@.len() <= 4,
            i <= b@.len(),
            v == be_value(b@.subrange(0, i as int)),
            i == 0 ==> v == 0,
            i == 1 ==> v < 0x100,
            i == 2 ==> v < 0x10000,
            i == 3 ==> v < 0x1000000,
            i == 4 ==> v < 0x100000000,
        decreases b.len() - i,
    {
        proof {
            assert(b@.subrange(0, i + 1).drop_last() =~= b@.subrange(0, i as int));
        }
        v = v * 256 + b[i] as u64;
        i += 1;
    }
    proof {
        assert(b@.subrange(0, i as int) =~= b@);
    }
    v as u32
}

/// Checks a recovered certificate of `recovered.len()` bytes (the parent
/// modulus length): its fixed bytes, the SHA-1 digest of the payload,
/// remainder, exponent and `signed`, and the PAN binding; then reads the key.
pub fn check_recovered(
    is_icc: bool,
    recovered: &[u8],
    exponent: &[u8],
    remainder: &[u8],
    pan: &[u8],
    signed: &[u8],
) -> (r: Result<CertificateData, VerifyError>)
    ensures
        outcome_is(r, check_spec(is_icc, recovered@, exponent@, remainder@, pan@, signed@)),
        r is Ok ==> pan_len(is_icc) + 11 + 21 <= recovered@.len(),
{
    if !has_layout(is_icc, recovered) {
        return Err(VerifyError::InvalidSignature);
    }
    let k = recovered.len();
    let mut input: Vec<u8> = Vec::new();
    append_bytes(&mut input, vstd::slice::slice_subrange(recovered, 1, k - 21));
    append_bytes(&mut input, remainder);
    append_bytes(&mut input, exponent);
    append_bytes(&mut input, signed);
    proof {
        assert(input@ =~= signature_input(recovered@, exponent@, remainder@, signed@));
    }
    let digest = sha1_digest(input.as_slice());
    verify_recovered(is_icc, recovered, exponent, remainder, pan, digest.as_slice())
}

fn has_layout(is_icc: bool, recovered: &[u8]) -> (r: bool)
    ensures
        r == layout_ok(is_icc, recovered@),
{
    let k = recovered.len();
    let p: usize = if is_icc { 10 } else { 4 };
    let format: u8 = if is_icc { 4 } else { 2 };
    k >= 32 + p && recovered[0] == 0x6a && recovered[1] == format && recovered[7 + p] == 1
        && recovered[8 + p] == 1 && recovered[k - 1] == 0xbc
}

/// Checks a recovered certificate given the SHA-1 `digest` of its signed
/// data: the fixed bytes, the digest it carries, and the PAN binding; then
/// reads the key.
pub fn verify_recovered(
    is_icc: bool,
    recovered: &[u8],
    exponent: &[u8],
    remainder: &[u8],
    pan: &[u8],
    digest: &[u8],
) -> (r: Result<CertificateData, VerifyError>)
    ensures
        outcome_is(r, verify_spec(is_icc, recovered@, exponent@, remainder@, pan@, digest@)),
        r is Ok ==> pan_len(is_icc) + 11 + 21 <= recovered@.len(),
{
    if !has_layout(is_icc, recovered) {
        return Err(VerifyError::InvalidSignature);
    }
    let k = recovered.len();
    let p: usize = if is_icc { 10 } else { 4 };
    if !bytes_equal(digest, vstd::slice::slice_subrange(recovered, k - 21, k - 1)) {
        return Err(VerifyError::InvalidSignature);
    }
    let cert_pan = match compressed_numeric(vstd::slice::slice_subrange(recovered, 2, 2 + p)) {
        Ok(d) => d,
        Err(_) => {
            return Err(VerifyError::UnmatchedPAN);
        },
    };
    let bound = if is_icc {
        bytes_equal(cert_pan.as_slice(), pan)
    } else {
        starts_with(pan, cert_pan.as_slice())
    };
    if !bound {
        return Err(VerifyError::UnmatchedPAN);
    }
    let l = recovered[9 + p] as usize;
    let modulus = if l <= k - 32 - p {
        to_2048_bytes(vstd::slice::slice_subrange(recovered, 11 + p, 11 + p + l))
    } else {
        if remainder.len() > 248 {
            return Err(VerifyError::CertificateTooLarge(remainder.len()));
        }
        let mut joined = vstd::slice::slice_to_vec(
            vstd::slice::slice_subrange(recovered, 11 + p, k - 21),
        );
        append_bytes(&mut joined, remainder);
        to_2048_bytes(joined.as_slice())
    };
    if exponent.len() > 4 {
        return Err(VerifyError::InvalidData);
    }
    let expiry = match date_ym(vstd::slice::slice_subrange(recovered, 2 + p, 4 + p)) {
        Ok(d) => d,
        Err(e) => {
            return Err(e);
        },
    };
    let serial_number = [recovered[4 + p], recovered[5 + p], recovered[6 + p]];
    let exponent_value = be_u32(exponent);
    let r = CertificateData {
        pan: cert_pan,
        expiry,
        serial_number,
        exponent: exponent_value,
        modulus,
    };
    proof {
        assert(serial_number@ =~= recovered@.subrange(4 + p, 7 + p));
    }
    Ok(r)
}

/// The certificate, exponent and remainder tags of an Issuer or ICC certificate.
pub open spec fn cert_tags(is_icc: bool) -> (u16, u16, u16) {
    if is_icc {
        (0x9f46, 0x9f47, 0x9f48)
    } else {
        (0x90, 0x9f32, 0x92)
    }
}

/// The bytes of the first field tagged `tag`, where it is binary.
pub open spec fn binary_field(fs: Seq<Field>, tag: u16) -> Option<Seq<u8>> {
    match find_tag(fs, tag) {
        Some(Value::Binary(b)) => Some(b@),
        _ => None,
    }
}

/// The digits of the first field tagged `tag`, where it is a digit string.
pub open spec fn digits_field(fs: Seq<Field>, tag: u16) -> Option<Seq<u8>> {
    match find_tag(fs, tag) {
        Some(Value::DigitString(d)) => Some(d@),
        _ => None,
    }
}

/// The length of `m` without its leading zero bytes.
pub open spec fn sig_len(m: Seq<u8>) -> nat
    decreases m.len(),
{
    if m.len() == 0 {
        0
    } else if m[0] == 0 {
        sig_len(m.drop_first())
    } else {
        m.len()
    }
}

/// The data signed after the certificate's own fields: `extra`, then for an
/// ICC certificate the AIP where the SDA tag list is present.
pub open spec fn signed_data(is_icc: bool, fs: Seq<Field>, extra: Seq<u8>) -> Seq<u8> {
    if is_icc && find_tag(fs, 0x9f4a) is Some {
        extra + match binary_field(fs, 0x82) {
            Some(a) => a,
            None => Seq::empty(),
        }
    } else {
        extra
    }
}

/// What is read and checked before recovery: the certificate, the child
/// exponent, the remainder, the card's PAN digits, the parent modulus as 256
/// bytes and its length `k` without leading zeros.
pub open spec fn certificate_inputs(is_icc: bool, parent: Seq<u8>, fs: Seq<Field>) -> Result<
    (Seq<u8>, Seq<u8>, Seq<u8>, Seq<u8>, Seq<u8>, nat),
    VerifyError,
> {
    let (ct, et, rt) = cert_tags(is_icc);
    match (binary_field(fs, ct), binary_field(fs, et), digits_field(fs, 0x5a)) {
        (None, _, _) => Err(VerifyError::MissingTag(ct)),
        (Some(_), None, _) => Err(VerifyError::MissingTag(et)),
        (Some(_), Some(_), None) => Err(VerifyError::MissingTag(0x5a)),
        (Some(c), Some(e), Some(pan)) => {
            let rem = match binary_field(fs, rt) {
                Some(r) => r,
                None => Seq::empty(),
            };
            let m = to_2048(parent);
            let k = sig_len(m);
            if k != c.len() {
                Err(
                    VerifyError::CertificateLengthMismatch {
                        mod_size: k as usize,
                        cert_size: c.len() as usize,
                    },
                )
            } else if c.len() > 248 {
                Err(VerifyError::CertificateTooLarge(c.len() as usize))
            } else if m[255] % 2 == 0 {
                Err(VerifyError::InvalidData)
            } else {
                Ok((c, e, rem, pan, m, k))
            }
        },
    }
}

/// `r` is the outcome of verifying the Issuer (`is_icc` false) or ICC
/// certificate in `fs` under the parent key (`parent`, `exponent`): an input
/// error, or the check of the certificate recovered as
/// certificate^exponent mod modulus, as many bytes as the modulus has.
pub open spec fn certificate_outcome(
    is_icc: bool,
    parent: Seq<u8>,
    exponent: u32,
    fs: Seq<Field>,
    extra: Seq<u8>,
    r: Result<CertificateData, VerifyError>,
) -> bool {
    match certificate_inputs(is_icc, parent, fs) {
        Err(e) => r == Err::<CertificateData, VerifyError>(e),
        Ok((c, e, rem, pan, m, k)) => exists|full: Seq<u8>|
            {
                &&& full.len() == 256
                &&& #[trigger] be_value(full) == pow(be_value(to_2048(c)) as int, exponent as nat) % (
                be_value(m) as int)
                &&& outcome_is(
                    r,
                    check_spec(
                        is_icc,
                        full.subrange(256 - k, 256),
                        e,
                        rem,
                        pan,
                        signed_data(is_icc, fs, extra),
                    ),
                )
            },
    }
}

fn significant_len(m: &[u8]) -> (r: usize)
    ensures
        r == sig_len(m@),
{
    let mut i: usize = 0;
    proof {
        assert(m@.subrange(0, m@.len() as int) =~= m@);
    }
    while i < m.len() && m[i] == 0
        invariant
            i <= m@.len(),
            sig_len(m@) == sig_len(m@.subrange(i as int, m@.len() as int)),
        decreases m.len() - i,
    {
        proof {
            assert(m@.subrange(i as int, m@.len() as int).drop_first() =~= m@.subrange(
                i + 1,
                m@.len() as int,
            ));
        }
        i += 1;
    }
    m.len() - i
}

fn binary_of(options: &Vec<Field>, tag: u16) -> (r: Option<&[u8]>)
    ensures
        match binary_field(options@, tag) {
            Some(b) => r matches Some(x) && x@ == b,
            None => r is None,
        },
{
    match find_field(options, tag) {
        Some(Value::Binary(b)) => Some(b.as_slice()),
        _ => None,
    }
}

/// Verifies the Issuer (`is_icc` false) or ICC certificate found in
/// `options` under the parent key (`parent_modulus`, `parent_exponent`).
pub fn parse_certificate(
    is_icc: bool,
    parent_modulus: &[u8],
    parent_exponent: u32,
    options: &Vec<Field>,
    extra_signed_data: &[u8],
) -> (r: Result<CertificateData, VerifyError>)
    ensures
        certificate_outcome(is_icc, parent_modulus@, parent_exponent, options@, extra_signed_data@, r),
{
    let (ct, et, rt) = if is_icc {
        (0x9f46u16, 0x9f47u16, 0x9f48u16)
    } else {
        (0x90u16, 0x9f32u16, 0x92u16)
    };
    let certificate = match binary_of(options, ct) {
        Some(b) => b,
        None => {
            return Err(VerifyError::MissingTag(ct));
        },
    };
    let exponent = match binary_of(options, et) {
        Some(b) => b,
        None => {
            return Err(VerifyError::MissingTag(et));
        },
    };
    let remainder: &[u8] = match binary_of(options, rt) {
        Some(b) => b,
        None => &[],
    };
    let pan: &[u8] = match find_field(options, 0x5a) {
        Some(Value::DigitString(d)) => d.as_slice(),
        _ => {
            return Err(VerifyError::MissingTag(0x5a));
        },
    };
    let modulus = to_2048_bytes(parent_modulus);
    let k = significant_len(modulus.as_slice());
    if k != certificate.len() {
        return Err(
            VerifyError::CertificateLengthMismatch { mod_size: k, cert_size: certificate.len() },
        );
    }
    let c = match certificate_to_bigint(certificate) {
        Ok(c) => c,
        Err(e) => {
            return Err(e);
        },
    };
    if modulus[255] % 2 == 0 {
        return Err(VerifyError::InvalidData);
    }
    proof {
        assert(k <= 256) by {
            lemma_sig_len_le(modulus@);
        }
    }
    let full = mod_pow(c.as_slice(), modulus.as_slice(), parent_exponent);
    let recovered = vstd::slice::slice_subrange(full.as_slice(), 256 - k, 256);
    let mut signed = vstd::slice::slice_to_vec(extra_signed_data);
    if is_icc && find_field(options, 0x9f4a).is_some() {
        match binary_of(options, 0x82) {
            Some(aip) => append_bytes(&mut signed, aip),
            None => {},
        }
    }
    proof {
        assert(signed@ =~= signed_data(is_icc, options@, extra_signed_data@));
    }
    let r = check_recovered(is_icc, recovered, exponent, remainder, pan, signed.as_slice());
    proof {
        assert(be_value(full@) == pow(be_value(to_2048(certificate@)) as int, parent_exponent as nat)
            % (be_value(modulus@) as int));
    }
    r
}

proof fn lemma_sig_len_le(m: Seq<u8>)
    ensures
        sig_len(m) <= m.len(),
    decreases m.len(),
{
    if m.len() > 0 {
        lemma_sig_len_le(m.drop_first());
    }
}

/// An Issuer public key, recovered from its certificate.
#[derive(Debug, PartialEq, Eq, Clone)]
pub struct IssuerPublicKey {
    pub iin: Vec<u8>,
    pub expiry: Date,
    pub serial_number: [u8; 3],
    pub exponent: u32,
    pub modulus: Vec<u8>,
}

/// An ICC public key, recovered from its certificate.
#[derive(Debug, PartialEq, Eq, Clone)]
pub struct ICCPublicKey {
    pub pan: Vec<u8>,
    pub expiry: Date,
    pub serial_number: [u8; 3],
    pub exponent: u32,
    pub modulus: Vec<u8>,
}

pub open spec fn issuer_as_data(r: Result<IssuerPublicKey, VerifyError>) -> Result<
    CertificateData,
    VerifyError,
> {
    match r {
        Ok(k) => Ok(
            CertificateData {
                pan: k.iin,
                expiry: k.expiry,
                serial_number: k.serial_number,
                exponent: k.exponent,
                modulus: k.modulus,
            },
        ),
        Err(e) => Err(e),
    }
}

pub open spec fn icc_as_data(r: Result<ICCPublicKey, VerifyError>) -> Result<
    CertificateData,
    VerifyError,
> {
    match r {
        Ok(k) => Ok(
            CertificateData {
                pan: k.pan,
                expiry: k.expiry,
                serial_number: k.serial_number,
                exponent: k.exponent,
                modulus: k.modulus,
            },
        ),
        Err(e) => Err(e),
    }
}

/// The CA public key index: the first byte of tag 0x8F.
pub open spec fn ca_index(fs: Seq<Field>) -> Option<u8> {
    match binary_field(fs, 0x8f) {
        Some(b) => if b.len() > 0 {
            Some(b[0])
        } else {
            None
        },
        None => None,
    }
}

impl IssuerPublicKey {
    /// Verifies the Issuer certificate in `options` under the CA key of the
    /// payment system `rid` that tag 0x8F names.
    pub fn from_options(rid: [u8; 5], options: &Vec<Field>) -> (r: Result<Self, VerifyError>)
        ensures
            match ca_index(options@) {
                None => r == Err::<Self, VerifyError>(VerifyError::MissingTag(0x8f)),
                Some(index) => match ca_expiry(rid@, index) {
                    None => r == Err::<Self, VerifyError>(
                        VerifyError::UnknownCAKey { rid, index },
                    ),
                    Some(_) => certificate_outcome(
                        false,
                        ca_modulus(rid@, index),
                        3,
                        options@,
                        Seq::empty(),
                        issuer_as_data(r),
                    ),
                },
            },
    {
        let index = match binary_of(options, 0x8f) {
            Some(b) => {
                if b.len() == 0 {
                    return Err(VerifyError::MissingTag(0x8f));
                }
                b[0]
            },
            None => {
                return Err(VerifyError::MissingTag(0x8f));
            },
        };
        let ca = match ca_key(&KeyId { rid, index }) {
            Some(k) => k,
            None => {
                return Err(VerifyError::UnknownCAKey { rid, index });
            },
        };
        let empty: [u8; 0] = [];
        let r = match parse_certificate(false, ca.modulus.as_slice(), ca.exponent, options, &empty) {
            Ok(c) => Ok(
                IssuerPublicKey {
                    iin: c.pan,
                    expiry: c.expiry,
                    serial_number: c.serial_number,
                    exponent: c.exponent,
                    modulus: c.modulus,
                },
            ),
            Err(e) => Err(e),
        };
        proof {
            assert(empty@ =~= Seq::<u8>::empty());
            assert(certificate_outcome(
                false,
                ca.modulus@,
                ca.exponent,
                options@,
                Seq::empty(),
                issuer_as_data(r),
            ));
        }
        r
    }
}

impl ICCPublicKey {
    /// Verifies the ICC certificate in `options` under `issuer_key`; the
    /// static data to authenticate is `sda_data`.
    pub fn from_options(issuer_key: &IssuerPublicKey, sda_data: &[u8], options: &Vec<Field>) -> (r:
        Result<Self, VerifyError>)
        ensures
            certificate_outcome(
                true,
                issuer_key.modulus@,
                issuer_key.exponent,
                options@,
                sda_data@,
                icc_as_data(r),
            ),
    {
        let r = match parse_certificate(
            true,
            issuer_key.modulus.as_slice(),
            issuer_key.exponent,
            options,
            sda_data,
        ) {
            Ok(c) => Ok(
                ICCPublicKey {
                    pan: c.pan,
                    expiry: c.expiry,
                    serial_number: c.serial_number,
                    exponent: c.exponent,
                    modulus: c.modulus,
                },
            ),
            Err(e) => Err(e),
        };
        r
    }
}

} // verus!
