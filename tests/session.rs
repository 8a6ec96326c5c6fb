use std::collections::HashMap;

use emv::ca_keys::{ca_key, KeyId};
use emv::chain::{check_recovered, parse_certificate, verify_recovered, IssuerPublicKey};
use emv::date::{date_ym, Date};
use emv::decoders::read_field;
use emv::errors::{CardError, DecodeError, VerifyError};
use emv::processing::{
    absorb_record, ddol_payload, gpo_response, initial_card_info, pdol_payload, record_reads,
    signed_dynamic_data, RecordRead,
};
use emv::pse::{
    applications_in, languages, list_from_ppse, next_pse_record, parse_pse_response, pse_record,
    pse_sfi, ApplicationTemplate,
};
use emv::value::{Field, Value};
use sha1::{Digest, Sha1};

fn tlv(tag: &[u8], value: &[u8]) -> Vec<u8> {
    let mut out = tag.to_vec();
    assert!(value.len() < 128);
    out.push(value.len() as u8);
    out.extend_from_slice(value);
    out
}

fn app_template(aid: &[u8], label: &[u8]) -> Vec<u8> {
    let mut inner = tlv(&[0x4f], aid);
    inner.extend(tlv(&[0x50], label));
    inner.extend(tlv(&[0x87], &[0x01]));
    tlv(&[0x61], &inner)
}

#[test]
fn ppse_lists_every_application() {
    let mut apps = app_template(&[0xa0, 0, 0, 0, 3, 0x10, 0x10], b"VISA");
    apps.extend(app_template(&[0xa0, 0, 0, 0, 4, 0x10, 0x10], b"MC"));
    let fci = tlv(&[0x6f], &tlv(&[0xa5], &tlv(&[0xbf, 0x0c], &apps)));
    let root = parse_pse_response(&fci, 0x9000).unwrap();
    let list = list_from_ppse(&root).unwrap();
    assert_eq!(list.len(), 2);
    assert_eq!(
        list[0],
        ApplicationTemplate {
            aid: vec![0xa0, 0, 0, 0, 3, 0x10, 0x10],
            label: "VISA".to_string(),
            priority: Some(1),
            country: None,
            iin: None,
        }
    );
    assert_eq!(list[1].label, "MC");
}

#[test]
fn pse_response_errors() {
    assert_eq!(parse_pse_response(&[], 0x6a82), Err(CardError::Status(0x6a82)));
    let not_fci = tlv(&[0x70], &[]);
    assert_eq!(parse_pse_response(&not_fci, 0x9000), Err(CardError::UnexpectedTag(0x70)));
    let fci = tlv(&[0x6f], &tlv(&[0xa5], &[]));
    let root = parse_pse_response(&fci, 0x9000).unwrap();
    assert_eq!(list_from_ppse(&root), Err(DecodeError::NoSuchMember(0xbf0c)));
    assert_eq!(applications_in(&vec![]), Err(DecodeError::NoSuchMember(0x61)));
}

#[test]
fn application_template_needs_aid_and_label() {
    let no_label = vec![Field { tag: 0x4f, value: Value::Binary(vec![1]) }];
    assert_eq!(ApplicationTemplate::from_fields(&no_label), Err(DecodeError::NoSuchMember(0x50)));
    assert_eq!(ApplicationTemplate::from_fields(&vec![]), Err(DecodeError::NoSuchMember(0x4f)));
}

#[test]
fn application_template_with_directory_data() {
    let mut inner = tlv(&[0x4f], &[0xa0, 0, 0, 0, 3]);
    inner.extend(tlv(&[0x50], b"CARD"));
    inner.extend(b"\x73\x0b\x5f\x55\x02US\x42\x04\x00\x44\x03\x93");
    let f = read_field(&tlv(&[0x61], &inner)).unwrap();
    let fields = f.value.into_template().unwrap();
    let t = ApplicationTemplate::from_fields(&fields).unwrap();
    assert_eq!(t.country, Some("US".to_string()));
    assert_eq!(t.iin, Some(440393));
    assert_eq!(t.priority, None);
}

#[test]
fn pse_directory_records() {
    let sfi_fci = tlv(&[0x6f], &tlv(&[0xa5], &[0x88, 0x01, 0x01, 0x5f, 0x2d, 0x04, b'e', b'n', b'f', b'r']));
    let root = parse_pse_response(&sfi_fci, 0x9000).unwrap();
    assert_eq!(pse_sfi(&root), Ok(1));
    assert_eq!(languages(&root), vec!["en".to_string(), "fr".to_string()]);
    let record = tlv(&[0x70], &app_template(&[0xa0, 0, 0, 0, 3], b"VISA"));
    let apps = pse_record(0x9000, &record).unwrap().unwrap();
    assert_eq!(apps[0].aid, vec![0xa0, 0, 0, 0, 3]);
    assert_eq!(pse_record(0x6a83, &[]), Ok(None));
    assert_eq!(pse_record(0x6985, &[]), Err(CardError::Status(0x6985)));
    let bad_sfi = tlv(&[0x6f], &tlv(&[0xa5], &[0x88, 0x01, 0x21]));
    let root = parse_pse_response(&bad_sfi, 0x9000).unwrap();
    assert_eq!(pse_sfi(&root), Err(CardError::InvalidSfi(0x21)));
}

#[test]
fn processing_options_flow() {
    let fci = read_field(&tlv(&[0x6f], &tlv(&[0xa5], &[0x9f, 0x38, 0x03, 0x9f, 0x37, 0x04])))
        .unwrap()
        .value
        .into_template()
        .unwrap();
    let mut state = HashMap::new();
    state.insert(0x9f37, Value::Binary(vec![0x00, 0x00, 0x00, 0x04]));
    assert_eq!(pdol_payload(&fci, &state), vec![0x83, 0x04, 0x00, 0x00, 0x00, 0x04]);
    assert_eq!(pdol_payload(&vec![], &state), vec![0x83, 0x00]);

    let gpo = read_field(&[0x80, 0x06, 0x19, 0x80, 0x08, 0x01, 0x02, 0x01]).unwrap();
    let (aip, afl) = gpo_response(&gpo).unwrap();
    assert_eq!(aip, vec![0x19, 0x80]);
    assert_eq!(afl, vec![0x08, 0x01, 0x02, 0x01]);
    let short = read_field(&[0x80, 0x02, 0x19, 0x80]).unwrap();
    assert_eq!(gpo_response(&short), Err(CardError::TooShort(2)));
    let mut f2 = tlv(&[0x82], &[0x19, 0x80]);
    f2.extend(tlv(&[0x94], &[0x58, 0x01, 0x01, 0x00]));
    let gpo2 = read_field(&tlv(&[0x77], &f2)).unwrap();
    assert_eq!(gpo_response(&gpo2).unwrap().1, vec![0x58, 0x01, 0x01, 0x00]);

    let reads = record_reads(&[0x08, 0x01, 0x02, 0x01, 0x58, 0x03, 0x03, 0x01, 0xff]);
    assert_eq!(
        reads,
        vec![
            RecordRead { sfi: 1, record: 1, sda: true },
            RecordRead { sfi: 1, record: 2, sda: false },
            RecordRead { sfi: 11, record: 3, sda: true },
        ]
    );

    let mut info = initial_card_info(aip, afl);
    let mut sda = Vec::new();
    let rec1 = tlv(&[0x70], &[0x5a, 0x02, 0x12, 0x34]);
    absorb_record(&mut info, &mut sda, reads[0], &rec1).unwrap();
    assert_eq!(sda, vec![0x5a, 0x02, 0x12, 0x34]);
    let rec3 = tlv(&[0x70], &[0x8f, 0x01, 0x05]);
    absorb_record(&mut info, &mut sda, reads[2], &rec3).unwrap();
    assert_eq!(&sda[4..], &rec3[..]);
    absorb_record(&mut info, &mut sda, reads[1], &rec1).unwrap();
    assert_eq!(sda.len(), 4 + rec3.len());
    assert_eq!(info.len(), 5);
    assert_eq!(info[2], Field { tag: 0x5a, value: Value::DigitString(vec![1, 2, 3, 4]) });
    let not_template = [0x5a, 0x01, 0x12];
    assert_eq!(
        absorb_record(&mut info, &mut sda, reads[0], &not_template),
        Err(CardError::Decode(DecodeError::WrongType(0x5a, emv::elements::ElementType::Template)))
    );
}

#[test]
fn internal_authenticate_data() {
    let options = read_field(&tlv(&[0x70], &[0x9f, 0x49, 0x03, 0x9f, 0x37, 0x02]))
        .unwrap()
        .value
        .into_template()
        .unwrap();
    let mut state = HashMap::new();
    state.insert(0x9f37, Value::Binary(vec![0xab, 0xcd, 0xef]));
    assert_eq!(ddol_payload(&options, &state), Ok(vec![0xab, 0xcd]));
    assert_eq!(ddol_payload(&vec![], &state), Err(DecodeError::NoSuchMember(0x9f49)));
    let sdad = read_field(&tlv(&[0x77], &tlv(&[0x9f, 0x4b], &[1, 2, 3]))).unwrap();
    assert_eq!(signed_dynamic_data(&sdad), Ok(vec![1, 2, 3]));
    let f1 = read_field(&[0x80, 0x02, 9, 9]).unwrap();
    assert_eq!(signed_dynamic_data(&f1), Ok(vec![9, 9]));
    let other = read_field(&[0x70, 0x00]).unwrap();
    assert_eq!(signed_dynamic_data(&other), Err(CardError::UnexpectedTag(0x70)));
}

#[test]
fn expiry_is_last_day_of_month() {
    assert_eq!(date_ym(&[0x12, 0x25]), Ok(Date { year: 2025, month: 12, day: 31 }));
    assert_eq!(date_ym(&[0x02, 0x24]), Ok(Date { year: 2024, month: 2, day: 29 }));
    assert_eq!(date_ym(&[0x02, 0x23]), Ok(Date { year: 2023, month: 2, day: 28 }));
    assert_eq!(date_ym(&[0x04, 0x30]), Ok(Date { year: 2030, month: 4, day: 30 }));
    assert_eq!(date_ym(&[0x13, 0x25]), Err(VerifyError::InvalidData));
    assert_eq!(date_ym(&[0x00, 0x25]), Err(VerifyError::InvalidData));
    assert_eq!(date_ym(&[0x1a, 0x25]), Err(VerifyError::InvalidData));
}

#[test]
fn ca_key_table() {
    let visa = ca_key(&KeyId { rid: [0xa0, 0, 0, 0, 4], index: 5 }).unwrap();
    assert_eq!(visa.exponent, 3);
    assert_eq!(visa.modulus.len(), 256);
    assert_eq!(&visa.modulus[..80], &[0u8; 80][..]);
    assert_eq!(visa.modulus[80], 0xb8);
    assert_eq!(visa.expiry, Date { year: 2024, month: 12, day: 31 });
    assert!(ca_key(&KeyId { rid: [0xa0, 0, 0, 0, 4], index: 7 }).is_none());
}

/// A recovered Issuer certificate of `k` bytes with IIN 476173, modulus
/// length `l` and exponent 3, signed with SHA-1 over `remainder`.
fn issuer_payload(k: usize, l: u8, remainder: &[u8]) -> Vec<u8> {
    let mut rec = vec![0u8; k];
    rec[0] = 0x6a;
    rec[1] = 0x02;
    rec[2..6].copy_from_slice(&[0x47, 0x61, 0x73, 0xff]);
    rec[6..8].copy_from_slice(&[0x12, 0x25]);
    rec[8..11].copy_from_slice(&[0x01, 0x02, 0x03]);
    rec[11] = 0x01;
    rec[12] = 0x01;
    rec[13] = l;
    rec[14] = 0x01;
    for (i, b) in rec[15..k - 21].iter_mut().enumerate() {
        *b = (i as u8).wrapping_mul(7).wrapping_add(1);
    }
    let mut h = Sha1::new();
    h.update(&rec[1..k - 21]);
    h.update(remainder);
    h.update([0x03]);
    let digest = h.finalize();
    rec[k - 21..k - 1].copy_from_slice(&digest);
    rec[k - 1] = 0xbc;
    rec
}

fn pan() -> Vec<u8> {
    vec![4, 7, 6, 1, 7, 3, 9, 0, 0, 0, 0, 0, 0, 0, 1, 0]
}

#[test]
fn issuer_certificate_modulus_inside_payload() {
    let k = 176;
    let rec = issuer_payload(k, 16, &[]);
    let key = check_recovered(false, &rec, &[0x03], &[], &pan(), &[]).unwrap();
    assert_eq!(key.pan, vec![4, 7, 6, 1, 7, 3]);
    assert_eq!(key.exponent, 3);
    assert_eq!(key.serial_number, [1, 2, 3]);
    assert_eq!(key.expiry, Date { year: 2025, month: 12, day: 31 });
    assert_eq!(key.modulus.len(), 256);
    assert_eq!(&key.modulus[240..], &rec[15..31]);
    assert_eq!(&key.modulus[..240], &[0u8; 240][..]);
}

#[test]
fn issuer_certificate_modulus_with_remainder() {
    let k = 176;
    let remainder = [0x55u8; 36];
    let rec = issuer_payload(k, 176, &remainder);
    let key = check_recovered(false, &rec, &[0x03], &remainder, &pan(), &[]).unwrap();
    let mut expected = rec[15..k - 21].to_vec();
    expected.extend_from_slice(&remainder);
    assert_eq!(&key.modulus[256 - expected.len()..], &expected[..]);
}

#[test]
fn issuer_certificate_rejections() {
    let k = 176;
    let rec = issuer_payload(k, 16, &[]);
    let mut tampered = rec.clone();
    tampered[20] ^= 1;
    assert_eq!(
        check_recovered(false, &tampered, &[0x03], &[], &pan(), &[]),
        Err(VerifyError::InvalidSignature)
    );
    assert_eq!(
        check_recovered(false, &rec, &[0x03], &[], &[5, 5, 5, 5, 5, 5, 5], &[]),
        Err(VerifyError::UnmatchedPAN)
    );
    assert_eq!(
        check_recovered(true, &rec, &[0x03], &[], &pan(), &[]),
        Err(VerifyError::InvalidSignature)
    );
    assert_eq!(
        check_recovered(false, &rec[..35], &[0x03], &[], &pan(), &[]),
        Err(VerifyError::InvalidSignature)
    );
}

fn certificate_options(cert: &[u8]) -> Vec<Field> {
    vec![
        Field { tag: 0x8f, value: Value::Binary(vec![0x05]) },
        Field { tag: 0x90, value: Value::Binary(cert.to_vec()) },
        Field { tag: 0x9f32, value: Value::Binary(vec![0x03]) },
        Field { tag: 0x5a, value: Value::DigitString(pan()) },
    ]
}

#[test]
fn certificate_is_recovered_with_the_parent_key() {
    let k = 176;
    let rec = issuer_payload(k, 16, &[]);
    let modulus = vec![0xffu8; k];
    let options = certificate_options(&rec);
    let key = parse_certificate(false, &modulus, 1, &options, &[]).unwrap();
    assert_eq!(key.pan, vec![4, 7, 6, 1, 7, 3]);
    assert_eq!(
        parse_certificate(false, &modulus, 3, &options, &[]),
        Err(VerifyError::InvalidSignature)
    );
}

#[test]
fn certificate_input_errors() {
    let rec = issuer_payload(176, 16, &[]);
    let options = certificate_options(&rec);
    let short_modulus = vec![0xffu8; 128];
    assert_eq!(
        parse_certificate(false, &short_modulus, 3, &options, &[]),
        Err(VerifyError::CertificateLengthMismatch { mod_size: 128, cert_size: 176 })
    );
    let even = {
        let mut m = vec![0xffu8; 176];
        m[175] = 0xfe;
        m
    };
    assert_eq!(parse_certificate(false, &even, 3, &options, &[]), Err(VerifyError::InvalidData));
    assert_eq!(
        parse_certificate(false, &even, 3, &certificate_options(&rec).into_iter().skip(2).collect::<Vec<Field>>(), &[]),
        Err(VerifyError::MissingTag(0x90))
    );
    assert_eq!(
        parse_certificate(true, &even, 3, &options, &[]),
        Err(VerifyError::MissingTag(0x9f46))
    );
    let big = vec![0x6au8; 250];
    let big_modulus = vec![0xffu8; 250];
    assert_eq!(
        parse_certificate(false, &big_modulus, 3, &certificate_options(&big), &[]),
        Err(VerifyError::CertificateTooLarge(250))
    );
}

#[test]
fn issuer_key_lookup_errors() {
    let rec = issuer_payload(176, 16, &[]);
    let options = certificate_options(&rec);
    assert_eq!(
        IssuerPublicKey::from_options([0xa0, 0, 0, 0, 9], &options),
        Err(VerifyError::UnknownCAKey { rid: [0xa0, 0, 0, 0, 9], index: 5 })
    );
    assert_eq!(
        IssuerPublicKey::from_options([0xa0, 0, 0, 0, 4], &certificate_options(&rec).into_iter().skip(1).collect::<Vec<Field>>()),
        Err(VerifyError::MissingTag(0x8f))
    );
    assert_eq!(
        IssuerPublicKey::from_options([0xa0, 0, 0, 0, 4], &options),
        Err(VerifyError::InvalidSignature)
    );
}

#[test]
fn certificate_trailer_must_be_bc() {
    let k = 176;
    let mut rec = issuer_payload(k, 16, &[]);
    rec[k - 1] = 0xbb;
    assert_eq!(
        check_recovered(false, &rec, &[0x03], &[], &pan(), &[]),
        Err(VerifyError::InvalidSignature)
    );
}

#[test]
fn verification_with_given_digest() {
    let k = 176;
    let rec = issuer_payload(k, 16, &[]);
    let digest = rec[k - 21..k - 1].to_vec();
    let key = verify_recovered(false, &rec, &[0x03], &[], &pan(), &digest).unwrap();
    assert_eq!(key.pan, vec![4, 7, 6, 1, 7, 3]);
    assert_eq!(&key.modulus[240..], &rec[15..31]);
    let mut other = digest.clone();
    other[0] ^= 0xff;
    assert_eq!(
        verify_recovered(false, &rec, &[0x03], &[], &pan(), &other),
        Err(VerifyError::InvalidSignature)
    );
}

#[test]
fn pse_records_one_to_fifteen() {
    let mut seen = Vec::new();
    let mut next = next_pse_record(None);
    while let Some(r) = next {
        seen.push(r);
        next = next_pse_record(Some(r));
    }
    assert_eq!(seen, (1..16).collect::<Vec<u8>>());
}
