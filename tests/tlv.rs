use emv::bcd::{compressed_numeric, numeric};
use emv::decoders::{self, binary, read_field, read_tl, template};
use emv::elements::{element, element_type, ElementType};
use emv::encode::{encode_field, encode_fields};
use emv::errors::{DecodeError, StringType};
use emv::value::{Field, Value};

#[test]
fn test_read_alphabetic() {
    assert_eq!(
        decoders::alphabetic(&b"OwO"[..]),
        Ok(Value::Alphabetic("OwO".to_string()))
    )
}

#[test]
fn test_read_alphabetic_unsupported_char() {
    assert_eq!(
        decoders::alphabetic(&b" OwO"[..]),
        Err(DecodeError::UnsupportedChar(StringType::Alphabetic, b' '))
    )
}

#[test]
fn test_read_alphanumeric() {
    assert_eq!(
        decoders::alphanumeric(&b"OwO420"[..]),
        Ok(Value::Alphanumeric("OwO420".to_string()))
    )
}

#[test]
fn test_read_alphanumeric_unsupported_char() {
    assert_eq!(
        decoders::alphanumeric(&b"OwO_420"[..]),
        Err(DecodeError::UnsupportedChar(StringType::Alphanumeric, b'_'))
    )
}

#[test]
fn test_read_alphanumeric_special() {
    assert_eq!(
        decoders::alphanumeric_special(&b"XxX_OwO42069_XxX"[..]),
        Ok(Value::AlphanumericSpecial("XxX_OwO42069_XxX".to_string()))
    )
}

#[test]
fn test_read_alphanumeric_special_unsupported_char() {
    assert_eq!(
        decoders::alphanumeric_special(&b"OwO_420\x7f"[..]),
        Err(DecodeError::UnsupportedChar(
            StringType::AlphanumericSpecial,
            b'\x7f'
        ))
    )
}

#[test]
fn test_parse_ddt() {
    assert_eq!(
        read_field(&b"\x73\x0b\x5f\x55\x02US\x42\x04\x00\x44\x03\x93"[..]).unwrap(),
        Field {
            tag: 0x73,
            value: Value::Template(vec![
                Field {
                    tag: 0x5f55,
                    value: Value::Alphabetic("US".to_string()),
                },
                Field {
                    tag: 0x42,
                    value: Value::Numeric(440393),
                }
            ])
        }
    )
}

#[test]
fn test_read_tl_empty() {
    assert_eq!(read_tl(&b"\x80\x00"[..]).unwrap(), (0x80, 0, 2))
}

#[test]
fn test_read_tl_long_tag() {
    assert_eq!(read_tl(&b"\x7f\x99\x02\x12\x34"[..]).unwrap(), (0x7f99, 2, 3))
}

#[test]
fn test_read_tl_ff_length() {
    assert_eq!(read_tl(&b"\x80\x81\xff"[..]).unwrap(), (0x80, 0xff, 3))
}

#[test]
fn test_read_tl_lorge() {
    assert_eq!(
        read_tl(&b"\x7f\x99\x84\xff\xff\xff\xff"[..]).unwrap(),
        (0x7f99, 0xffff_ffff, 7)
    )
}

#[test]
fn two_byte_tag_value() {
    let f = read_field(&[0x7f, 0x99, 0x02, 0x12, 0x34]).unwrap();
    assert_eq!(f.tag, 0x7f99);
    assert_eq!(f.value, Value::Binary(vec![0x12, 0x34]));
}

#[test]
fn read_tl_errors() {
    assert_eq!(read_tl(&[]), Err(DecodeError::MessageTooShort(2, 0)));
    assert_eq!(read_tl(&[0x9f]), Err(DecodeError::MessageTooShort(3, 1)));
    assert_eq!(read_tl(&[0x80, 0x85, 0, 0, 0, 0, 0]), Err(DecodeError::LengthTooLong(4, 5)));
    assert_eq!(read_tl(&[0x80, 0x82, 0x01]), Err(DecodeError::MessageTooShort(4, 3)));
}

#[test]
fn read_tl_boundary_lengths() {
    assert_eq!(read_tl(&[0x80, 0x7f]).unwrap(), (0x80, 0x7f, 2));
    assert_eq!(read_tl(&[0x80, 0x80]).unwrap(), (0x80, 0, 2));
    assert_eq!(read_tl(&[0x1f, 0x1f, 0x00]).unwrap(), (0x1f1f, 0, 3));
}

#[test]
fn value_longer_than_message() {
    assert_eq!(
        read_field(&[0x5a, 0x05, 0x12]),
        Err(DecodeError::MessageTooShort(7, 3))
    );
}

#[test]
fn inner_error_is_wrapped_with_tag_path() {
    let raw = [0x73, 0x04, 0x5f, 0x55, 0x01, 0x31];
    assert_eq!(
        read_field(&raw),
        Err(DecodeError::TemplateInternal(
            0x73,
            Box::new(DecodeError::TemplateInternal(
                0x5f55,
                Box::new(DecodeError::UnsupportedChar(StringType::Alphabetic, b'1'))
            ))
        ))
    );
}

#[test]
fn empty_template() {
    assert_eq!(template(&[]), Ok(vec![]));
    let f = read_field(&[0x70, 0x00]).unwrap();
    assert_eq!(f.value, Value::Template(vec![]));
}

#[test]
fn template_keeps_duplicates_in_order() {
    let raw = [0x61, 0x03, 0x4f, 0x01, 0xaa, 0x61, 0x03, 0x4f, 0x01, 0xbb];
    let fs = template(&raw).unwrap();
    assert_eq!(fs.len(), 2);
    assert_eq!(fs[0].tag, 0x61);
    assert_eq!(
        fs[1].value,
        Value::Template(vec![Field { tag: 0x4f, value: Value::Binary(vec![0xbb]) }])
    );
}

#[test]
fn numeric_values() {
    assert_eq!(numeric(&[0x00, 0x44, 0x03, 0x93]), Ok(440393));
    assert_eq!(numeric(&[0x08, 0x40]), Ok(840));
    assert_eq!(numeric(&[]), Ok(0));
    assert_eq!(numeric(&[0x1a]), Err(DecodeError::BadBcd(0x0a)));
    assert_eq!(numeric(&[0x99; 19]), Ok(99_999_999_999_999_999_999_999_999_999_999_999_999));
    assert_eq!(numeric(&[0x00; 20]), Err(DecodeError::LengthTooLong(19, 20)));
}

#[test]
fn digit_strings() {
    assert_eq!(compressed_numeric(&[0x12, 0x34, 0x5f, 0xff]), Ok(vec![1, 2, 3, 4, 5]));
    assert_eq!(compressed_numeric(&[0x47, 0x61]), Ok(vec![4, 7, 6, 1]));
    assert_eq!(compressed_numeric(&[0x1c]), Err(DecodeError::BadBcd(0x0c)));
    assert_eq!(compressed_numeric(&[0x1f, 0xcc]), Ok(vec![1]));
    assert_eq!(compressed_numeric(&[0x11; 11]), Err(DecodeError::LengthTooLong(10, 11)));
}

#[test]
fn binary_copies() {
    assert_eq!(binary(&[1, 2, 3]), vec![1, 2, 3]);
}

#[test]
fn dictionary_lookup() {
    assert_eq!(element_type(0x5a), ElementType::DigitString);
    assert_eq!(element_type(0x9f38), ElementType::Dol);
    assert_eq!(element_type(0x1234), ElementType::Binary);
    assert_eq!(element(0x50).unwrap().name, "Application Label");
    assert!(element(0x1234).is_none());
    assert_eq!(element(0x57).unwrap().name, "Track 2 Equivalent Data");
    assert_eq!(element(0x5a).unwrap().short_name, Some("PAN"));
}

#[test]
fn dol_value_decodes_entries() {
    let f = read_field(&[0x9f, 0x38, 0x06, 0x9f, 0x37, 0x04, 0x5f, 0x2a, 0x02]).unwrap();
    match f.value {
        Value::Dol(d) => {
            assert_eq!(d.get_size(), 6);
            assert_eq!(d.get_entries().len(), 2);
            assert_eq!(d.get_entries()[0].tag, 0x9f37);
            assert_eq!(d.get_entries()[1].size, 2);
        }
        other => panic!("not a DOL: {:?}", other),
    }
}

#[test]
fn reencoding_is_minimal_and_decodes_back() {
    let raw = b"\x73\x0b\x5f\x55\x02US\x42\x04\x00\x44\x03\x93";
    let f = read_field(&raw[..]).unwrap();
    let out = encode_field(&f);
    assert_eq!(
        out,
        vec![0x73, 0x0a, 0x5f, 0x55, 0x02, b'U', b'S', 0x42, 0x03, 0x44, 0x03, 0x93]
    );
    assert!(out.len() <= raw.len());
    assert_eq!(read_field(&out).unwrap(), f);

    let long_form = [0x5a, 0x81, 0x03, 0x12, 0x34, 0x5f, 0x9f, 0x38, 0x82, 0x00, 0x03, 0x9f, 0x37, 0x04];
    let fs = template(&long_form).unwrap();
    let out = encode_fields(&fs);
    assert_eq!(out, vec![0x5a, 0x03, 0x12, 0x34, 0x5f, 0x9f, 0x38, 0x03, 0x9f, 0x37, 0x04]);
    assert_eq!(template(&out).unwrap(), fs);
}
