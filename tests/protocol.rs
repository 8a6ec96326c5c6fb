use std::collections::HashMap;

use emv::apdu::{start_exchange, exchange_step, ADPUCommand, ExchangeError, Next, Stage};
use emv::dol::{DOLEntry, Dol};
use emv::elements::ElementType;
use emv::prefix::encode_tl;
use emv::errors::DecodeError;
use emv::value::{Field, Value};

fn state() -> HashMap<u16, Value> {
    let mut s = HashMap::new();
    s.insert(0x9f37, Value::Binary(vec![0x00, 0x00, 0x00, 0x04]));
    s.insert(0x5f2a, Value::Numeric(840));
    s.insert(0x5a, Value::DigitString(vec![1, 2, 3]));
    s.insert(0x50, Value::AlphanumericSpecial("VISA".to_string()));
    s.insert(0x70, Value::Template(vec![]));
    s
}

#[test]
fn dol_encoding_formats_each_type() {
    let dol = Dol::new_from_entries(vec![
        DOLEntry { tag: 0x9f37, size: 4 },
        DOLEntry { tag: 0x5f2a, size: 2 },
        DOLEntry { tag: 0x5a, size: 3 },
        DOLEntry { tag: 0x50, size: 6 },
        DOLEntry { tag: 0x9f02, size: 2 },
        DOLEntry { tag: 0x70, size: 1 },
    ]);
    assert_eq!(dol.get_size(), 18);
    let out = dol.encode(None, &state());
    assert_eq!(
        out,
        vec![
            0x00, 0x00, 0x00, 0x04, 0x08, 0x40, 0x12, 0x3f, 0xff, b'V', b'I', b'S', b'A', 0, 0,
            0x00, 0x00, 0x00
        ]
    );
}

#[test]
fn dol_encoding_truncates_and_cuts_numbers() {
    let dol = Dol::new_from_entries(vec![
        DOLEntry { tag: 0x9f37, size: 2 },
        DOLEntry { tag: 0x5f2a, size: 1 },
    ]);
    assert_eq!(dol.encode(None, &state()), vec![0x00, 0x00, 0x40]);
}

#[test]
fn dol_encoding_wraps_with_minimal_prefix() {
    let dol = Dol::new_from_entries(vec![DOLEntry { tag: 0x9f37, size: 4 }]);
    assert_eq!(
        dol.encode(Some(0x83), &state()),
        vec![0x83, 0x04, 0x00, 0x00, 0x00, 0x04]
    );
    let big = Dol::new_from_entries(vec![DOLEntry { tag: 0x1234, size: 200 }]);
    let out = big.encode(Some(0x83), &state());
    assert_eq!(out.len(), 203);
    assert_eq!(&out[..3], &[0x83, 0x81, 200]);
    let wide = Dol::new_from_entries(vec![DOLEntry { tag: 0x1234, size: 300 }]);
    let out = wide.encode(Some(0x9f4b), &state());
    assert_eq!(out.len(), 2 + 3 + 300);
    assert_eq!(&out[..5], &[0x9f, 0x4b, 0x82, 0x01, 0x2c]);
}

#[test]
fn dol_encoded_length_is_sum_of_sizes() {
    let dol = Dol::new_from_entries(vec![
        DOLEntry { tag: 0x9f37, size: 7 },
        DOLEntry { tag: 0x1, size: 0 },
        DOLEntry { tag: 0x5a, size: 5 },
    ]);
    assert_eq!(dol.encode(None, &HashMap::new()).len(), 12);
    assert_eq!(dol.encode(None, &state()).len(), 12);
}

#[test]
fn minimal_length_prefix() {
    let mut out = Vec::new();
    encode_tl(0x70, 0x7f, &mut out);
    assert_eq!(out, vec![0x70, 0x7f]);
    let mut out = Vec::new();
    encode_tl(0x70, 0x80, &mut out);
    assert_eq!(out, vec![0x70, 0x81, 0x80]);
    let mut out = Vec::new();
    encode_tl(0xbf0c, 0x1_0000, &mut out);
    assert_eq!(out, vec![0xbf, 0x0c, 0x83, 0x01, 0x00, 0x00]);
}

#[test]
fn apdu_select_encoding() {
    let aid = b"2PAY.SYS.DDF01";
    let c = ADPUCommand::select(aid);
    let mut expected = vec![0x00, 0xa4, 0x04, 0x00, 14];
    expected.extend_from_slice(aid);
    expected.push(0x00);
    assert_eq!(c.encode(), Some(expected));
}

#[test]
fn apdu_standard_commands() {
    assert_eq!(
        ADPUCommand::read_record(2, 1).encode(),
        Some(vec![0x00, 0xb2, 0x01, 0x14, 0x00])
    );
    assert_eq!(
        ADPUCommand::get_processing_options(&[0x83, 0x00]).encode(),
        Some(vec![0x80, 0xa8, 0x00, 0x00, 0x02, 0x83, 0x00, 0x00])
    );
    assert_eq!(
        ADPUCommand::internal_authenticate(&[1, 2, 3, 4]).encode(),
        Some(vec![0x00, 0x88, 0x00, 0x00, 0x04, 1, 2, 3, 4, 0x00])
    );
}

#[test]
fn apdu_length_forms() {
    let none = ADPUCommand { cla: 1, ins: 2, p1: 3, p2: 4, data: &[], ne: 0 };
    assert_eq!(none.encode(), Some(vec![1, 2, 3, 4]));
    let ext_le = ADPUCommand { ne: 65536, ..none };
    assert_eq!(ext_le.encode(), Some(vec![1, 2, 3, 4, 0, 0, 0]));
    let le_300 = ADPUCommand { ne: 300, ..none };
    assert_eq!(le_300.encode(), Some(vec![1, 2, 3, 4, 0, 0x01, 0x2c]));
    let data = vec![0xaa; 256];
    let ext_lc = ADPUCommand { data: &data, ne: 65536, ..none };
    let out = ext_lc.encode().unwrap();
    assert_eq!(&out[..7], &[1, 2, 3, 4, 0, 0x01, 0x00]);
    assert_eq!(out.len(), 7 + 256 + 2);
    assert_eq!(&out[263..], &[0, 0]);
}

#[test]
fn apdu_rejects_oversized() {
    let none = ADPUCommand { cla: 1, ins: 2, p1: 3, p2: 4, data: &[], ne: 65537 };
    assert_eq!(none.encode(), None);
    let data = vec![0u8; 65536];
    let big = ADPUCommand { data: &data, ne: 0, ..none };
    assert_eq!(big.encode(), None);
    assert_eq!(start_exchange(&big), Err(ExchangeError::Unencodable));
}

#[test]
fn apdu_distinct_commands_distinct_bytes() {
    let a = ADPUCommand { cla: 0, ins: 0, p1: 0, p2: 0, data: &[], ne: 256 };
    let b = ADPUCommand { ne: 0, ..a };
    let c = ADPUCommand { data: &[0], ne: 0, ..a };
    assert_ne!(a.encode(), b.encode());
    assert_ne!(a.encode(), c.encode());
    assert_ne!(b.encode(), c.encode());
}

#[test]
fn exchange_with_continuation() {
    let aid = [0xa0, 0, 0, 0, 3];
    let cmd = ADPUCommand::select(&aid);
    let first = start_exchange(&cmd).unwrap();
    assert_eq!(first, cmd.encode().unwrap());
    let mut response = Vec::new();
    let mut reply = vec![0x11u8; 40];
    reply.extend_from_slice(&[0x61, 0x10]);
    let next = exchange_step(&cmd, Stage::Command, &reply, &mut response).unwrap();
    assert_eq!(next, Next::Send(vec![0x00, 0xc0, 0x00, 0x00, 0x10], Stage::Continuation));
    let mut reply = vec![0x22u8; 16];
    reply.extend_from_slice(&[0x90, 0x00]);
    let next = exchange_step(&cmd, Stage::Continuation, &reply, &mut response).unwrap();
    assert_eq!(next, Next::Finished(0x9000));
    assert_eq!(response.len(), 56);
}

#[test]
fn exchange_wrong_length_resends_once() {
    let cmd = ADPUCommand::read_record(1, 1);
    let mut response = Vec::new();
    let next = exchange_step(&cmd, Stage::Command, &[0x6c, 0x1a], &mut response).unwrap();
    assert_eq!(next, Next::Send(vec![0x00, 0xb2, 0x01, 0x0c, 0x1a], Stage::Resent));
    let next = exchange_step(&cmd, Stage::Resent, &[0x6c, 0x10], &mut response).unwrap();
    assert_eq!(next, Next::Finished(0x6c10));
    assert!(response.is_empty());
    assert_eq!(
        exchange_step(&cmd, Stage::Command, &[0x90], &mut response),
        Err(ExchangeError::ReplyTooShort(1))
    );
}

#[test]
fn path_lookup() {
    let tree = Value::Template(vec![
        Field { tag: 0x50, value: Value::Binary(vec![1]) },
        Field {
            tag: 0xa5,
            value: Value::Template(vec![
                Field { tag: 0x88, value: Value::Binary(vec![1]) },
                Field { tag: 0x88, value: Value::Binary(vec![2]) },
            ]),
        },
    ]);
    assert_eq!(tree.get_path(&[0xa5, 0x88]), Ok(&Value::Binary(vec![1])));
    assert_eq!(tree.get_path_binary(&[0xa5, 0x88]), Ok(&[1u8][..]));
    assert_eq!(tree.get_path(&[]), Err(DecodeError::NoPathRequested));
    assert_eq!(tree.get_path(&[0x99]), Err(DecodeError::NoSuchMember(0x99)));
    assert_eq!(
        tree.get_path(&[0x50, 0x88]),
        Err(DecodeError::WrongType(0x50, ElementType::Template))
    );
    assert_eq!(
        tree.get_path_binary(&[0xa5]),
        Err(DecodeError::WrongType(0xa5, ElementType::Binary))
    );
    assert_eq!(
        Value::Binary(vec![]).get_path(&[0x50]),
        Err(DecodeError::WrongType(0, ElementType::Template))
    );
    assert_eq!(tree.get_path_owned(&[0xa5, 0x88]), Ok(Value::Binary(vec![1])));
}

#[test]
fn path_of_one_tag_is_first_child() {
    let tree = Value::Template(vec![
        Field { tag: 0x61, value: Value::Binary(vec![7]) },
        Field { tag: 0x61, value: Value::Binary(vec![8]) },
    ]);
    assert_eq!(tree.get_path(&[0x61]), Ok(&Value::Binary(vec![7])));
}

#[test]
fn value_accessors() {
    let v = Value::Numeric(5);
    assert_eq!(v.as_numeric(), Some(&5));
    assert_eq!(v.as_binary(), None);
    assert_eq!(Value::Alphabetic("AB".to_string()).as_alphabetic(), Some("AB"));
    assert_eq!(Value::Binary(vec![1]).into_binary(), Some(vec![1]));
    assert_eq!(Value::Binary(vec![1]).into_template(), None);
    assert_eq!(Value::DigitString(vec![4]).into_digit_string(), Some(vec![4]));
}
