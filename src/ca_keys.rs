//! The table of known Certification Authority public keys.
use vstd::prelude::*;

use crate::chain::left_pad_slice;
use crate::date::Date;
use crate::dol::zeros;

verus! {

/// A CA key is named by the RID of the payment system and an index.
#[derive(Debug, PartialEq, Eq, Clone, Copy, Hash)]
pub struct KeyId {
    pub rid: [u8; 5],
    pub index: u8,
}

/// A CA public key: expiry, exponent and modulus (256 big-endian bytes).
#[derive(Debug, PartialEq, Eq, Clone)]
pub struct KeyData {
    pub expiry: Date,
    pub exponent: u32,
    pub modulus: Vec<u8>,
}

/// The expiry date of the known key (`rid`, `index`), if the table holds one.
pub open spec fn ca_expiry(rid: Seq<u8>, index: u8) -> Option<Date> {
    if rid == seq![0xa0u8, 0x00, 0x00, 0x00, 0x04] && index == 5 {
        Some(Date { year: 2024, month: 12, day: 31 })
    } else if rid == seq![0xa0u8, 0x00, 0x00, 0x00, 0x04] && index == 6 {
        Some(Date { year: 2028, month: 12, day: 31 })
    } else if rid == seq![0xa0u8, 0x00, 0x00, 0x01, 0x52] && index == 5 {
        Some(Date { year: 2028, month: 12, day: 31 })
    } else {
        None
    }
}

/// The modulus of the known key (`rid`, `index`) as the table writes it,
/// without leading zero bytes.
pub open spec fn ca_modulus_bytes(rid: Seq<u8>, index: u8) -> Seq<u8> {
    if rid == seq![0xa0u8, 0x00, 0x00, 0x00, 0x04] && index == 5 {
        seq![
            0xb8u8, 0x04, 0x8a, 0xbc, 0x30, 0xc9, 0x0d, 0x97, 0x63, 0x36, 0x54, 0x3e,
            0x3f, 0xd7, 0x09, 0x1c, 0x8f, 0xe4, 0x80, 0x0d, 0xf8, 0x20, 0xed, 0x55,
            0xe7, 0xe9, 0x48, 0x13, 0xed, 0x00, 0x55, 0x5b, 0x57, 0x3f, 0xec, 0xa3,
            0xd8, 0x4a, 0xf6, 0x13, 0x1a, 0x65, 0x1d, 0x66, 0xcf, 0xf4, 0x28, 0x4f,
            0xb1, 0x3b, 0x63, 0x5e, 0xdd, 0x0e, 0xe4, 0x01, 0x76, 0xd8, 0xbf, 0x04,
            0xb7, 0xfd, 0x1c, 0x7b, 0xac, 0xf9, 0xac, 0x73, 0x27, 0xdf, 0xaa, 0x8a,
            0xa7, 0x2d, 0x10, 0xdb, 0x3b, 0x8e, 0x70, 0xb2, 0xdd, 0xd8, 0x11, 0xcb,
            0x41, 0x96, 0x52, 0x5e, 0xa3, 0x86, 0xac, 0xc3, 0x3c, 0x0d, 0x9d, 0x45,
            0x75, 0x91, 0x64, 0x69, 0xc4, 0xe4, 0xf5, 0x3e, 0x8e, 0x1c, 0x91, 0x2c,
            0xc6, 0x18, 0xcb, 0x22, 0xdd, 0xe7, 0xc3, 0x56, 0x8e, 0x90, 0x02, 0x2e,
            0x6b, 0xba, 0x77, 0x02, 0x02, 0xe4, 0x52, 0x2a, 0x2d, 0xd6, 0x23, 0xd1,
            0x80, 0xe2, 0x15, 0xbd, 0x1d, 0x15, 0x07, 0xfe, 0x3d, 0xc9, 0x0c, 0xa3,
            0x10, 0xd2, 0x7b, 0x3e, 0xfc, 0xcd, 0x8f, 0x83, 0xde, 0x30, 0x52, 0xca,
            0xd1, 0xe4, 0x89, 0x38, 0xc6, 0x8d, 0x09, 0x5a, 0xac, 0x91, 0xb5, 0xf3,
            0x7e, 0x28, 0xbb, 0x49, 0xec, 0x7e, 0xd5, 0x97,
        ]
    } else if rid == seq![0xa0u8, 0x00, 0x00, 0x00, 0x04] && index == 6 {
        seq![
            0xcbu8, 0x26, 0xfc, 0x83, 0x0b, 0x43, 0x78, 0x5b, 0x2b, 0xce, 0x37, 0xc8,
            0x1e, 0xd3, 0x34, 0x62, 0x2f, 0x96, 0x22, 0xf4, 0xc8, 0x9a, 0xae, 0x64,
            0x10, 0x46, 0xb2, 0x35, 0x34, 0x33, 0x88, 0x3f, 0x30, 0x7f, 0xb7, 0xc9,
            0x74, 0x16, 0x2d, 0xa7, 0x2f, 0x7a, 0x4e, 0xc7, 0x5d, 0x9d, 0x65, 0x73,
            0x36, 0x86, 0x5b, 0x8d, 0x30, 0x23, 0xd3, 0xd6, 0x45, 0x66, 0x76, 0x25,
            0xc9, 0xa0, 0x7a, 0x6b, 0x7a, 0x13, 0x7c, 0xf0, 0xc6, 0x41, 0x98, 0xae,
            0x38, 0xfc, 0x23, 0x80, 0x06, 0xfb, 0x26, 0x03, 0xf4, 0x1f, 0x4f, 0x3b,
            0xb9, 0xda, 0x13, 0x47, 0x27, 0x0f, 0x2f, 0x5d, 0x8c, 0x60, 0x6e, 0x42,
            0x09, 0x58, 0xc5, 0xf7, 0xd5, 0x0a, 0x71, 0xde, 0x30, 0x14, 0x2f, 0x70,
            0xde, 0x46, 0x88, 0x89, 0xb5, 0xe3, 0xa0, 0x86, 0x95, 0xb9, 0x38, 0xa5,
            0x0f, 0xc9, 0x80, 0x39, 0x3a, 0x9c, 0xbc, 0xe4, 0x4a, 0xd2, 0xd6, 0x4f,
            0x63, 0x0b, 0xb3, 0x3a, 0xd3, 0xf5, 0xf5, 0xfd, 0x49, 0x5d, 0x31, 0xf3,
            0x78, 0x18, 0xc1, 0xd9, 0x40, 0x71, 0x34, 0x2e, 0x07, 0xf1, 0xbe, 0xc2,
            0x19, 0x4f, 0x60, 0x35, 0xba, 0x5d, 0xed, 0x39, 0x36, 0x50, 0x0e, 0xb8,
            0x2d, 0xfd, 0xa6, 0xe8, 0xaf, 0xb6, 0x55, 0xb1, 0xef, 0x3d, 0x0d, 0x7e,
            0xbf, 0x86, 0xb6, 0x6d, 0xd9, 0xf2, 0x9f, 0x6b, 0x1d, 0x32, 0x4f, 0xe8,
            0xb2, 0x6c, 0xe3, 0x8a, 0xb2, 0x01, 0x3d, 0xd1, 0x3f, 0x61, 0x1e, 0x7a,
            0x59, 0x4d, 0x67, 0x5c, 0x44, 0x32, 0x35, 0x0e, 0xa2, 0x44, 0xcc, 0x34,
            0xf3, 0x87, 0x3c, 0xba, 0x06, 0x59, 0x29, 0x87, 0xa1, 0xd7, 0xe8, 0x52,
            0xad, 0xc2, 0x2e, 0xf5, 0xa2, 0xee, 0x28, 0x13, 0x20, 0x31, 0xe4, 0x8f,
            0x74, 0x03, 0x7e, 0x3b, 0x34, 0xab, 0x74, 0x7f,
        ]
    } else if rid == seq![0xa0u8, 0x00, 0x00, 0x01, 0x52] && index == 5 {
        seq![
            0xe1u8, 0x20, 0x0e, 0x9f, 0x44, 0x28, 0xeb, 0x71, 0xa5, 0x26, 0xd6, 0xbb,
            0x44, 0xc9, 0x57, 0xf1, 0x8f, 0x27, 0xb2, 0x0b, 0xac, 0xe9, 0x78, 0x06,
            0x1c, 0xce, 0xf2, 0x35, 0x32, 0xdb, 0xeb, 0xfa, 0xf6, 0x54, 0xa1, 0x49,
            0x70, 0x1c, 0x14, 0xe6, 0xa2, 0xa7, 0xc2, 0xec, 0xac, 0x4c, 0x92, 0x13,
            0x5b, 0xe3, 0xe9, 0x25, 0x83, 0x31, 0xdd, 0xb0, 0x96, 0x7c, 0x3d, 0x1d,
            0x37, 0x5b, 0x99, 0x6f, 0x25, 0xb7, 0x78, 0x11, 0xcc, 0xcc, 0x06, 0xa1,
            0x53, 0xb4, 0xce, 0x69, 0x90, 0xa5, 0x1a, 0x02, 0x58, 0xea, 0x84, 0x37,
            0xed, 0xbe, 0xb7, 0x01, 0xcb, 0x1f, 0x33, 0x59, 0x93, 0xe3, 0xf4, 0x84,
            0x58, 0xbc, 0x11, 0x94, 0xba, 0xd2, 0x9b, 0xf6, 0x83, 0xd5, 0xf3, 0xec,
            0xb9, 0x84, 0xe3, 0x1b, 0x7b, 0x9d, 0x2f, 0x6d, 0x94, 0x7b, 0x39, 0xde,
            0xde, 0x02, 0x79, 0xee, 0x45, 0xb4, 0x7f, 0x2f, 0x3d, 0x4e, 0xee, 0xf9,
            0x3f, 0x92, 0x61, 0xf8, 0xf5, 0xa5, 0x71, 0xaf, 0xbf, 0xb5, 0x69, 0xc1,
            0x50, 0x37, 0x0a, 0x78, 0xf6, 0x68, 0x3d, 0x68, 0x7c, 0xb6, 0x77, 0x77,
            0x7b, 0x2e, 0x7a, 0xbe, 0xfc, 0xfc, 0x8f, 0x5f, 0x93, 0x50, 0x17, 0x36,
            0x99, 0x7e, 0x83, 0x10, 0xee, 0x0f, 0xd8, 0x7a, 0xfa, 0xc5, 0xda, 0x77,
            0x2b, 0xa2, 0x77, 0xf8, 0x8b, 0x44, 0x45, 0x9f, 0xca, 0x56, 0x35, 0x55,
            0x01, 0x7c, 0xd0, 0xd6, 0x67, 0x71, 0x43, 0x7f, 0x8b, 0x66, 0x08, 0xaa,
            0x1a, 0x66, 0x5f, 0x88, 0xd8, 0x46, 0x40, 0x3e, 0x4c, 0x41, 0xaf, 0xee,
            0xdb, 0x97, 0x29, 0xc2, 0xb2, 0x51, 0x1c, 0xfe, 0x22, 0x8b, 0x50, 0xc1,
            0xb1, 0x52, 0xb2, 0xa6, 0x0b, 0xbf, 0x61, 0xd8, 0x91, 0x3e, 0x08, 0x62,
            0x10, 0x02, 0x3a, 0x3a, 0xa4, 0x99, 0xe4, 0x23,
        ]
    } else {
        Seq::empty()
    }
}

/// The modulus of the known key (`rid`, `index`) as 256 big-endian bytes.
pub open spec fn ca_modulus(rid: Seq<u8>, index: u8) -> Seq<u8> {
    let m = ca_modulus_bytes(rid, index);
    zeros((256 - m.len()) as nat) + m
}

/// Looks a CA key up; every key in the table has exponent 3.
pub fn ca_key(id: &KeyId) -> (r: Option<KeyData>)
    ensures
        match ca_expiry(id.rid@, id.index) {
            Some(d) => r matches Some(k) && k.expiry == d && k.exponent == 3 && k.modulus@
                == ca_modulus(id.rid@, id.index),
            None => r is None,
        },
{
    let rid = id.rid;
    let a4 = rid[0] == 0xa0 && rid[1] == 0x00 && rid[2] == 0x00 && rid[3] == 0x00 && rid[4] == 0x04;
    let a152 = rid[0] == 0xa0 && rid[1] == 0x00 && rid[2] == 0x00 && rid[3] == 0x01 && rid[4]
        == 0x52;
    proof {
        assert(a4 == (rid@ == seq![0xa0u8, 0x00, 0x00, 0x00, 0x04])) by {
            if rid@ == seq![0xa0u8, 0x00, 0x00, 0x00, 0x04] {
                assert(rid@[4] == 0x04);
            }
            if a4 {
                assert(rid@ =~= seq![0xa0u8, 0x00, 0x00, 0x00, 0x04]);
            }
        }
        assert(a152 == (rid@ == seq![0xa0u8, 0x00, 0x00, 0x01, 0x52])) by {
            if rid@ == seq![0xa0u8, 0x00, 0x00, 0x01, 0x52] {
                assert(rid@[3] == 0x01);
            }
            if a152 {
                assert(rid@ =~= seq![0xa0u8, 0x00, 0x00, 0x01, 0x52]);
            }
        }
    }
    let (modulus, expiry) = if a4 && id.index == 5 {
        (
            vec![
            0xb8, 0x04, 0x8a, 0xbc, 0x30, 0xc9, 0x0d, 0x97, 0x63, 0x36, 0x54, 0x3e,
            0x3f, 0xd7, 0x09, 0x1c, 0x8f, 0xe4, 0x80, 0x0d, 0xf8, 0x20, 0xed, 0x55,
            0xe7, 0xe9, 0x48, 0x13, 0xed, 0x00, 0x55, 0x5b, 0x57, 0x3f, 0xec, 0xa3,
            0xd8, 0x4a, 0xf6, 0x13, 0x1a, 0x65, 0x1d, 0x66, 0xcf, 0xf4, 0x28, 0x4f,
            0xb1, 0x3b, 0x63, 0x5e, 0xdd, 0x0e, 0xe4, 0x01, 0x76, 0xd8, 0xbf, 0x04,
            0xb7, 0xfd, 0x1c, 0x7b, 0xac, 0xf9, 0xac, 0x73, 0x27, 0xdf, 0xaa, 0x8a,
            0xa7, 0x2d, 0x10, 0xdb, 0x3b, 0x8e, 0x70, 0xb2, 0xdd, 0xd8, 0x11, 0xcb,
            0x41, 0x96, 0x52, 0x5e, 0xa3, 0x86, 0xac, 0xc3, 0x3c, 0x0d, 0x9d, 0x45,
            0x75, 0x91, 0x64, 0x69, 0xc4, 0xe4, 0xf5, 0x3e, 0x8e, 0x1c, 0x91, 0x2c,
            0xc6, 0x18, 0xcb, 0x22, 0xdd, 0xe7, 0xc3, 0x56, 0x8e, 0x90, 0x02, 0x2e,
            0x6b, 0xba, 0x77, 0x02, 0x02, 0xe4, 0x52, 0x2a, 0x2d, 0xd6, 0x23, 0xd1,
            0x80, 0xe2, 0x15, 0xbd, 0x1d, 0x15, 0x07, 0xfe, 0x3d, 0xc9, 0x0c, 0xa3,
            0x10, 0xd2, 0x7b, 0x3e, 0xfc, 0xcd, 0x8f, 0x83, 0xde, 0x30, 0x52, 0xca,
            0xd1, 0xe4, 0x89, 0x38, 0xc6, 0x8d, 0x09, 0x5a, 0xac, 0x91, 0xb5, 0xf3,
            0x7e, 0x28, 0xbb, 0x49, 0xec, 0x7e, 0xd5, 0x97,
            ],
            Date { year: 2024, month: 12, day: 31 },
        )
    } else if a4 && id.index == 6 {
        (
            vec![
            0xcb, 0x26, 0xfc, 0x83, 0x0b, 0x43, 0x78, 0x5b, 0x2b, 0xce, 0x37, 0xc8,
            0x1e, 0xd3, 0x34, 0x62, 0x2f, 0x96, 0x22, 0xf4, 0xc8, 0x9a, 0xae, 0x64,
            0x10, 0x46, 0xb2, 0x35, 0x34, 0x33, 0x88, 0x3f, 0x30, 0x7f, 0xb7, 0xc9,
            0x74, 0x16, 0x2d, 0xa7, 0x2f, 0x7a, 0x4e, 0xc7, 0x5d, 0x9d, 0x65, 0x73,
            0x36, 0x86, 0x5b, 0x8d, 0x30, 0x23, 0xd3, 0xd6, 0x45, 0x66, 0x76, 0x25,
            0xc9, 0xa0, 0x7a, 0x6b, 0x7a, 0x13, 0x7c, 0xf0, 0xc6, 0x41, 0x98, 0xae,
            0x38, 0xfc, 0x23, 0x80, 0x06, 0xfb, 0x26, 0x03, 0xf4, 0x1f, 0x4f, 0x3b,
            0xb9, 0xda, 0x13, 0x47, 0x27, 0x0f, 0x2f, 0x5d, 0x8c, 0x60, 0x6e, 0x42,
            0x09, 0x58, 0xc5, 0xf7, 0xd5, 0x0a, 0x71, 0xde, 0x30, 0x14, 0x2f, 0x70,
            0xde, 0x46, 0x88, 0x89, 0xb5, 0xe3, 0xa0, 0x86, 0x95, 0xb9, 0x38, 0xa5,
            0x0f, 0xc9, 0x80, 0x39, 0x3a, 0x9c, 0xbc, 0xe4, 0x4a, 0xd2, 0xd6, 0x4f,
            0x63, 0x0b, 0xb3, 0x3a, 0xd3, 0xf5, 0xf5, 0xfd, 0x49, 0x5d, 0x31, 0xf3,
            0x78, 0x18, 0xc1, 0xd9, 0x40, 0x71, 0x34, 0x2e, 0x07, 0xf1, 0xbe, 0xc2,
            0x19, 0x4f, 0x60, 0x35, 0xba, 0x5d, 0xed, 0x39, 0x36, 0x50, 0x0e, 0xb8,
            0x2d, 0xfd, 0xa6, 0xe8, 0xaf, 0xb6, 0x55, 0xb1, 0xef, 0x3d, 0x0d, 0x7e,
            0xbf, 0x86, 0xb6, 0x6d, 0xd9, 0xf2, 0x9f, 0x6b, 0x1d, 0x32, 0x4f, 0xe8,
            0xb2, 0x6c, 0xe3, 0x8a, 0xb2, 0x01, 0x3d, 0xd1, 0x3f, 0x61, 0x1e, 0x7a,
            0x59, 0x4d, 0x67, 0x5c, 0x44, 0x32, 0x35, 0x0e, 0xa2, 0x44, 0xcc, 0x34,
            0xf3, 0x87, 0x3c, 0xba, 0x06, 0x59, 0x29, 0x87, 0xa1, 0xd7, 0xe8, 0x52,
            0xad, 0xc2, 0x2e, 0xf5, 0xa2, 0xee, 0x28, 0x13, 0x20, 0x31, 0xe4, 0x8f,
            0x74, 0x03, 0x7e, 0x3b, 0x34, 0xab, 0x74, 0x7f,
            ],
            Date { year: 2028, month: 12, day: 31 },
        )
    } else if a152 && id.index == 5 {
        (
            vec![
            0xe1, 0x20, 0x0e, 0x9f, 0x44, 0x28, 0xeb, 0x71, 0xa5, 0x26, 0xd6, 0xbb,
            0x44, 0xc9, 0x57, 0xf1, 0x8f, 0x27, 0xb2, 0x0b, 0xac, 0xe9, 0x78, 0x06,
            0x1c, 0xce, 0xf2, 0x35, 0x32, 0xdb, 0xeb, 0xfa, 0xf6, 0x54, 0xa1, 0x49,
            0x70, 0x1c, 0x14, 0xe6, 0xa2, 0xa7, 0xc2, 0xec, 0xac, 0x4c, 0x92, 0x13,
            0x5b, 0xe3, 0xe9, 0x25, 0x83, 0x31, 0xdd, 0xb0, 0x96, 0x7c, 0x3d, 0x1d,
            0x37, 0x5b, 0x99, 0x6f, 0x25, 0xb7, 0x78, 0x11, 0xcc, 0xcc, 0x06, 0xa1,
            0x53, 0xb4, 0xce, 0x69, 0x90, 0xa5, 0x1a, 0x02, 0x58, 0xea, 0x84, 0x37,
            0xed, 0xbe, 0xb7, 0x01, 0xcb, 0x1f, 0x33, 0x59, 0x93, 0xe3, 0xf4, 0x84,
            0x58, 0xbc, 0x11, 0x94, 0xba, 0xd2, 0x9b, 0xf6, 0x83, 0xd5, 0xf3, 0xec,
            0xb9, 0x84, 0xe3, 0x1b, 0x7b, 0x9d, 0x2f, 0x6d, 0x94, 0x7b, 0x39, 0xde,
            0xde, 0x02, 0x79, 0xee, 0x45, 0xb4, 0x7f, 0x2f, 0x3d, 0x4e, 0xee, 0xf9,
            0x3f, 0x92, 0x61, 0xf8, 0xf5, 0xa5, 0x71, 0xaf, 0xbf, 0xb5, 0x69, 0xc1,
            0x50, 0x37, 0x0a, 0x78, 0xf6, 0x68, 0x3d, 0x68, 0x7c, 0xb6, 0x77, 0x77,
            0x7b, 0x2e, 0x7a, 0xbe, 0xfc, 0xfc, 0x8f, 0x5f, 0x93, 0x50, 0x17, 0x36,
            0x99, 0x7e, 0x83, 0x10, 0xee, 0x0f, 0xd8, 0x7a, 0xfa, 0xc5, 0xda, 0x77,
            0x2b, 0xa2, 0x77, 0xf8, 0x8b, 0x44, 0x45, 0x9f, 0xca, 0x56, 0x35, 0x55,
            0x01, 0x7c, 0xd0, 0xd6, 0x67, 0x71, 0x43, 0x7f, 0x8b, 0x66, 0x08, 0xaa,
            0x1a, 0x66, 0x5f, 0x88, 0xd8, 0x46, 0x40, 0x3e, 0x4c, 0x41, 0xaf, 0xee,
            0xdb, 0x97, 0x29, 0xc2, 0xb2, 0x51, 0x1c, 0xfe, 0x22, 0x8b, 0x50, 0xc1,
            0xb1, 0x52, 0xb2, 0xa6, 0x0b, 0xbf, 0x61, 0xd8, 0x91, 0x3e, 0x08, 0x62,
            0x10, 0x02, 0x3a, 0x3a, 0xa4, 0x99, 0xe4, 0x23,
            ],
            Date { year: 2028, month: 12, day: 31 },
        )
    } else {
        return None;
    };
    proof {
        assert(modulus@ =~= ca_modulus_bytes(rid@, id.index));
    }
    Some(KeyData { expiry, exponent: 3, modulus: left_pad_slice(modulus.as_slice(), 256) })
}

} // verus!
