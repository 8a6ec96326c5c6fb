//! Terminal-side EMV chip protocol: BER-TLV codec, APDU framing and the
//! response state machine, application discovery, processing options and
//! the offline data authentication certificate chain.
use vstd::prelude::*;

pub mod errors;
pub mod elements;
pub mod value;
pub mod dol;
pub mod bcd;
pub mod decoders;
pub mod prefix;
pub mod apdu;
pub mod date;
pub mod chain;
pub mod ca_keys;
pub mod pse;
pub mod processing;
pub mod encode;
pub mod roundtrip;
