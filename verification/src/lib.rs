//! Addressing and credential helpers for a client of a decentralised network:
//! hexadecimal text, key pairs, network addresses, addressing URLs, coin
//! amounts, authorisation responses and timestamps.

pub mod coins;
pub mod errors;
pub mod hex;
pub mod ipc;
pub mod keys;
pub mod text;
pub mod timestamp;
pub mod xorname;
pub mod xorurl;

pub use crate::coins::parse_coins_amount;
pub use crate::errors::{Error, ResultReturn};
pub use crate::hex::{parse_hex, vec_to_hex};
pub use crate::ipc::decode_ipc_msg;
pub use crate::keys::{pk_from_hex, pk_to_hex, sk_from_hex, KeyPair};
pub use crate::timestamp::{gen_timestamp_nanos, gen_timestamp_secs};
pub use crate::xorname::{xorname_from_pk, xorname_to_hex};
pub use crate::xorurl::get_subnames_host_and_path;
