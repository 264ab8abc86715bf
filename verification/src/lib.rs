//! Prime-field and elliptic-curve arithmetic with ECDSA over secp256k1.

pub mod arithmetic;
pub mod crypto;
pub mod curves;
pub mod errors;
pub mod integer;
