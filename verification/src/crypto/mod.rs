//! Keys, nonces and signatures over secp256k1.

pub mod ecdsa;
pub mod hash;
pub mod keys;
pub mod rfc6979;
pub mod scalar;
pub mod uint;
