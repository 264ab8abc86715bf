//! The parameters of the curves in use.

pub mod secp256k1;
