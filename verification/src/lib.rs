//! Verified core of a plasma exit game: the SCALE wire format of the
//! plasma data types, the exit claim / challenge / settle rules, and the
//! local testnet genesis description of the node that hosts it.

pub mod scale;
pub mod types;
pub mod hashing;
pub mod exit;
pub mod chain_spec;

