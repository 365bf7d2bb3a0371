//! Ethereum-style account and transaction core.
//!
//! A 20-byte address is derived from a secp256k1 public key; an unsigned
//! transaction is encoded into a canonical signing payload, signed with
//! chain-id replay protection, and applied to an account ledger, producing
//! an execution receipt.

pub mod address;
pub mod bytes;
pub mod crypto;
pub mod executor;
pub mod genesis;
pub mod ledger;
pub mod rlp;
pub mod signer;
pub mod transaction;
pub mod u256;
