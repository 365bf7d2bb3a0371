//! Trusted boundary to the cryptographic crates.
//!
//! Keccak-256 digests come from `sha3`; ECDSA signing and signer recovery on
//! the secp256k1 curve come from `libsecp256k1`. Each result is a pure
//! function of the arguments (signing uses deterministic RFC 6979 nonces),
//! so each is given a name that the contracts of the verified code speak of.

use sha3::Digest;
use vstd::prelude::*;

verus! {

/// The Keccak-256 digest of a byte string.
pub uninterp spec fn keccak_of(data: Seq<u8>) -> Seq<u8>;

/// Whether 32 bytes are a valid secp256k1 secret key (nonzero, below the
/// curve order); the success of `libsecp256k1::SecretKey::parse_slice`.
pub uninterp spec fn is_valid_secret(sk: Seq<u8>) -> bool;

/// The 64-byte uncompressed public key of a valid secret key, without the
/// leading format byte; what `libsecp256k1::PublicKey::from_secret_key`
/// serializes to.
pub uninterp spec fn pubkey_of(sk: Seq<u8>) -> Seq<u8>;

/// The 65-byte deterministic ECDSA signature of a 32-byte message hash under
/// a valid secret key: `r` then `s` (as produced by
/// `libsecp256k1::Signature::serialize`) then the recovery id.
pub uninterp spec fn ecdsa_of(msg: Seq<u8>, sk: Seq<u8>) -> Seq<u8>;

/// The public key recovered from a 32-byte message hash, a 64-byte `r || s`
/// signature and a recovery id; `None` when the signature does not parse as a
/// standard signature or no key can be recovered.
pub uninterp spec fn recover_of(msg: Seq<u8>, sig: Seq<u8>, recid: u8) -> Option<Seq<u8>>;

/// Relies on `sha3::Keccak256`: the 32-byte digest of the input alone.
#[verifier::external_body]
pub fn keccak256(data: &Vec<u8>) -> (r: Vec<u8>)
    ensures
        r@ == keccak_of(data@),
        r@.len() == 32,
{
    sha3::Keccak256::digest(data.as_slice()).to_vec()
}

/// Relies on `libsecp256k1::SecretKey::parse_slice` (succeeds exactly for a
/// valid 32-byte secret key), `PublicKey::from_secret_key` and
/// `PublicKey::serialize` (65 bytes, a format byte then the 64-byte key).
#[verifier::external_body]
pub fn derive_public_key(sk: &Vec<u8>) -> (r: Option<Vec<u8>>)
    requires
        sk@.len() == 32,
    ensures
        r is Some <==> is_valid_secret(sk@),
        r matches Some(p) ==> p@ == pubkey_of(sk@) && p@.len() == 64,
{
    match libsecp256k1::SecretKey::parse_slice(sk.as_slice()) {
        Ok(key) => {
            let ser = libsecp256k1::PublicKey::from_secret_key(&key).serialize();
            Some(ser[1..65].to_vec())
        },
        Err(_) => None,
    }
}

/// Relies on `libsecp256k1::sign`: deterministic (RFC 6979) ECDSA over the
/// message hash, returning the serialized `r || s` and a recovery id of at
/// most 3, such that `libsecp256k1::recover` on the same hash and signature
/// yields the signer's public key (the documented purpose of recoverable
/// signatures; `sign` normalizes `s`, so the signature re-parses).
#[verifier::external_body]
pub fn sign_recoverable(msg: &Vec<u8>, sk: &Vec<u8>) -> (r: Option<(Vec<u8>, u8)>)
    requires
        msg@.len() == 32,
        sk@.len() == 32,
    ensures
        r is Some <==> is_valid_secret(sk@),
        r matches Some(p) ==> {
            &&& p.0@ == ecdsa_of(msg@, sk@).take(64)
            &&& p.0@.len() == 64
            &&& ecdsa_of(msg@, sk@).len() == 65
            &&& p.1 == ecdsa_of(msg@, sk@)[64]
            &&& p.1 <= 3
            &&& recover_of(msg@, p.0@, p.1) == Some(pubkey_of(sk@))
            &&& pubkey_of(sk@).len() == 64
        },
{
    let m = libsecp256k1::Message::parse_slice(msg.as_slice()).ok()?;
    let key = libsecp256k1::SecretKey::parse_slice(sk.as_slice()).ok()?;
    let (sig, rid) = libsecp256k1::sign(&m, &key);
    Some((sig.serialize().to_vec(), rid.serialize()))
}

/// Relies on `libsecp256k1::Signature::parse_standard_slice`,
/// `RecoveryId::parse` and `libsecp256k1::recover`: the key recovered from
/// hash, signature and recovery id, a function of those alone; `None` when
/// parsing or recovery fails.
#[verifier::external_body]
pub fn recover_public_key(msg: &Vec<u8>, sig: &Vec<u8>, recid: u8) -> (r: Option<Vec<u8>>)
    requires
        msg@.len() == 32,
        sig@.len() == 64,
        recid <= 3,
    ensures
        r is Some <==> recover_of(msg@, sig@, recid) is Some,
        r matches Some(p) ==> recover_of(msg@, sig@, recid) == Some(p@) && p@.len() == 64,
{
    let m = libsecp256k1::Message::parse_slice(msg.as_slice()).ok()?;
    let s = libsecp256k1::Signature::parse_standard_slice(sig.as_slice()).ok()?;
    let rid = libsecp256k1::RecoveryId::parse(recid).ok()?;
    let pk = libsecp256k1::recover(&m, &s, &rid).ok()?;
    Some(pk.serialize()[1..65].to_vec())
}

} // verus!
