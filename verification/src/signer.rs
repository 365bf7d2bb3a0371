//! Signing and signer recovery with chain-id replay protection.
//!
//! `sign` hashes the canonical payload, signs it over secp256k1 with
//! deterministic nonces, and folds the recovery id and chain id into `v`:
//! `v = recovery_id + 2*chain_id + 35` under a chain id, else the legacy
//! `recovery_id + 27`. `recover_signer` inverts the fold, recovers the
//! public key and derives the sender's address.

use vstd::prelude::*;

use crate::address::derive_address;
use crate::address::spec_derive_address;
use crate::address::AccountId20;
use crate::bytes::extend_bytes;
use crate::bytes::sub_bytes;
use crate::crypto::ecdsa_of;
use crate::crypto::is_valid_secret;
use crate::crypto::keccak256;
use crate::crypto::keccak_of;
use crate::crypto::pubkey_of;
use crate::crypto::recover_of;
use crate::crypto::sign_recoverable;
use crate::crypto::recover_public_key;
use crate::transaction::signing_payload;
use crate::transaction::spec_signing_payload;
use crate::transaction::SignedTransaction;
use crate::transaction::SignedTxView;
use crate::transaction::TxView;
use crate::transaction::UnsignedTransaction;
use crate::u256::U256;

verus! {

/// Failure of signing or of signer recovery.
#[derive(Clone, Copy, PartialEq, Eq, Structural, Debug)]
pub enum SignError {
    InvalidSignature,
}

/// The replay-protecting `v` a recovery id folds to under a chain id.
pub open spec fn spec_sig_v(recid: u8, chain_id: Option<u64>) -> int {
    match chain_id {
        Some(c) => recid + 35 + 2 * (c as int),
        None => recid + 27,
    }
}

/// The recovery id a stored `v` unfolds to; `None` when `v` does not fit the
/// chain id the transaction claims.
pub open spec fn spec_recid_of_v(v: u64, chain_id: Option<u64>) -> Option<u8> {
    match chain_id {
        Some(c) => if v == 35 + 2 * (c as int) {
            Some(0u8)
        } else if v == 36 + 2 * (c as int) {
            Some(1u8)
        } else {
            None
        },
        None => if v == 27 {
            Some(0u8)
        } else if v == 28 {
            Some(1u8)
        } else {
            None
        },
    }
}

/// What signing a transaction yields: the signature of the payload hash,
/// with `v` folded from the recovery id and chain id.
pub open spec fn spec_sign(tx: TxView, sk: Seq<u8>, chain_id: Option<u64>) -> SignedTxView {
    let h = keccak_of(spec_signing_payload(tx, chain_id));
    let sig = ecdsa_of(h, sk);
    SignedTxView {
        tx: tx,
        r: sig.subrange(0, 32),
        s: sig.subrange(32, 64),
        v: spec_sig_v(sig[64], chain_id) as u64,
        chain_id: chain_id,
    }
}

/// The sender a signed transaction recovers to: unfold `v`, recover the
/// public key from the payload hash and signature, derive its address.
/// `None` when `v` does not fit the chain id or no key can be recovered.
pub open spec fn spec_recover_signer(st: SignedTxView) -> Option<Seq<u8>> {
    match spec_recid_of_v(st.v, st.chain_id) {
        None => None,
        Some(rid) => {
            let h = keccak_of(spec_signing_payload(st.tx, st.chain_id));
            match recover_of(h, st.r + st.s, rid) {
                None => None,
                Some(pk) => Some(spec_derive_address(pk)),
            }
        },
    }
}

impl UnsignedTransaction {
    /// Signs the transaction under a valid secret key.
    ///
    /// The result recovers to the signer: recovering the signer of the
    /// returned transaction yields exactly the address derived from the
    /// secret key's public key. Signing is deterministic: the result is a
    /// function of the transaction, the key and the chain id alone.
    pub fn sign(&self, private_key: &Vec<u8>, chain_id: Option<u64>) -> (r: SignedTransaction)
        requires
            self.wf(),
            private_key@.len() == 32,
            is_valid_secret(private_key@),
            ecdsa_of(keccak_of(spec_signing_payload(self@, chain_id)), private_key@)[64] <= 1,
            chain_id matches Some(c) ==> c <= (u64::MAX - 36) / 2,
        ensures
            r.wf(),
            r@ == spec_sign(self@, private_key@, chain_id),
            spec_recover_signer(r@) == Some(spec_derive_address(pubkey_of(private_key@))),
    {
        let payload = signing_payload(self, chain_id);
        let h = keccak256(&payload);
        let signed = sign_recoverable(&h, private_key);
        let (sig_bytes, rid) = match signed {
            Some(p) => p,
            None => {
                proof {
                    assert(false);
                }
                vstd::pervasive::unreached()
            },
        };
        let r_bytes = sub_bytes(&sig_bytes, 0, 32);
        let s_bytes = sub_bytes(&sig_bytes, 32, 64);
        let ghost full = ecdsa_of(h@, private_key@);
        proof {
            assert(sig_bytes@.subrange(0, 32) =~= full.subrange(0, 32));
            assert(sig_bytes@.subrange(32, 64) =~= full.subrange(32, 64));
        }
        let v: u64 = match chain_id {
            Some(c) => {
                proof {
                    assert(2 * ((u64::MAX - 36) / 2) <= u64::MAX - 36) by (nonlinear_arith) {}
                }
                rid as u64 + 35 + 2 * c
            },
            None => rid as u64 + 27,
        };
        let st = SignedTransaction {
            unsigned: self.dup(),
            r: U256 { bytes: r_bytes },
            s: U256 { bytes: s_bytes },
            v: v,
            chain_id: chain_id,
        };
        proof {
            let m = spec_sign(self@, private_key@, chain_id);
            assert(st@.tx == m.tx);
            assert(st@.r == m.r);
            assert(st@.s == m.s);
            assert(st@.v == m.v);
            assert(st@ == m);
            // The result recovers to the signer's address.
            assert(spec_recid_of_v(st@.v, chain_id) == Some(rid));
            assert(st@.r + st@.s =~= full.take(64));
            assert(recover_of(h@, full.take(64), rid) == Some(pubkey_of(private_key@)));
        }
        st
    }

    /// Signs when the key is valid and the signature is representable;
    /// `None` exactly when the secret key is invalid or the curve point's
    /// recovery id cannot be folded into `v`.
    pub fn try_sign(&self, private_key: &Vec<u8>, chain_id: Option<u64>) -> (r: Option<
        SignedTransaction,
    >)
        requires
            self.wf(),
            private_key@.len() == 32,
            chain_id matches Some(c) ==> c <= (u64::MAX - 36) / 2,
        ensures
            r is Some <==> (is_valid_secret(private_key@) && ecdsa_of(
                keccak_of(spec_signing_payload(self@, chain_id)),
                private_key@,
            )[64] <= 1),
            r matches Some(st) ==> {
                &&& st.wf()
                &&& st@ == spec_sign(self@, private_key@, chain_id)
                &&& spec_recover_signer(st@) == Some(spec_derive_address(pubkey_of(private_key@)))
            },
    {
        let payload = signing_payload(self, chain_id);
        let h = keccak256(&payload);
        match sign_recoverable(&h, private_key) {
            None => None,
            Some((_sig, rid)) => {
                if rid > 1 {
                    None
                } else {
                    Some(self.sign(private_key, chain_id))
                }
            },
        }
    }
}

impl SignedTransaction {
    /// Recovers the sender's address; fails with `InvalidSignature` exactly
    /// when `v` does not fit the chain id or no public key can be recovered.
    pub fn recover_signer(&self) -> (r: Result<AccountId20, SignError>)
        requires
            self.wf(),
        ensures
            r matches Ok(a) ==> a.wf() && spec_recover_signer(self@) == Some(a@),
            r matches Err(e) ==> spec_recover_signer(self@) is None && e
                == SignError::InvalidSignature,
    {
        let rid_opt: Option<u8> = match self.chain_id {
            Some(c) => {
                let base: u128 = 35 + 2 * (c as u128);
                if self.v as u128 == base {
                    Some(0)
                } else if self.v as u128 == base + 1 {
                    Some(1)
                } else {
                    None
                }
            },
            None => {
                if self.v == 27 {
                    Some(0)
                } else if self.v == 28 {
                    Some(1)
                } else {
                    None
                }
            },
        };
        proof {
            assert(rid_opt == spec_recid_of_v(self.v, self.chain_id));
        }
        let rid = match rid_opt {
            Some(rid) => rid,
            None => {
                return Err(SignError::InvalidSignature);
            },
        };
        let payload = signing_payload(&self.unsigned, self.chain_id);
        let h = keccak256(&payload);
        let mut sig = self.r.to_be_bytes();
        let s_bytes = self.s.to_be_bytes();
        extend_bytes(&mut sig, &s_bytes);
        match recover_public_key(&h, &sig, rid) {
            Some(pk) => {
                let addr = derive_address(&pk);
                Ok(addr)
            },
            None => Err(SignError::InvalidSignature),
        }
    }
}

/// Signing is deterministic: one transaction, key and chain id have one
/// signed form; two signings of the same inputs are byte-identical.
pub proof fn lemma_sign_deterministic(
    tx: TxView,
    sk: Seq<u8>,
    chain_id: Option<u64>,
    a: SignedTxView,
    b: SignedTxView,
)
    requires
        a == spec_sign(tx, sk, chain_id),
        b == spec_sign(tx, sk, chain_id),
    ensures
        a == b,
{
}

} // verus!
