//! Signing, recovery and the canonical payload encoding.

use sha3::Digest;
use std::str::FromStr;

use eth_core::address::AccountId20;
use eth_core::genesis::address_build;
use eth_core::signer::SignError;
use eth_core::transaction::{signing_payload, TransactionAction, UnsignedTransaction};
use eth_core::u256::U256;

fn sample_tx(to: AccountId20) -> UnsignedTransaction {
    UnsignedTransaction {
        nonce: U256::from_u64(0),
        max_priority_fee_per_gas: U256::from_u64(1),
        max_fee_per_gas: U256::from_u64(1),
        gas_limit: U256::from_u64(0x100000),
        action: TransactionAction::Call(to),
        value: U256::from_u64(100),
        input: vec![],
    }
}

#[test]
fn test_sign_recover_roundtrip() {
    let alice = address_build(0).unwrap();
    let bob = address_build(1).unwrap();
    let tx = sample_tx(bob.address.clone());

    let signed = tx.try_sign(&alice.private_key, Some(123u64)).unwrap();
    let recovered = signed.recover_signer().unwrap();
    assert_eq!(recovered, alice.address);

    // The address really is the low 20 bytes of the Keccak-256 digest of
    // the secp256k1 public key, recomputed here with the crates directly.
    let secret = libsecp256k1::SecretKey::parse_slice(&alice.private_key).unwrap();
    let public = libsecp256k1::PublicKey::from_secret_key(&secret).serialize();
    let digest = sha3::Keccak256::digest(&public[1..65]);
    assert_eq!(recovered.to_bytes(), digest[12..32].to_vec());
}

#[test]
fn test_legacy_v_roundtrip() {
    let alice = address_build(0).unwrap();
    let bob = address_build(1).unwrap();
    let tx = sample_tx(bob.address.clone());

    let signed = tx.try_sign(&alice.private_key, None).unwrap();
    assert!(signed.v == 27 || signed.v == 28);
    assert_eq!(signed.recover_signer().unwrap(), alice.address);
}

#[test]
fn test_signing_deterministic() {
    let alice = address_build(3).unwrap();
    let bob = address_build(4).unwrap();
    let tx = sample_tx(bob.address.clone());

    let first = tx.try_sign(&alice.private_key, Some(123u64)).unwrap();
    let second = tx.try_sign(&alice.private_key, Some(123u64)).unwrap();
    assert_eq!(first, second);
}

#[test]
fn test_invalid_secret_key_rejected() {
    let bob = address_build(1).unwrap();
    let tx = sample_tx(bob.address.clone());

    // Zero and an above-curve-order scalar are both invalid secret keys.
    assert!(tx.try_sign(&vec![0u8; 32], Some(123u64)).is_none());
    assert!(tx.try_sign(&vec![0xffu8; 32], Some(123u64)).is_none());
}

#[test]
fn test_tampered_v_rejected() {
    let alice = address_build(0).unwrap();
    let bob = address_build(1).unwrap();
    let tx = sample_tx(bob.address.clone());
    let signed = tx.try_sign(&alice.private_key, Some(123u64)).unwrap();

    // `v` outside the two values the chain id admits.
    let mut wrong_v = signed.clone();
    wrong_v.v = signed.v + 2;
    assert_eq!(wrong_v.recover_signer().unwrap_err(), SignError::InvalidSignature);

    // A different chain id no longer fits the stored `v`: replay protection.
    let mut wrong_chain = signed.clone();
    wrong_chain.chain_id = Some(124);
    assert_eq!(wrong_chain.recover_signer().unwrap_err(), SignError::InvalidSignature);
}

#[test]
fn test_signing_payload_exact_bytes() {
    let to = AccountId20::from_str("aaaaaaaaaaaaaaaaaaaaaaaaaaaaaaaaaaaaaaaa").unwrap();
    let tx = sample_tx(to);
    let payload = signing_payload(&tx, Some(123u64));

    let mut expected: Vec<u8> = vec![
        0xdf, // list prefix, 31 payload bytes
        0x7b, // chain id 123
        0x80, // nonce 0 -> empty string
        0x01, // max priority fee 1
        0x01, // max fee 1
        0x83, 0x10, 0x00, 0x00, // gas limit 0x100000
        0x94, // 20-byte target
    ];
    expected.extend_from_slice(&[0xaa; 20]);
    expected.push(0x64); // value 100
    expected.push(0x80); // empty input
    assert_eq!(payload, expected);
}

#[test]
fn test_create_encodes_empty_target() {
    let alice = address_build(0).unwrap();
    let mut tx = sample_tx(alice.address.clone());
    tx.action = TransactionAction::Create;
    tx.value = U256::from_u64(0);
    let payload = signing_payload(&tx, Some(1u64));
    // items: 01 80 01 01 83 10 00 00 80 80 80 -> 11 bytes
    let expected: Vec<u8> =
        vec![0xcb, 0x01, 0x80, 0x01, 0x01, 0x83, 0x10, 0x00, 0x00, 0x80, 0x80, 0x80];
    assert_eq!(payload, expected);
}
