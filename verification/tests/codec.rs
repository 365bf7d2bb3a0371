//! Address codec and 256-bit arithmetic.

use std::str::FromStr;

use eth_core::address::{
    decode_account_id, from_account_id, AccountId20, CodecError, HashedAddressMapping,
};
use eth_core::u256::U256;

#[test]
fn test_account_id_round_trip() {
    let addr = AccountId20::new(vec![7u8; 20]).unwrap();
    let id = HashedAddressMapping::into_account_id(addr.clone());
    assert_eq!(id.0.len(), 32);
    assert_eq!(&id.0[0..20], &[7u8; 20]);
    assert_eq!(&id.0[20..32], &[0u8; 12]);
    let back = from_account_id(&id);
    assert!(back.eq_addr(&addr));
    assert_eq!(back, addr);
}

#[test]
fn test_decode_foreign_account_id_is_ambiguous() {
    let addr = AccountId20::new(vec![9u8; 20]).unwrap();
    let id = HashedAddressMapping::into_account_id(addr.clone());
    assert_eq!(decode_account_id(&id).unwrap(), addr);

    let mut tampered = id;
    tampered.0[31] = 1;
    assert_eq!(decode_account_id(&tampered).unwrap_err(), CodecError::AddressDecodeAmbiguous);
}

#[test]
fn test_from_hex() {
    let a = AccountId20::from_hex("00112233445566778899aabbccddeeff00112233").unwrap();
    assert_eq!(
        a.to_bytes(),
        vec![
            0x00, 0x11, 0x22, 0x33, 0x44, 0x55, 0x66, 0x77, 0x88, 0x99, 0xaa, 0xbb, 0xcc, 0xdd,
            0xee, 0xff, 0x00, 0x11, 0x22, 0x33
        ]
    );
    let upper = AccountId20::from_hex("00112233445566778899AABBCCDDEEFF00112233").unwrap();
    assert_eq!(upper, a);

    assert_eq!(AccountId20::from_str("abcd").unwrap_err(), "invalid hex address.");
    assert_eq!(
        AccountId20::from_hex("zz112233445566778899aabbccddeeff00112233").unwrap_err(),
        "invalid hex address."
    );
}

#[test]
fn test_u256_arithmetic() {
    let a = U256::from_u64(300);
    let b = U256::from_u64(42);
    assert_eq!(a.sub_val(&b), U256::from_u64(258));
    assert!(b.lt(&a));
    assert!(b.le(&a));
    assert!(!a.le(&b));
    assert!(a.eq_val(&U256::from_u64(300)));

    let (sum, carry) = a.add_carry(&b);
    assert!(!carry);
    assert_eq!(sum, U256::from_u64(342));

    // The largest value plus one wraps to zero with a carry out.
    let (wrapped, carry) = U256::max_value().add_carry(&U256::from_u64(1));
    assert!(carry);
    assert_eq!(wrapped, U256::zero());
}

#[test]
fn test_u256_checked_mul() {
    assert_eq!(
        U256::from_u64(3).checked_mul(&U256::from_u64(5)),
        Some(U256::from_u64(15))
    );
    assert_eq!(U256::max_value().checked_mul(&U256::from_u64(2)), None);
    assert_eq!(
        U256::max_value().checked_mul(&U256::from_u64(1)),
        Some(U256::max_value())
    );

    // Against the arithmetic crate directly, on a wide operand.
    let mut wide_bytes = vec![0u8; 32];
    wide_bytes[10] = 0x12;
    wide_bytes[31] = 0x34;
    let wide = U256::from_be_bytes(wide_bytes.clone()).unwrap();
    let product = wide.checked_mul(&U256::from_u64(0xabcdef)).unwrap();
    let x = primitive_types::U256::from_big_endian(&wide_bytes);
    let expected = x.checked_mul(primitive_types::U256::from(0xabcdefu64)).unwrap();
    let mut expected_bytes = [0u8; 32];
    expected.to_big_endian(&mut expected_bytes);
    assert_eq!(product.to_be_bytes(), expected_bytes.to_vec());
}

#[test]
fn test_u256_byte_encodings() {
    assert_eq!(U256::from_u64(0x1234).to_min_be_bytes(), vec![0x12, 0x34]);
    assert_eq!(U256::zero().to_min_be_bytes(), Vec::<u8>::new());
    assert_eq!(U256::from_u64(0x80).to_min_be_bytes(), vec![0x80]);

    let bytes = U256::from_u64(0x0102).to_be_bytes();
    assert_eq!(bytes.len(), 32);
    assert_eq!(bytes[30], 0x01);
    assert_eq!(bytes[31], 0x02);

    assert!(U256::from_be_bytes(vec![1, 2, 3]).is_none());
}
