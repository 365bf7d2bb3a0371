//! Ethereum-style addresses and their ledger account identifiers.
//!
//! An address is 20 bytes, derived from the Keccak-256 digest of a public
//! key. The ledger keys accounts by a 32-byte identifier made by zero-padding
//! an address; the padding makes the mapping injective, and projecting the
//! first 20 bytes back out inverts it.

use vstd::prelude::*;
use vstd::string::StringSliceAdditionalSpecFns;

use crate::bytes::bytes_eq;
use crate::bytes::copy_bytes;
use crate::bytes::sub_bytes;
use crate::crypto::keccak256;
use crate::crypto::keccak_of;

verus! {

/// A 20-byte Ethereum-style account address.
#[derive(Debug, Clone, PartialEq, Eq)]
pub struct AccountId20(pub Vec<u8>);

impl View for AccountId20 {
    type V = Seq<u8>;

    open spec fn view(&self) -> Seq<u8> {
        self.0@
    }
}

impl AccountId20 {
    /// Exactly 20 bytes wide.
    pub open spec fn wf(&self) -> bool {
        self.0@.len() == 20
    }

    /// Adopt exactly 20 bytes; anything else is refused.
    pub fn new(bytes: Vec<u8>) -> (r: Option<AccountId20>)
        ensures
            r is Some <==> bytes@.len() == 20,
            r matches Some(a) ==> a.wf() && a@ == bytes@,
    {
        if bytes.len() == 20 {
            Some(AccountId20(bytes))
        } else {
            None
        }
    }

    /// The 20 bytes of the address.
    pub fn to_bytes(&self) -> (r: Vec<u8>)
        ensures
            r@ == self@,
    {
        copy_bytes(&self.0)
    }

    /// A fresh address equal to this one.
    pub fn dup(&self) -> (r: AccountId20)
        ensures
            r@ == self@,
            self.wf() ==> r.wf(),
    {
        AccountId20(copy_bytes(&self.0))
    }

    /// Byte-for-byte equality.
    pub fn eq_addr(&self, other: &AccountId20) -> (r: bool)
        ensures
            r == (self@ == other@),
    {
        bytes_eq(&self.0, &other.0)
    }
}

/// The value of one hex digit byte, lower or upper case.
pub open spec fn spec_hex_digit(b: u8) -> Option<u8> {
    if 0x30 <= b <= 0x39 {
        Some((b - 0x30) as u8)
    } else if 0x61 <= b <= 0x66 {
        Some((b - 0x61 + 10) as u8)
    } else if 0x41 <= b <= 0x46 {
        Some((b - 0x41 + 10) as u8)
    } else {
        None
    }
}

/// The bytes a hex string denotes, two digits each; `None` on an odd length
/// or a byte that is no hex digit.
pub open spec fn spec_hex_decode(s: Seq<u8>) -> Option<Seq<u8>>
    decreases s.len(),
{
    if s.len() == 0 {
        Some(Seq::empty())
    } else if s.len() == 1 {
        None
    } else {
        match (spec_hex_digit(s[0]), spec_hex_digit(s[1]), spec_hex_decode(s.skip(2))) {
            (Some(hi), Some(lo), Some(rest)) => Some(seq![(16 * hi + lo) as u8] + rest),
            _ => None,
        }
    }
}

/// The value of one hex digit byte.
fn hex_digit(b: u8) -> (r: Option<u8>)
    ensures
        r == spec_hex_digit(b),
{
    if 0x30 <= b && b <= 0x39 {
        Some(b - 0x30)
    } else if 0x61 <= b && b <= 0x66 {
        Some(b - 0x61 + 10)
    } else if 0x41 <= b && b <= 0x46 {
        Some(b - 0x41 + 10)
    } else {
        None
    }
}

impl AccountId20 {
    /// Parses exactly 40 hex digits, either case, into an address; anything
    /// else is an invalid hex address.
    pub fn from_hex(input: &str) -> (r: Result<AccountId20, &'static str>)
        ensures
            r is Ok <==> (input.spec_bytes().len() == 40 && spec_hex_decode(input.spec_bytes())
                is Some),
            r matches Ok(a) ==> a.wf() && Some(a@) == spec_hex_decode(input.spec_bytes()),
    {
        let bytes = input.as_bytes();
        let mut b: Vec<u8> = Vec::new();
        let mut i: usize = 0;
        while i < bytes.len()
            invariant
                bytes@ == input.spec_bytes(),
                i <= bytes@.len(),
                b@ == bytes@.take(i as int),
            decreases bytes@.len() - i,
        {
            b.push(bytes[i]);
            proof {
                assert(bytes@.take(i as int).push(bytes@[i as int]) =~= bytes@.take(i + 1));
            }
            i = i + 1;
        }
        proof {
            assert(bytes@.take(bytes@.len() as int) =~= bytes@);
        }
        if b.len() != 40 {
            return Err("invalid hex address.");
        }
        let mut out: Vec<u8> = Vec::new();
        let mut k: usize = 0;
        while k < 20
            invariant
                b@ == input.spec_bytes(),
                b@.len() == 40,
                k <= 20,
                out@.len() == k,
                spec_hex_decode(b@) is Some <==> spec_hex_decode(b@.skip(2 * k)) is Some,
                spec_hex_decode(b@) matches Some(d) ==> d == out@ + spec_hex_decode(
                    b@.skip(2 * k),
                )->0,
            decreases 20 - k,
        {
            let ghost tail = b@.skip(2 * k as int);
            proof {
                assert(tail[0] == b@[2 * k as int]);
                assert(tail[1] == b@[2 * k as int + 1]);
                assert(tail.skip(2) =~= b@.skip(2 * (k + 1) as int));
            }
            let hi = match hex_digit(b[2 * k]) {
                Some(d) => d,
                None => {
                    return Err("invalid hex address.");
                },
            };
            let lo = match hex_digit(b[2 * k + 1]) {
                Some(d) => d,
                None => {
                    return Err("invalid hex address.");
                },
            };
            out.push(16 * hi + lo);
            proof {
                assert(spec_hex_decode(tail) matches Some(d) ==> d == seq![(16 * hi + lo) as u8]
                    + spec_hex_decode(tail.skip(2))->0);
                assert(spec_hex_decode(b@) matches Some(d) ==> d == out@ + spec_hex_decode(
                    b@.skip(2 * (k + 1) as int),
                )->0);
            }
            k = k + 1;
        }
        proof {
            assert(b@.skip(40) =~= Seq::<u8>::empty());
            assert(spec_hex_decode(b@)->0 == out@ + Seq::<u8>::empty());
            assert(out@ + Seq::<u8>::empty() =~= out@);
        }
        Ok(AccountId20(out))
    }
}

impl core::str::FromStr for AccountId20 {
    type Err = &'static str;

    fn from_str(input: &str) -> Result<Self, Self::Err> {
        AccountId20::from_hex(input)
    }
}

/// A 32-byte native ledger account identifier.
#[derive(Debug, Clone, PartialEq, Eq)]
pub struct AccountId32(pub Vec<u8>);

impl View for AccountId32 {
    type V = Seq<u8>;

    open spec fn view(&self) -> Seq<u8> {
        self.0@
    }
}

impl AccountId32 {
    /// Exactly 32 bytes wide.
    pub open spec fn wf(&self) -> bool {
        self.0@.len() == 32
    }

    /// Adopt exactly 32 bytes; anything else is refused.
    pub fn new(bytes: Vec<u8>) -> (r: Option<AccountId32>)
        ensures
            r is Some <==> bytes@.len() == 32,
            r matches Some(a) ==> a.wf() && a@ == bytes@,
    {
        if bytes.len() == 32 {
            Some(AccountId32(bytes))
        } else {
            None
        }
    }

    /// Byte-for-byte equality.
    pub fn eq_id(&self, other: &AccountId32) -> (r: bool)
        ensures
            r == (self@ == other@),
    {
        bytes_eq(&self.0, &other.0)
    }

    /// A fresh identifier equal to this one.
    pub fn dup(&self) -> (r: AccountId32)
        ensures
            r@ == self@,
            self.wf() ==> r.wf(),
    {
        AccountId32(copy_bytes(&self.0))
    }
}

/// The identifier an address maps to: the address then 12 zero bytes.
pub open spec fn spec_to_account_id(addr: Seq<u8>) -> Seq<u8> {
    addr + Seq::new(12, |i: int| 0u8)
}

/// The address projected back out of an identifier: its first 20 bytes.
pub open spec fn spec_from_account_id(id: Seq<u8>) -> Seq<u8> {
    id.take(20)
}

/// Maps addresses into the ledger's identifier space by zero-padding.
pub struct HashedAddressMapping;

impl HashedAddressMapping {
    /// The 32-byte identifier of an address: its bytes, then zero fill.
    pub fn into_account_id(address: AccountId20) -> (r: AccountId32)
        requires
            address.wf(),
        ensures
            r.wf(),
            r@ == spec_to_account_id(address@),
    {
        let mut v = address.0;
        let mut i: usize = 0;
        while i < 12
            invariant
                i <= 12,
                v@.len() == 20 + i,
                v@.take(20) == address@,
                forall|j: int| 20 <= j < v@.len() ==> v@[j] == 0,
            decreases 12 - i,
        {
            v.push(0);
            proof {
                assert(v@.take(20) =~= address@);
            }
            i = i + 1;
        }
        proof {
            assert(v@ =~= spec_to_account_id(address@));
        }
        AccountId32(v)
    }
}

/// The address an identifier truncates to; no validation of the padding.
pub fn from_account_id(id: &AccountId32) -> (r: AccountId20)
    requires
        id.wf(),
    ensures
        r.wf(),
        r@ == spec_from_account_id(id@),
{
    let v = sub_bytes(&id.0, 0, 20);
    proof {
        assert(id.0@.subrange(0, 20) =~= id@.take(20));
    }
    AccountId20(v)
}

/// Whether an identifier carries the zero padding this codec writes.
pub open spec fn spec_id_padding_zero(id: Seq<u8>) -> bool {
    forall|j: int| 20 <= j < 32 ==> id[j] == 0
}

/// Decoding error: the identifier was not produced by this codec.
#[derive(Clone, Copy, PartialEq, Eq, Structural, Debug)]
pub enum CodecError {
    AddressDecodeAmbiguous,
}

/// The address of an identifier, refused when the padding is not zero and the
/// identifier therefore came from outside this codec.
pub fn decode_account_id(id: &AccountId32) -> (r: Result<AccountId20, CodecError>)
    requires
        id.wf(),
    ensures
        r is Ok <==> spec_id_padding_zero(id@),
        r matches Ok(a) ==> a.wf() && a@ == spec_from_account_id(id@),
        r matches Err(e) ==> e == CodecError::AddressDecodeAmbiguous,
{
    let mut i: usize = 20;
    while i < 32
        invariant
            id.wf(),
            20 <= i <= 32,
            forall|j: int| 20 <= j < i ==> id.0@[j] == 0,
        decreases 32 - i,
    {
        if id.0[i] != 0 {
            return Err(CodecError::AddressDecodeAmbiguous);
        }
        i = i + 1;
    }
    Ok(from_account_id(id))
}

/// The address of a 64-byte public key: the low 20 bytes of its Keccak-256
/// digest.
pub open spec fn spec_derive_address(pubkey: Seq<u8>) -> Seq<u8> {
    keccak_of(pubkey).skip(12)
}

/// Derives the address of an uncompressed public key (format byte stripped).
pub fn derive_address(pubkey: &Vec<u8>) -> (r: AccountId20)
    requires
        pubkey@.len() == 64,
    ensures
        r.wf(),
        r@ == spec_derive_address(pubkey@),
{
    let digest = keccak256(pubkey);
    let v = sub_bytes(&digest, 12, 32);
    proof {
        assert(digest@.subrange(12, 32) =~= keccak_of(pubkey@).skip(12));
    }
    AccountId20(v)
}

/// Mapping an address in and projecting it back out returns the address.
///
/// Together with the injectivity this implies, no two addresses share an
/// identifier.
pub proof fn lemma_account_id_round_trip(addr: Seq<u8>)
    requires
        addr.len() == 20,
    ensures
        spec_from_account_id(spec_to_account_id(addr)) == addr,
{
    assert(spec_to_account_id(addr).take(20) =~= addr);
}

} // verus!
