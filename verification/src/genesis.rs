//! Deterministic test accounts and a pre-funded ledger.
//!
//! A seed byte expands to a secret key of repeated bytes; the account's
//! address is derived from that key, and a genesis ledger funds each such
//! account with the largest representable balance at nonce zero.

use vstd::prelude::*;

use crate::address::spec_derive_address;
use crate::address::spec_to_account_id;
use crate::address::AccountId20;
use crate::address::AccountId32;
use crate::address::derive_address;
use crate::address::HashedAddressMapping;
use crate::bytes::pow256;
use crate::crypto::derive_public_key;
use crate::crypto::is_valid_secret;
use crate::crypto::pubkey_of;
use crate::ledger::ledger_get;
use crate::ledger::Account;
use crate::ledger::AccountView;
use crate::ledger::Ledger;
use crate::u256::U256;

verus! {

/// A test account: its address, its ledger identifier, and the secret key
/// they were derived from.
pub struct AccountInfo {
    pub address: AccountId20,
    pub account_id: AccountId32,
    pub private_key: Vec<u8>,
}

/// The secret key a seed expands to: 32 copies of `seed + 1`.
pub open spec fn spec_seed_key(seed: u8) -> Seq<u8> {
    Seq::new(32, |i: int| (seed + 1) as u8)
}

impl AccountInfo {
    /// The address is the key's, and the identifier is the address's.
    pub open spec fn wf(&self) -> bool {
        &&& self.address.wf()
        &&& self.account_id.wf()
        &&& self.private_key@.len() == 32
        &&& is_valid_secret(self.private_key@)
        &&& self.address@ == spec_derive_address(pubkey_of(self.private_key@))
        &&& self.account_id@ == spec_to_account_id(self.address@)
    }
}

/// Builds the test account of a seed; `None` exactly when the expanded
/// bytes are not a valid secret key.
pub fn address_build(seed: u8) -> (r: Option<AccountInfo>)
    requires
        seed < 255,
    ensures
        r is Some <==> is_valid_secret(spec_seed_key(seed)),
        r matches Some(info) ==> info.wf() && info.private_key@ == spec_seed_key(seed),
{
    let mut key: Vec<u8> = Vec::new();
    let b: u8 = seed + 1;
    let mut i: usize = 0;
    while i < 32
        invariant
            i <= 32,
            b == seed + 1,
            key@.len() == i,
            forall|j: int| 0 <= j < i ==> key@[j] == seed + 1,
        decreases 32 - i,
    {
        key.push(b);
        i = i + 1;
    }
    proof {
        assert(key@ =~= spec_seed_key(seed));
    }
    let pubkey = match derive_public_key(&key) {
        Some(p) => p,
        None => {
            return None;
        },
    };
    let address = derive_address(&pubkey);
    let account_id = HashedAddressMapping::into_account_id(address.dup());
    Some(AccountInfo { address, account_id, private_key: key })
}

/// The balance every genesis account starts with: the largest value.
pub open spec fn spec_genesis_account() -> AccountView {
    AccountView { balance: (pow256(32) - 1) as nat, nonce: 0, code: Seq::empty() }
}

/// Builds `no_of_accounts` seeded accounts and a ledger funding each with
/// the largest representable balance at nonce zero; `None` exactly when
/// some seed expands to an invalid secret key.
pub fn new_test_ext(no_of_accounts: usize) -> (r: Option<(Vec<AccountInfo>, Ledger)>)
    requires
        no_of_accounts <= 255,
    ensures
        r is Some <==> (forall|s: u8|
            s < no_of_accounts ==> is_valid_secret(#[trigger] spec_seed_key(s))),
        r matches Some(p) ==> {
            &&& p.0@.len() == no_of_accounts
            &&& p.1.wf()
            &&& forall|i: int|
                0 <= i < no_of_accounts ==> {
                    &&& (#[trigger] p.0@[i]).wf()
                    &&& p.0@[i].private_key@ == spec_seed_key(i as u8)
                    &&& ledger_get(p.1@, p.0@[i].account_id@) == spec_genesis_account()
                }
        },
{
    let mut accounts: Vec<AccountInfo> = Vec::new();
    let mut ledger = Ledger::new();
    let mut i: usize = 0;
    while i < no_of_accounts
        invariant
            no_of_accounts <= 255,
            i <= no_of_accounts,
            accounts@.len() == i,
            ledger.wf(),
            forall|s: u8| s < i ==> is_valid_secret(#[trigger] spec_seed_key(s)),
            forall|k: int|
                0 <= k < i ==> {
                    &&& (#[trigger] accounts@[k]).wf()
                    &&& accounts@[k].private_key@ == spec_seed_key(k as u8)
                    &&& ledger_get(ledger@, accounts@[k].account_id@) == spec_genesis_account()
                },
        decreases no_of_accounts - i,
    {
        let info = match address_build(i as u8) {
            Some(info) => info,
            None => {
                return None;
            },
        };
        let funded = Account { balance: U256::max_value(), nonce: U256::zero(), code: Vec::new() };
        proof {
            assert(funded@.code =~= spec_genesis_account().code);
            assert(funded@ == spec_genesis_account());
        }
        ledger.set_account(info.account_id.dup(), funded);
        accounts.push(info);
        i = i + 1;
    }
    Some((accounts, ledger))
}

} // verus!
