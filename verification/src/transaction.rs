//! Transactions and their canonical signing payload.
//!
//! An unsigned transaction carries the fee-market fields, a call-or-create
//! action, a value and an input. Its signing payload is the canonical
//! length-prefixed list of the chain id (when present) and the fields in
//! fixed order; a create encodes its missing target as the empty string.

use vstd::prelude::*;

use crate::address::AccountId20;
use crate::bytes::copy_bytes;
use crate::bytes::extend_bytes;
use crate::rlp::append_len_prefix;
use crate::rlp::append_rlp_str;
use crate::rlp::append_rlp_u64;
use crate::rlp::append_rlp_uint;
use crate::rlp::rlp_list;
use crate::rlp::rlp_str;
use crate::rlp::rlp_uint;
use crate::u256::U256;

verus! {

/// What a transaction does: call an existing address, or create a contract.
#[derive(Debug, Clone, PartialEq, Eq)]
pub enum TransactionAction {
    Call(AccountId20),
    Create,
}

/// The mathematical shape of an action: the target's bytes, or none.
pub enum ActionView {
    Call(Seq<u8>),
    Create,
}

impl View for TransactionAction {
    type V = ActionView;

    open spec fn view(&self) -> ActionView {
        match self {
            TransactionAction::Call(a) => ActionView::Call(a@),
            TransactionAction::Create => ActionView::Create,
        }
    }
}

impl TransactionAction {
    pub open spec fn wf(&self) -> bool {
        match self {
            TransactionAction::Call(a) => a.wf(),
            TransactionAction::Create => true,
        }
    }

    /// A fresh action equal to this one.
    pub fn dup(&self) -> (r: TransactionAction)
        ensures
            r@ == self@,
            self.wf() ==> r.wf(),
    {
        match self {
            TransactionAction::Call(a) => TransactionAction::Call(a.dup()),
            TransactionAction::Create => TransactionAction::Create,
        }
    }
}

/// A transaction before signing; every field is supplied by the caller.
#[derive(Debug, Clone, PartialEq, Eq)]
pub struct UnsignedTransaction {
    pub nonce: U256,
    pub max_priority_fee_per_gas: U256,
    pub max_fee_per_gas: U256,
    pub gas_limit: U256,
    pub action: TransactionAction,
    pub value: U256,
    pub input: Vec<u8>,
}

/// The mathematical shape of an unsigned transaction.
pub struct TxView {
    pub nonce: nat,
    pub max_priority_fee_per_gas: nat,
    pub max_fee_per_gas: nat,
    pub gas_limit: nat,
    pub action: ActionView,
    pub value: nat,
    pub input: Seq<u8>,
}

impl View for UnsignedTransaction {
    type V = TxView;

    open spec fn view(&self) -> TxView {
        TxView {
            nonce: self.nonce@,
            max_priority_fee_per_gas: self.max_priority_fee_per_gas@,
            max_fee_per_gas: self.max_fee_per_gas@,
            gas_limit: self.gas_limit@,
            action: self.action@,
            value: self.value@,
            input: self.input@,
        }
    }
}

impl UnsignedTransaction {
    pub open spec fn wf(&self) -> bool {
        &&& self.nonce.wf()
        &&& self.max_priority_fee_per_gas.wf()
        &&& self.max_fee_per_gas.wf()
        &&& self.gas_limit.wf()
        &&& self.action.wf()
        &&& self.value.wf()
    }

    /// A fresh transaction equal to this one.
    pub fn dup(&self) -> (r: UnsignedTransaction)
        ensures
            r@ == self@,
            self.wf() ==> r.wf(),
    {
        UnsignedTransaction {
            nonce: self.nonce.dup(),
            max_priority_fee_per_gas: self.max_priority_fee_per_gas.dup(),
            max_fee_per_gas: self.max_fee_per_gas.dup(),
            gas_limit: self.gas_limit.dup(),
            action: self.action.dup(),
            value: self.value.dup(),
            input: copy_bytes(&self.input),
        }
    }
}

/// The action's encoding inside the payload: the 20-byte target as a string,
/// or the empty string for a create.
pub open spec fn spec_action_bytes(action: ActionView) -> Seq<u8> {
    match action {
        ActionView::Call(a) => a,
        ActionView::Create => Seq::empty(),
    }
}

/// The items of the signing payload, concatenated in canonical order.
pub open spec fn spec_payload_items(tx: TxView, chain_id: Option<u64>) -> Seq<u8> {
    (match chain_id {
        Some(c) => rlp_uint(c as nat),
        None => Seq::empty(),
    }) + rlp_uint(tx.nonce) + rlp_uint(tx.max_priority_fee_per_gas) + rlp_uint(
        tx.max_fee_per_gas,
    ) + rlp_uint(tx.gas_limit) + rlp_str(spec_action_bytes(tx.action)) + rlp_uint(tx.value)
        + rlp_str(tx.input)
}

/// The canonical signing payload: the list of chain id (when present) and
/// the unsigned fields in fixed order. Its Keccak-256 digest is what gets
/// signed.
pub open spec fn spec_signing_payload(tx: TxView, chain_id: Option<u64>) -> Seq<u8> {
    rlp_list(spec_payload_items(tx, chain_id))
}

/// Encodes the canonical signing payload of a transaction.
pub fn signing_payload(tx: &UnsignedTransaction, chain_id: Option<u64>) -> (r: Vec<u8>)
    requires
        tx.wf(),
    ensures
        r@ == spec_signing_payload(tx@, chain_id),
{
    let mut items: Vec<u8> = Vec::new();
    match chain_id {
        Some(c) => append_rlp_u64(&mut items, c),
        None => (),
    }
    append_rlp_uint(&mut items, &tx.nonce);
    append_rlp_uint(&mut items, &tx.max_priority_fee_per_gas);
    append_rlp_uint(&mut items, &tx.max_fee_per_gas);
    append_rlp_uint(&mut items, &tx.gas_limit);
    match &tx.action {
        TransactionAction::Call(a) => append_rlp_str(&mut items, &a.0),
        TransactionAction::Create => {
            let empty: Vec<u8> = Vec::new();
            append_rlp_str(&mut items, &empty);
        },
    }
    append_rlp_uint(&mut items, &tx.value);
    append_rlp_str(&mut items, &tx.input);
    proof {
        assert(items@ =~= spec_payload_items(tx@, chain_id));
    }
    let mut out: Vec<u8> = Vec::new();
    append_len_prefix(&mut out, 0xc0, items.len());
    extend_bytes(&mut out, &items);
    proof {
        assert(out@ =~= spec_signing_payload(tx@, chain_id));
    }
    out
}

/// A signed transaction: the unsigned fields, the signature halves `r` and
/// `s`, the replay-protecting `v`, and the chain id it was bound to.
#[derive(Debug, Clone, PartialEq, Eq)]
pub struct SignedTransaction {
    pub unsigned: UnsignedTransaction,
    pub r: U256,
    pub s: U256,
    pub v: u64,
    pub chain_id: Option<u64>,
}

/// The mathematical shape of a signed transaction; `r` and `s` are kept as
/// their 32 bytes so the signature can be reassembled.
pub struct SignedTxView {
    pub tx: TxView,
    pub r: Seq<u8>,
    pub s: Seq<u8>,
    pub v: u64,
    pub chain_id: Option<u64>,
}

impl View for SignedTransaction {
    type V = SignedTxView;

    open spec fn view(&self) -> SignedTxView {
        SignedTxView {
            tx: self.unsigned@,
            r: self.r.spec_bytes(),
            s: self.s.spec_bytes(),
            v: self.v,
            chain_id: self.chain_id,
        }
    }
}

impl SignedTransaction {
    pub open spec fn wf(&self) -> bool {
        &&& self.unsigned.wf()
        &&& self.r.wf()
        &&& self.s.wf()
    }
}

} // verus!
