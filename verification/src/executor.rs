//! Applying a signed transaction to the ledger.
//!
//! Validation recovers the sender, checks the nonce and reserves the worst
//! case fee; a failed validation rejects the transaction and leaves the
//! ledger untouched. A validated transaction is applied atomically: value
//! moves, the sender's nonce rises by one even when the external executor
//! reports a revert, the fee for the gas actually used is deducted, and a
//! receipt records the outcome. The external machine that runs contract
//! bytecode is a capability the caller supplies: its reply arrives here as a
//! plain `EvmOutcome` value, and this module is verified for every value of
//! it.

use vstd::prelude::*;

use crate::address::spec_to_account_id;
use crate::address::AccountId20;
use crate::address::HashedAddressMapping;
use crate::bytes::copy_byte_lists;
use crate::bytes::copy_bytes;
use crate::bytes::extend_bytes;
use crate::bytes::lemma_be_val_bound;
use crate::bytes::lemma_pow256_pos;
use crate::bytes::pow256;
use crate::bytes::sub_bytes;
use crate::crypto::keccak256;
use crate::crypto::keccak_of;
use crate::ledger::ledger_get;
use crate::ledger::Account;
use crate::ledger::AccountView;
use crate::ledger::Ledger;
use crate::rlp::append_len_prefix;
use crate::rlp::append_rlp_str;
use crate::rlp::append_rlp_uint;
use crate::rlp::rlp_list;
use crate::rlp::rlp_str;
use crate::rlp::rlp_uint;
use crate::signer::spec_recover_signer;
use crate::transaction::ActionView;
use crate::transaction::SignedTransaction;
use crate::transaction::SignedTxView;
use crate::transaction::TransactionAction;
use crate::transaction::TxView;
use crate::u256::U256;
use vstd::arithmetic::div_mod::lemma_fundamental_div_mod_converse;
use vstd::arithmetic::div_mod::lemma_small_mod;

verus! {

/// Rejection of a transaction before any state change.
#[derive(Clone, Copy, PartialEq, Eq, Structural, Debug)]
pub enum ExecError {
    InvalidSignature,
    NonceMismatch,
    InsufficientFunds,
}

/// What the external executor reported for the code it ran.
#[derive(Clone, Copy, PartialEq, Eq, Structural, Debug)]
pub enum EvmStatus {
    Succeeded,
    Reverted,
    Failed,
}

/// The external executor's reply: status, gas spent, emitted logs, and the
/// call output or the constructor's returned runtime code.
#[derive(Debug, Clone)]
pub struct EvmOutcome {
    pub status: EvmStatus,
    pub gas_used: U256,
    pub logs: Vec<Vec<u8>>,
    pub output: Vec<u8>,
}

/// The mathematical shape of an executor reply.
pub struct EvmOutcomeView {
    pub status: EvmStatus,
    pub gas_used: nat,
    pub logs: Seq<Seq<u8>>,
    pub output: Seq<u8>,
}

impl View for EvmOutcome {
    type V = EvmOutcomeView;

    open spec fn view(&self) -> EvmOutcomeView {
        EvmOutcomeView {
            status: self.status,
            gas_used: self.gas_used@,
            logs: self.logs.deep_view(),
            output: self.output@,
        }
    }
}

impl EvmOutcome {
    pub open spec fn wf(&self) -> bool {
        self.gas_used.wf()
    }
}

/// How a processed transaction ended.
#[derive(Clone, Copy, PartialEq, Eq, Structural, Debug)]
pub enum ReceiptStatus {
    Success,
    Reverted,
    Failed,
}

/// What a processed transaction produced: a call's output bytes, or the
/// address of a created contract.
#[derive(Debug, Clone, PartialEq, Eq)]
pub enum ReceiptOutcome {
    CallOutput(Vec<u8>),
    CreatedContract(AccountId20),
}

/// The mathematical shape of a receipt outcome.
pub enum OutcomeView {
    CallOutput(Seq<u8>),
    CreatedContract(Seq<u8>),
}

impl View for ReceiptOutcome {
    type V = OutcomeView;

    open spec fn view(&self) -> OutcomeView {
        match self {
            ReceiptOutcome::CallOutput(b) => OutcomeView::CallOutput(b@),
            ReceiptOutcome::CreatedContract(a) => OutcomeView::CreatedContract(a@),
        }
    }
}

/// The immutable record of one processed transaction.
#[derive(Debug, Clone, PartialEq, Eq)]
pub struct ExecutionReceipt {
    pub status: ReceiptStatus,
    pub gas_used: U256,
    pub logs: Vec<Vec<u8>>,
    pub outcome: ReceiptOutcome,
}

/// The mathematical shape of a receipt.
pub struct ReceiptView {
    pub status: ReceiptStatus,
    pub gas_used: nat,
    pub logs: Seq<Seq<u8>>,
    pub outcome: OutcomeView,
}

impl View for ExecutionReceipt {
    type V = ReceiptView;

    open spec fn view(&self) -> ReceiptView {
        ReceiptView {
            status: self.status,
            gas_used: self.gas_used@,
            logs: self.logs.deep_view(),
            outcome: self.outcome@,
        }
    }
}

impl ExecutionReceipt {
    pub open spec fn wf(&self) -> bool {
        &&& self.gas_used.wf()
        &&& match self.outcome {
            ReceiptOutcome::CallOutput(_) => true,
            ReceiptOutcome::CreatedContract(a) => a.wf(),
        }
    }
}

/// The receipt status an executor status folds to.
pub open spec fn spec_receipt_status(s: EvmStatus) -> ReceiptStatus {
    match s {
        EvmStatus::Succeeded => ReceiptStatus::Success,
        EvmStatus::Reverted => ReceiptStatus::Reverted,
        EvmStatus::Failed => ReceiptStatus::Failed,
    }
}

fn receipt_status_of(s: EvmStatus) -> (r: ReceiptStatus)
    ensures
        r == spec_receipt_status(s),
{
    match s {
        EvmStatus::Succeeded => ReceiptStatus::Success,
        EvmStatus::Reverted => ReceiptStatus::Reverted,
        EvmStatus::Failed => ReceiptStatus::Failed,
    }
}

/// The address a contract created by `sender` at `nonce` lives at: the low
/// 20 bytes of the digest of the encoded (sender, nonce) list.
pub open spec fn spec_contract_address(sender: Seq<u8>, nonce: nat) -> Seq<u8> {
    keccak_of(rlp_list(rlp_str(sender) + rlp_uint(nonce))).skip(12)
}

/// Derives the deterministic address of the contract `sender` creates at
/// `nonce`.
pub fn contract_address(sender: &AccountId20, nonce: &U256) -> (r: AccountId20)
    requires
        sender.wf(),
        nonce.wf(),
    ensures
        r.wf(),
        r@ == spec_contract_address(sender@, nonce@),
{
    let mut items: Vec<u8> = Vec::new();
    append_rlp_str(&mut items, &sender.0);
    append_rlp_uint(&mut items, nonce);
    proof {
        assert(items@ =~= rlp_str(sender@) + rlp_uint(nonce@));
    }
    let mut out: Vec<u8> = Vec::new();
    append_len_prefix(&mut out, 0xc0, items.len());
    extend_bytes(&mut out, &items);
    proof {
        assert(out@ =~= rlp_list(rlp_str(sender@) + rlp_uint(nonce@)));
    }
    let digest = keccak256(&out);
    let v = sub_bytes(&digest, 12, 32);
    proof {
        assert(digest@.subrange(12, 32) =~= keccak_of(out@).skip(12));
    }
    AccountId20(v)
}

/// The call target of an action; meaningful only for a call.
pub open spec fn spec_call_target(a: ActionView) -> Seq<u8> {
    match a {
        ActionView::Call(t) => t,
        ActionView::Create => Seq::empty(),
    }
}

/// What applying a validated transaction does to the ledger and reports.
///
/// A call always moves the value; when the target carries code the external
/// executor's reply is folded into the receipt, else no gas is metered and
/// the receipt is a success. A create moves the value and stores the
/// returned runtime code only when the constructor succeeded; the fee and
/// the nonce increment stand either way. Balances and nonces live modulo
/// `2^256`.
pub open spec fn spec_apply(
    l: Map<Seq<u8>, AccountView>,
    tx: TxView,
    o: EvmOutcomeView,
    sender: Seq<u8>,
) -> (Map<Seq<u8>, AccountView>, Result<ReceiptView, ExecError>) {
    let sid = spec_to_account_id(sender);
    let acct = ledger_get(l, sid);
    match tx.action {
        ActionView::Call(target) => {
            let tid = spec_to_account_id(target);
            let invoked = ledger_get(l, tid).code.len() > 0;
            let gas_used: nat = if invoked {
                o.gas_used
            } else {
                0
            };
            let fee = tx.max_fee_per_gas * gas_used;
            let l1 = l.insert(
                sid,
                AccountView {
                    balance: (acct.balance - tx.value - fee) as nat,
                    nonce: (acct.nonce + 1) % pow256(32),
                    code: acct.code,
                },
            );
            let t1 = ledger_get(l1, tid);
            let l2 = l1.insert(
                tid,
                AccountView {
                    balance: ((t1.balance + tx.value) % pow256(32)) as nat,
                    nonce: t1.nonce,
                    code: t1.code,
                },
            );
            let rc = ReceiptView {
                status: if invoked {
                    spec_receipt_status(o.status)
                } else {
                    ReceiptStatus::Success
                },
                gas_used: gas_used,
                logs: if invoked {
                    o.logs
                } else {
                    Seq::empty()
                },
                outcome: OutcomeView::CallOutput(
                    if invoked {
                        o.output
                    } else {
                        Seq::empty()
                    },
                ),
            };
            (l2, Ok(rc))
        },
        ActionView::Create => {
            let fee = tx.max_fee_per_gas * o.gas_used;
            let success = o.status == EvmStatus::Succeeded;
            let spent: nat = if success {
                tx.value
            } else {
                0
            };
            let l1 = l.insert(
                sid,
                AccountView {
                    balance: (acct.balance - spent - fee) as nat,
                    nonce: (acct.nonce + 1) % pow256(32),
                    code: acct.code,
                },
            );
            let new_addr = spec_contract_address(sender, tx.nonce);
            let nid = spec_to_account_id(new_addr);
            let l2 = if success {
                let prev = ledger_get(l1, nid);
                l1.insert(
                    nid,
                    AccountView {
                        balance: ((prev.balance + tx.value) % pow256(32)) as nat,
                        nonce: prev.nonce,
                        code: o.output,
                    },
                )
            } else {
                l1
            };
            let rc = ReceiptView {
                status: spec_receipt_status(o.status),
                gas_used: o.gas_used,
                logs: o.logs,
                outcome: OutcomeView::CreatedContract(new_addr),
            };
            (l2, Ok(rc))
        },
    }
}

/// What processing a signed transaction does: recover the sender (else
/// `InvalidSignature`), match the nonce (else `NonceMismatch`), reserve
/// `value + max_fee_per_gas * gas_limit` (else `InsufficientFunds`) — a
/// rejection leaves the ledger untouched — then apply.
pub open spec fn spec_execute(
    l: Map<Seq<u8>, AccountView>,
    st: SignedTxView,
    o: EvmOutcomeView,
) -> (Map<Seq<u8>, AccountView>, Result<ReceiptView, ExecError>) {
    match spec_recover_signer(st) {
        None => (l, Err(ExecError::InvalidSignature)),
        Some(sender) => {
            let sid = spec_to_account_id(sender);
            let acct = ledger_get(l, sid);
            if st.tx.nonce != acct.nonce {
                (l, Err(ExecError::NonceMismatch))
            } else if acct.balance < st.tx.value + st.tx.max_fee_per_gas * st.tx.gas_limit {
                (l, Err(ExecError::InsufficientFunds))
            } else {
                spec_apply(l, st.tx, o, sender)
            }
        },
    }
}

/// The mathematical shape of an execution result.
pub open spec fn spec_result_view(r: Result<ExecutionReceipt, ExecError>) -> Result<
    ReceiptView,
    ExecError,
> {
    match r {
        Ok(x) => Ok(x@),
        Err(e) => Err(e),
    }
}

/// The remainder a sum with a carry flag stands for.
proof fn lemma_carry_mod(s: nat, r: nat, c: bool)
    requires
        s == r + (if c {
            pow256(32)
        } else {
            0
        }),
        r < pow256(32),
    ensures
        r == s % pow256(32),
{
    if c {
        lemma_fundamental_div_mod_converse(s as int, pow256(32) as int, 1, r as int);
    } else {
        lemma_small_mod(s, pow256(32));
    }
}

/// Processes one signed transaction against the ledger.
///
/// `outcome` is the external executor's reply for the code this transaction
/// runs, supplied by the caller; where no code runs it is ignored. The
/// ledger afterwards and the result are exactly what `spec_execute` says of
/// the ledger before, the transaction, and the reply.
pub fn execute(ledger: &mut Ledger, tx: &SignedTransaction, outcome: &EvmOutcome) -> (r: Result<
    ExecutionReceipt,
    ExecError,
>)
    requires
        old(ledger).wf(),
        tx.wf(),
        outcome.wf(),
        outcome.gas_used@ <= tx.unsigned.gas_limit@,
    ensures
        final(ledger).wf(),
        final(ledger)@ == spec_execute(old(ledger)@, tx@, outcome@).0,
        spec_result_view(r) == spec_execute(old(ledger)@, tx@, outcome@).1,
        r matches Ok(rc) ==> rc.wf(),
{
    let sender = match tx.recover_signer() {
        Ok(a) => a,
        Err(_) => {
            return Err(ExecError::InvalidSignature);
        },
    };
    let sender_id = HashedAddressMapping::into_account_id(sender.dup());
    let ghost sid = sender_id@;
    let acct = ledger.get_account(&sender_id);
    if !acct.nonce.eq_val(&tx.unsigned.nonce) {
        return Err(ExecError::NonceMismatch);
    }
    proof {
        lemma_be_val_bound(acct.balance.bytes@);
    }
    let reserved = match tx.unsigned.max_fee_per_gas.checked_mul(&tx.unsigned.gas_limit) {
        Some(f) => f,
        None => {
            return Err(ExecError::InsufficientFunds);
        },
    };
    let (total, ov) = tx.unsigned.value.add_carry(&reserved);
    if ov {
        return Err(ExecError::InsufficientFunds);
    }
    if acct.balance.lt(&total) {
        return Err(ExecError::InsufficientFunds);
    }
    // Validated: the sender is known, the nonce matches, and the balance
    // covers the value plus the whole gas budget.
    match &tx.unsigned.action {
        TransactionAction::Call(target) => {
            let target_id = HashedAddressMapping::into_account_id(target.dup());
            let ghost tid = target_id@;
            let target_acct = ledger.get_account(&target_id);
            let invoked = target_acct.code.len() > 0;
            let gas_used = if invoked {
                outcome.gas_used.dup()
            } else {
                U256::zero()
            };
            proof {
                assert(tx.unsigned.max_fee_per_gas@ * gas_used@ <= tx.unsigned.max_fee_per_gas@
                    * tx.unsigned.gas_limit@) by (nonlinear_arith)
                    requires
                        gas_used@ <= tx.unsigned.gas_limit@,
                        tx.unsigned.max_fee_per_gas@ >= 0,
                {}
            }
            let fee = match tx.unsigned.max_fee_per_gas.checked_mul(&gas_used) {
                Some(f) => f,
                None => {
                    proof {
                        assert(false);
                    }
                    vstd::pervasive::unreached()
                },
            };
            let (spend, ov2) = tx.unsigned.value.add_carry(&fee);
            proof {
                if ov2 {
                    assert(false);
                }
            }
            let new_balance = acct.balance.sub_val(&spend);
            let one = U256::from_u64(1);
            let (new_nonce, _nc) = acct.nonce.add_carry(&one);
            proof {
                lemma_be_val_bound(new_nonce.bytes@);
                lemma_carry_mod(acct.nonce@ + 1, new_nonce@, _nc);
            }
            ledger.set_account(
                sender_id,
                Account { balance: new_balance, nonce: new_nonce, code: acct.code },
            );
            let t2 = ledger.get_account(&target_id);
            let (tb, _tc) = t2.balance.add_carry(&tx.unsigned.value);
            proof {
                lemma_be_val_bound(tb.bytes@);
                lemma_carry_mod(t2.balance@ + tx.unsigned.value@, tb@, _tc);
            }
            ledger.set_account(target_id, Account { balance: tb, nonce: t2.nonce, code: t2.code });
            let receipt = ExecutionReceipt {
                status: if invoked {
                    receipt_status_of(outcome.status)
                } else {
                    ReceiptStatus::Success
                },
                gas_used: gas_used,
                logs: if invoked {
                    copy_byte_lists(&outcome.logs)
                } else {
                    Vec::new()
                },
                outcome: ReceiptOutcome::CallOutput(
                    if invoked {
                        copy_bytes(&outcome.output)
                    } else {
                        Vec::new()
                    },
                ),
            };
            proof {
                let m = spec_execute(old(ledger)@, tx@, outcome@);
                let mrc = spec_apply(old(ledger)@, tx@.tx, outcome@, sender@).1->Ok_0;
                assert(ledger@ =~= m.0);
                assert(receipt@.logs =~= mrc.logs);
                assert(receipt@.outcome->CallOutput_0 =~= mrc.outcome->CallOutput_0);
                assert(receipt@ == mrc);
            }
            Ok(receipt)
        },
        TransactionAction::Create => {
            proof {
                assert(tx.unsigned.max_fee_per_gas@ * outcome.gas_used@
                    <= tx.unsigned.max_fee_per_gas@ * tx.unsigned.gas_limit@) by (nonlinear_arith)
                    requires
                        outcome.gas_used@ <= tx.unsigned.gas_limit@,
                        tx.unsigned.max_fee_per_gas@ >= 0,
                {}
            }
            let fee = match tx.unsigned.max_fee_per_gas.checked_mul(&outcome.gas_used) {
                Some(f) => f,
                None => {
                    proof {
                        assert(false);
                    }
                    vstd::pervasive::unreached()
                },
            };
            let success = match outcome.status {
                EvmStatus::Succeeded => true,
                _ => false,
            };
            let spent = if success {
                tx.unsigned.value.dup()
            } else {
                U256::zero()
            };
            let (spend, ov2) = spent.add_carry(&fee);
            proof {
                if ov2 {
                    assert(false);
                }
            }
            let new_balance = acct.balance.sub_val(&spend);
            let one = U256::from_u64(1);
            let (new_nonce, _nc) = acct.nonce.add_carry(&one);
            proof {
                lemma_be_val_bound(new_nonce.bytes@);
                lemma_carry_mod(acct.nonce@ + 1, new_nonce@, _nc);
            }
            let new_addr = contract_address(&sender, &tx.unsigned.nonce);
            let new_id = HashedAddressMapping::into_account_id(new_addr.dup());
            let ghost nid = new_id@;
            ledger.set_account(
                sender_id,
                Account { balance: new_balance, nonce: new_nonce, code: acct.code },
            );
            if success {
                let prev = ledger.get_account(&new_id);
                let (nb, _c2) = prev.balance.add_carry(&tx.unsigned.value);
                proof {
                    lemma_be_val_bound(nb.bytes@);
                    lemma_carry_mod(prev.balance@ + tx.unsigned.value@, nb@, _c2);
                }
                ledger.set_account(
                    new_id,
                    Account { balance: nb, nonce: prev.nonce, code: copy_bytes(&outcome.output) },
                );
            }
            let receipt = ExecutionReceipt {
                status: receipt_status_of(outcome.status),
                gas_used: outcome.gas_used.dup(),
                logs: copy_byte_lists(&outcome.logs),
                outcome: ReceiptOutcome::CreatedContract(new_addr),
            };
            proof {
                let m = spec_execute(old(ledger)@, tx@, outcome@);
                let mrc = spec_apply(old(ledger)@, tx@.tx, outcome@, sender@).1->Ok_0;
                assert(ledger@ =~= m.0);
                assert(receipt@.logs =~= mrc.logs);
                assert(receipt@ == mrc);
            }
            Ok(receipt)
        },
    }
}

/// Nonce monotonicity: every processed transaction — success, revert or
/// failure alike — raises the sender's nonce by exactly one (modulo
/// `2^256`).
pub proof fn lemma_nonce_monotonic(
    l: Map<Seq<u8>, AccountView>,
    st: SignedTxView,
    o: EvmOutcomeView,
)
    requires
        spec_execute(l, st, o).1 is Ok,
    ensures
        ledger_get(spec_execute(l, st, o).0, spec_to_account_id(spec_recover_signer(st)->0)).nonce
            == (ledger_get(l, spec_to_account_id(spec_recover_signer(st)->0)).nonce + 1) % pow256(
            32,
        ),
{
    lemma_pow256_pos(32);
    let sender = spec_recover_signer(st)->0;
    let sid = spec_to_account_id(sender);
    let acct = ledger_get(l, sid);
    let tx = st.tx;
    assert(spec_execute(l, st, o) == spec_apply(l, tx, o, sender));
    match tx.action {
        ActionView::Call(target) => {
            let tid = spec_to_account_id(target);
            let invoked = ledger_get(l, tid).code.len() > 0;
            let gas_used: nat = if invoked {
                o.gas_used
            } else {
                0
            };
            let fee = tx.max_fee_per_gas * gas_used;
            let l1 = l.insert(
                sid,
                AccountView {
                    balance: (acct.balance - tx.value - fee) as nat,
                    nonce: (acct.nonce + 1) % pow256(32),
                    code: acct.code,
                },
            );
            let t1 = ledger_get(l1, tid);
            let l2 = l1.insert(
                tid,
                AccountView {
                    balance: ((t1.balance + tx.value) % pow256(32)) as nat,
                    nonce: t1.nonce,
                    code: t1.code,
                },
            );
            assert(spec_apply(l, tx, o, sender).0 == l2);
            if tid == sid {
                assert(l1.dom().contains(sid));
                assert(l1[sid].nonce == (acct.nonce + 1) % pow256(32));
                assert(t1 == ledger_get(l1, sid));
                assert(t1.nonce == (acct.nonce + 1) % pow256(32));
                assert(ledger_get(l2, sid).nonce == t1.nonce);
            } else {
                assert(ledger_get(l2, sid) == ledger_get(l1, sid));
            }
        },
        ActionView::Create => {
            let fee = tx.max_fee_per_gas * o.gas_used;
            let success = o.status == EvmStatus::Succeeded;
            let spent: nat = if success {
                tx.value
            } else {
                0
            };
            let l1 = l.insert(
                sid,
                AccountView {
                    balance: (acct.balance - spent - fee) as nat,
                    nonce: (acct.nonce + 1) % pow256(32),
                    code: acct.code,
                },
            );
            let nid = spec_to_account_id(spec_contract_address(sender, tx.nonce));
            let l2 = spec_apply(l, tx, o, sender).0;
            if success {
                let prev = ledger_get(l1, nid);
                assert(l2 == l1.insert(
                    nid,
                    AccountView {
                        balance: ((prev.balance + tx.value) % pow256(32)) as nat,
                        nonce: prev.nonce,
                        code: o.output,
                    },
                ));
                if nid == sid {
                    assert(prev.nonce == (acct.nonce + 1) % pow256(32));
                    assert(ledger_get(l2, sid).nonce == prev.nonce);
                } else {
                    assert(ledger_get(l2, sid) == ledger_get(l1, sid));
                }
            } else {
                assert(l2 == l1);
            }
        },
    }
}

/// A replayed transaction — its nonce no longer the account's — is rejected
/// with `NonceMismatch` and changes nothing.
pub proof fn lemma_replay_rejected(
    l: Map<Seq<u8>, AccountView>,
    st: SignedTxView,
    o: EvmOutcomeView,
)
    requires
        spec_recover_signer(st) is Some,
        st.tx.nonce != ledger_get(l, spec_to_account_id(spec_recover_signer(st)->0)).nonce,
    ensures
        spec_execute(l, st, o).0 == l,
        spec_execute(l, st, o).1 == Err::<ReceiptView, ExecError>(ExecError::NonceMismatch),
{
    lemma_pow256_pos(32);
}

/// Balance conservation on a call: a processed transfer of `v` to a
/// distinct, code-free target moves exactly `v`, and no gas is metered, so
/// the sender pays `v` and the target gains `v`.
pub proof fn lemma_call_balance_conservation(
    l: Map<Seq<u8>, AccountView>,
    st: SignedTxView,
    o: EvmOutcomeView,
)
    requires
        spec_execute(l, st, o).1 is Ok,
        st.tx.action is Call,
        ledger_get(l, spec_to_account_id(spec_call_target(st.tx.action))).code.len() == 0,
        spec_to_account_id(spec_call_target(st.tx.action)) != spec_to_account_id(
            spec_recover_signer(st)->0,
        ),
        ledger_get(l, spec_to_account_id(spec_call_target(st.tx.action))).balance + st.tx.value
            < pow256(32),
    ensures
        ({
            let l2 = spec_execute(l, st, o).0;
            let sid = spec_to_account_id(spec_recover_signer(st)->0);
            let tid = spec_to_account_id(spec_call_target(st.tx.action));
            &&& ledger_get(l2, sid).balance + st.tx.value == ledger_get(l, sid).balance
            &&& ledger_get(l2, tid).balance == ledger_get(l, tid).balance + st.tx.value
        }),
{
    lemma_pow256_pos(32);
    let sender = spec_recover_signer(st)->0;
    let sid = spec_to_account_id(sender);
    let tid = spec_to_account_id(spec_call_target(st.tx.action));
    let acct = ledger_get(l, sid);
    lemma_small_mod(ledger_get(l, tid).balance + st.tx.value, pow256(32));
    assert(acct.balance >= st.tx.value + st.tx.max_fee_per_gas * st.tx.gas_limit);
    assert(st.tx.max_fee_per_gas * st.tx.gas_limit >= 0);
}

/// A created contract's address is determined by the sender and the
/// transaction's nonce alone, so it is independently reproducible.
pub proof fn lemma_create_address_deterministic(
    l: Map<Seq<u8>, AccountView>,
    st: SignedTxView,
    o: EvmOutcomeView,
)
    requires
        st.tx.action is Create,
        spec_execute(l, st, o).1 is Ok,
    ensures
        spec_execute(l, st, o).1->Ok_0.outcome == OutcomeView::CreatedContract(
            spec_contract_address(spec_recover_signer(st)->0, st.tx.nonce),
        ),
{
    lemma_pow256_pos(32);
}

/// Two creates from the same sender, processed one after the other, carry
/// successive nonces and so are assigned the contract addresses of those two
/// successive nonces.
pub proof fn lemma_successive_create_addresses(
    l: Map<Seq<u8>, AccountView>,
    st1: SignedTxView,
    o1: EvmOutcomeView,
    st2: SignedTxView,
    o2: EvmOutcomeView,
)
    requires
        st1.tx.action is Create,
        st2.tx.action is Create,
        spec_recover_signer(st1) is Some,
        spec_recover_signer(st1) == spec_recover_signer(st2),
        spec_execute(l, st1, o1).1 is Ok,
        spec_execute(spec_execute(l, st1, o1).0, st2, o2).1 is Ok,
    ensures
        spec_execute(l, st1, o1).1->Ok_0.outcome == OutcomeView::CreatedContract(
            spec_contract_address(spec_recover_signer(st1)->0, st1.tx.nonce),
        ),
        spec_execute(spec_execute(l, st1, o1).0, st2, o2).1->Ok_0.outcome
            == OutcomeView::CreatedContract(
            spec_contract_address(spec_recover_signer(st1)->0, st2.tx.nonce),
        ),
        st2.tx.nonce == (st1.tx.nonce + 1) % pow256(32),
{
    lemma_create_address_deterministic(l, st1, o1);
    lemma_create_address_deterministic(spec_execute(l, st1, o1).0, st2, o2);
    lemma_nonce_monotonic(l, st1, o1);
}

} // verus!
