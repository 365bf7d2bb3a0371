//! End-to-end transaction scenarios against the ledger.

use eth_core::address::{AccountId20, HashedAddressMapping};
use eth_core::executor::{
    contract_address, execute, EvmOutcome, EvmStatus, ExecError, ReceiptOutcome, ReceiptStatus,
};
use eth_core::genesis::{address_build, new_test_ext};
use eth_core::ledger::Account;
use eth_core::transaction::{TransactionAction, UnsignedTransaction};
use eth_core::u256::U256;

fn no_evm() -> EvmOutcome {
    EvmOutcome { status: EvmStatus::Succeeded, gas_used: U256::zero(), logs: vec![], output: vec![] }
}

fn transfer_tx(nonce: u64, to: AccountId20, value: u64) -> UnsignedTransaction {
    UnsignedTransaction {
        nonce: U256::from_u64(nonce),
        max_priority_fee_per_gas: U256::from_u64(1),
        max_fee_per_gas: U256::from_u64(1),
        gas_limit: U256::from_u64(0x100000),
        action: TransactionAction::Call(to),
        value: U256::from_u64(value),
        input: vec![],
    }
}

#[test]
fn test_account_init() {
    let (pairs, ledger) = new_test_ext(1).unwrap();
    let alice = &pairs[0];
    let account = ledger.get_account(&alice.account_id);
    assert_eq!(account.is_empty(), false);
    assert_eq!(account.balance, U256::max_value());
    assert_eq!(account.nonce, U256::from_u64(0));
}

#[test]
fn test_transfer() {
    let (pairs, mut ledger) = new_test_ext(1).unwrap();
    let alice = &pairs[0];
    let bob = address_build(2).unwrap();

    let alice_before = ledger.get_account(&alice.account_id);
    let transfer_amount = U256::from_u64(100);

    let tx = UnsignedTransaction {
        nonce: alice_before.nonce.dup(),
        max_priority_fee_per_gas: U256::from_u64(1),
        max_fee_per_gas: U256::from_u64(1),
        gas_limit: U256::from_u64(0x100000),
        action: TransactionAction::Call(bob.address.clone()),
        value: transfer_amount.dup(),
        input: vec![],
    };
    let tx_signed = tx.try_sign(&alice.private_key, Some(123u64)).unwrap();

    let receipt = execute(&mut ledger, &tx_signed, &no_evm()).unwrap();

    let bob_after = ledger.get_account(&bob.account_id);
    assert_eq!(bob_after.balance, transfer_amount);
    // Literal scenario: a fresh target receives 100, the sender's nonce
    // becomes 1, and the receipt reports success.
    let alice_after = ledger.get_account(&alice.account_id);
    assert_eq!(alice_after.nonce, U256::from_u64(1));
    assert_eq!(receipt.status, ReceiptStatus::Success);
}

#[test]
fn test_deploy_contract() {
    let (pairs, mut ledger) = new_test_ext(1).unwrap();
    let alice = &pairs[0];

    // Constructor-return runtime code: a strict subset of the deployment
    // bytecode, which prefixes the copy-and-return stub.
    let runtime_code: Vec<u8> =
        vec![0x60, 0x2a, 0x60, 0x00, 0x52, 0x60, 0x20, 0x60, 0x00, 0xf3];
    let mut deploy_bytecode: Vec<u8> =
        vec![0x60, 0x0a, 0x60, 0x0c, 0x60, 0x00, 0x39, 0x60, 0x0a, 0x60, 0x00, 0xf3];
    deploy_bytecode.extend_from_slice(&runtime_code);

    let tx = UnsignedTransaction {
        nonce: U256::from_u64(0),
        max_priority_fee_per_gas: U256::from_u64(1),
        max_fee_per_gas: U256::from_u64(1),
        gas_limit: U256::from_u64(0x100000),
        action: TransactionAction::Create,
        value: U256::from_u64(0),
        input: deploy_bytecode.clone(),
    };
    let tx_signed = tx.try_sign(&alice.private_key, Some(123u64)).unwrap();

    let constructor_reply = EvmOutcome {
        status: EvmStatus::Succeeded,
        gas_used: U256::from_u64(53000),
        logs: vec![],
        output: runtime_code.clone(),
    };
    let receipt = execute(&mut ledger, &tx_signed, &constructor_reply).unwrap();

    let created = match receipt.outcome {
        ReceiptOutcome::CreatedContract(a) => a,
        ReceiptOutcome::CallOutput(_) => {
            AccountId20::from_hex("1000000000000000000000000000000000000001").unwrap()
        }
    };
    assert_eq!(created, contract_address(&alice.address, &U256::from_u64(0)));

    let stored = ledger.get_account(&HashedAddressMapping::into_account_id(created)).code;
    // The stored code is the constructor's returned runtime code, not the
    // deployment bytecode it was carved from.
    assert_eq!(stored, runtime_code);
    assert_ne!(stored, deploy_bytecode);
}

#[test]
fn test_replayed_nonce_rejected() {
    let (pairs, mut ledger) = new_test_ext(1).unwrap();
    let alice = &pairs[0];
    let bob = address_build(2).unwrap();

    let tx = transfer_tx(0, bob.address.clone(), 100);
    let tx_signed = tx.try_sign(&alice.private_key, Some(123u64)).unwrap();

    assert!(execute(&mut ledger, &tx_signed, &no_evm()).is_ok());
    // The same signed transaction again: its nonce is stale now.
    let replay = execute(&mut ledger, &tx_signed, &no_evm());
    assert_eq!(replay.unwrap_err(), ExecError::NonceMismatch);
}

#[test]
fn test_nonce_mismatch_no_state_change() {
    // An account at nonce 3 receives a transaction carrying nonce 5.
    let (pairs, mut ledger) = new_test_ext(1).unwrap();
    let alice = &pairs[0];
    let bob = address_build(2).unwrap();
    ledger.set_account(
        alice.account_id.dup(),
        Account { balance: U256::max_value(), nonce: U256::from_u64(3), code: vec![] },
    );

    let tx = transfer_tx(5, bob.address.clone(), 100);
    let tx_signed = tx.try_sign(&alice.private_key, Some(123u64)).unwrap();
    let before = ledger.get_account(&alice.account_id);

    let res = execute(&mut ledger, &tx_signed, &no_evm());
    assert_eq!(res.unwrap_err(), ExecError::NonceMismatch);

    let after = ledger.get_account(&alice.account_id);
    assert_eq!(after, before);
    assert_eq!(after.nonce, U256::from_u64(3));
    assert!(ledger.get_account(&bob.account_id).is_empty());
}

#[test]
fn test_insufficient_funds_rejected() {
    let (pairs, mut ledger) = new_test_ext(1).unwrap();
    let alice = &pairs[0];
    let bob = address_build(2).unwrap();
    ledger.set_account(
        alice.account_id.dup(),
        Account { balance: U256::from_u64(50), nonce: U256::from_u64(0), code: vec![] },
    );

    let tx = transfer_tx(0, bob.address.clone(), 100);
    let tx_signed = tx.try_sign(&alice.private_key, Some(123u64)).unwrap();

    let res = execute(&mut ledger, &tx_signed, &no_evm());
    assert_eq!(res.unwrap_err(), ExecError::InsufficientFunds);
    assert_eq!(ledger.get_account(&alice.account_id).balance, U256::from_u64(50));
}

#[test]
fn test_balance_conservation_on_transfer() {
    let (pairs, mut ledger) = new_test_ext(1).unwrap();
    let alice = &pairs[0];
    let bob = address_build(2).unwrap();

    let before = ledger.get_account(&alice.account_id).balance;
    let tx = transfer_tx(0, bob.address.clone(), 100);
    let tx_signed = tx.try_sign(&alice.private_key, Some(123u64)).unwrap();
    execute(&mut ledger, &tx_signed, &no_evm()).unwrap();

    // No code at the target, so no gas is metered: the sender pays exactly
    // the value and the target gains exactly the value.
    let alice_after = ledger.get_account(&alice.account_id).balance;
    let bob_after = ledger.get_account(&bob.account_id).balance;
    let (reassembled, overflow) = alice_after.add_carry(&U256::from_u64(100));
    assert!(!overflow);
    assert_eq!(reassembled, before);
    assert_eq!(bob_after, U256::from_u64(100));
}

#[test]
fn test_call_with_code_folds_executor_reply() {
    let (pairs, mut ledger) = new_test_ext(1).unwrap();
    let alice = &pairs[0];
    let target = address_build(2).unwrap();
    ledger.set_account(
        target.account_id.dup(),
        Account { balance: U256::from_u64(0), nonce: U256::from_u64(0), code: vec![0x01] },
    );
    let before = ledger.get_account(&alice.account_id).balance;

    let tx = transfer_tx(0, target.address.clone(), 7);
    let tx_signed = tx.try_sign(&alice.private_key, Some(123u64)).unwrap();
    let reply = EvmOutcome {
        status: EvmStatus::Reverted,
        gas_used: U256::from_u64(21000),
        logs: vec![vec![1, 2, 3]],
        output: vec![0xde, 0xad],
    };
    let receipt = execute(&mut ledger, &tx_signed, &reply).unwrap();

    assert_eq!(receipt.status, ReceiptStatus::Reverted);
    assert_eq!(receipt.gas_used, U256::from_u64(21000));
    assert_eq!(receipt.logs, vec![vec![1, 2, 3]]);
    assert_eq!(receipt.outcome, ReceiptOutcome::CallOutput(vec![0xde, 0xad]));

    // Even on a revert the value moved, the fee was charged at
    // max_fee_per_gas for the gas used, and the nonce advanced.
    let alice_after = ledger.get_account(&alice.account_id);
    assert_eq!(alice_after.nonce, U256::from_u64(1));
    let expected = before.sub_val(&U256::from_u64(7)).sub_val(&U256::from_u64(21000));
    assert_eq!(alice_after.balance, expected);
    assert_eq!(ledger.get_account(&target.account_id).balance, U256::from_u64(7));
}

#[test]
fn test_create_reverted_stores_no_code_but_consumes_nonce() {
    let (pairs, mut ledger) = new_test_ext(1).unwrap();
    let alice = &pairs[0];

    let tx = UnsignedTransaction {
        nonce: U256::from_u64(0),
        max_priority_fee_per_gas: U256::from_u64(1),
        max_fee_per_gas: U256::from_u64(1),
        gas_limit: U256::from_u64(0x100000),
        action: TransactionAction::Create,
        value: U256::from_u64(5),
        input: vec![0x60, 0x00],
    };
    let tx_signed = tx.try_sign(&alice.private_key, Some(123u64)).unwrap();
    let reply = EvmOutcome {
        status: EvmStatus::Reverted,
        gas_used: U256::from_u64(1000),
        logs: vec![],
        output: vec![],
    };
    let receipt = execute(&mut ledger, &tx_signed, &reply).unwrap();

    assert_eq!(receipt.status, ReceiptStatus::Reverted);
    let created = match receipt.outcome {
        ReceiptOutcome::CreatedContract(a) => a,
        ReceiptOutcome::CallOutput(_) => panic!("create must report a contract address"),
    };
    let stored = ledger.get_account(&HashedAddressMapping::into_account_id(created));
    assert!(stored.is_empty());
    assert_eq!(ledger.get_account(&alice.account_id).nonce, U256::from_u64(1));
}

#[test]
fn test_successive_creates_distinct_addresses() {
    let (pairs, mut ledger) = new_test_ext(1).unwrap();
    let alice = &pairs[0];

    let mut created: Vec<AccountId20> = Vec::new();
    for nonce in 0..2u64 {
        let tx = UnsignedTransaction {
            nonce: U256::from_u64(nonce),
            max_priority_fee_per_gas: U256::from_u64(1),
            max_fee_per_gas: U256::from_u64(1),
            gas_limit: U256::from_u64(0x100000),
            action: TransactionAction::Create,
            value: U256::from_u64(0),
            input: vec![0x60, 0x00],
        };
        let tx_signed = tx.try_sign(&alice.private_key, Some(123u64)).unwrap();
        let reply = EvmOutcome {
            status: EvmStatus::Succeeded,
            gas_used: U256::from_u64(1000),
            logs: vec![],
            output: vec![0x00],
        };
        let receipt = execute(&mut ledger, &tx_signed, &reply).unwrap();
        match receipt.outcome {
            ReceiptOutcome::CreatedContract(a) => created.push(a),
            ReceiptOutcome::CallOutput(_) => panic!("create must report a contract address"),
        }
    }

    // Distinct, and each independently reproducible from (sender, nonce).
    assert_ne!(created[0], created[1]);
    assert_eq!(created[0], contract_address(&alice.address, &U256::from_u64(0)));
    assert_eq!(created[1], contract_address(&alice.address, &U256::from_u64(1)));
}
