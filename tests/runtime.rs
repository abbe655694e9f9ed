use minimal_runtime::executor::{DispatchError, ModuleError};
use minimal_runtime::extension::{pipeline, post_dispatch_order, Check, TxError};
use minimal_runtime::runtime::{
    header_digest, ApplyError, BlockError, Header, InherentData, Phase, Runtime,
};
use minimal_runtime::state::{AccountInfo, State};
use minimal_runtime::transaction::{Call, Era, FeePolicy, RuntimeConfig, Transaction};
use minimal_runtime::weight::Weight;

const ALICE: u64 = 1;
const BOB: u64 = 2;
const GENESIS: u64 = 77;

fn config() -> RuntimeConfig {
    RuntimeConfig {
        spec_version: 3,
        tx_version: 2,
        genesis_hash: GENESIS,
        max_block_weight: Weight { ref_time: 100_000, proof_size: 1_000 },
        weight_fee: FeePolicy { base: 0, per_unit: 1 },
        length_fee: FeePolicy { base: 0, per_unit: 1 },
        existential_deposit: 1,
    }
}

fn tx(sender: u64, nonce: u64, call: Call, ref_time: u64, length: u32) -> Transaction {
    Transaction {
        sender,
        nonce,
        call,
        era: Era::Immortal,
        spec_version: 3,
        tx_version: 2,
        genesis_hash: GENESIS,
        weight: Weight { ref_time, proof_size: 0 },
        length,
    }
}

fn building(accounts: &[(u64, u128)]) -> Runtime {
    let mut state = State::new();
    for (who, balance) in accounts {
        state.set_account(*who, AccountInfo { nonce: 0, balance: *balance });
    }
    let mut rt = Runtime::new(config(), state);
    rt.initialize_block(Header { number: 1, parent_hash: GENESIS, state_root: 0, extrinsics_root: 0 })
        .unwrap();
    rt
}

#[test]
fn accepted_transaction_pays_fee_and_advances_nonce() {
    let mut rt = building(&[(ALICE, 1000)]);
    let out = rt.apply_extrinsic(tx(ALICE, 0, Call::Remark, 10, 5)).unwrap();
    assert_eq!(out.fee, 15);
    assert_eq!(out.result, Ok(()));
    assert_eq!(rt.state.account(ALICE), AccountInfo { nonce: 1, balance: 985 });
    assert_eq!(rt.extrinsics.len(), 1);
    assert_eq!(rt.events.len(), 1);
}

#[test]
fn replayed_nonce_is_too_low_and_changes_nothing() {
    let mut rt = building(&[(ALICE, 1000)]);
    rt.apply_extrinsic(tx(ALICE, 0, Call::Remark, 10, 5)).unwrap();
    let consumed = rt.consumed;
    let r = rt.apply_extrinsic(tx(ALICE, 0, Call::Remark, 10, 5));
    assert_eq!(r, Err(ApplyError::Invalid(TxError::NonceTooLow)));
    assert_eq!(rt.state.account(ALICE), AccountInfo { nonce: 1, balance: 985 });
    assert_eq!(rt.consumed, consumed);
    assert_eq!(rt.extrinsics.len(), 1);
}

#[test]
fn unknown_account_is_rejected() {
    let mut rt = building(&[(ALICE, 1000)]);
    let r = rt.apply_extrinsic(tx(9, 1, Call::Remark, 10, 5));
    assert_eq!(r, Err(ApplyError::Invalid(TxError::NonceTooHigh)));
    let r = rt.apply_extrinsic(tx(9, 0, Call::Remark, 10, 5));
    assert_eq!(r, Err(ApplyError::Invalid(TxError::InsufficientBalance)));
    assert_eq!(rt.state.account(9), AccountInfo { nonce: 0, balance: 0 });
    assert!(rt.state.accounts.get(&9).is_none());
}

#[test]
fn nonces_rise_by_one_in_submission_order() {
    let mut rt = building(&[(ALICE, 1000)]);
    for n in 0..4u64 {
        rt.apply_extrinsic(tx(ALICE, n, Call::Remark, 10, 5)).unwrap();
        assert_eq!(rt.state.account(ALICE).nonce, n + 1);
    }
    let r = rt.apply_extrinsic(tx(ALICE, 6, Call::Remark, 10, 5));
    assert_eq!(r, Err(ApplyError::Invalid(TxError::NonceTooHigh)));
    assert_eq!(rt.state.account(ALICE).nonce, 4);
}

#[test]
fn rejection_leaves_balance_and_nonce() {
    let mut rt = building(&[(ALICE, 20)]);
    let r = rt.apply_extrinsic(tx(ALICE, 0, Call::Remark, 10, 10));
    assert_eq!(r, Err(ApplyError::Invalid(TxError::InsufficientBalance)));
    assert_eq!(rt.state.account(ALICE), AccountInfo { nonce: 0, balance: 20 });
    assert_eq!(rt.consumed, Weight { ref_time: 0, proof_size: 0 });
    assert!(rt.events.is_empty());
}

#[test]
fn each_check_rejects_with_its_reason() {
    let mut rt = building(&[(ALICE, 1000)]);
    let base = tx(ALICE, 0, Call::Remark, 10, 5);
    let cases = [
        (Transaction { sender: 0, ..base }, TxError::ZeroSender),
        (Transaction { spec_version: 4, ..base }, TxError::BadSpecVersion),
        (Transaction { tx_version: 1, ..base }, TxError::BadTxVersion),
        (Transaction { genesis_hash: 1, ..base }, TxError::BadGenesis),
        (Transaction { era: Era::Mortal { birth: 2, death: 9 }, ..base }, TxError::EraNotYetValid),
        (Transaction { era: Era::Mortal { birth: 0, death: 1 }, ..base }, TxError::EraExpired),
        (Transaction { nonce: 3, ..base }, TxError::NonceTooHigh),
        (
            Transaction { weight: Weight { ref_time: 100_001, proof_size: 0 }, ..base },
            TxError::ExhaustsResources,
        ),
        (
            Transaction { weight: Weight { ref_time: 10, proof_size: 1_001 }, ..base },
            TxError::ExhaustsResources,
        ),
        (Transaction { length: 990, ..base }, TxError::InsufficientBalance),
    ];
    for (t, e) in cases {
        assert_eq!(rt.apply_extrinsic(t), Err(ApplyError::Invalid(e)));
    }
    assert_eq!(rt.state.account(ALICE), AccountInfo { nonce: 0, balance: 1000 });
    let ok = Transaction { era: Era::Mortal { birth: 1, death: 2 }, ..base };
    assert!(rt.apply_extrinsic(ok).is_ok());
}

#[test]
fn checks_run_in_order() {
    let mut rt = building(&[(ALICE, 1000)]);
    let t = Transaction { sender: 0, spec_version: 9, nonce: 5, ..tx(ALICE, 0, Call::Remark, 10, 5) };
    assert_eq!(rt.apply_extrinsic(t), Err(ApplyError::Invalid(TxError::ZeroSender)));
    let t = Transaction { spec_version: 9, nonce: 5, ..tx(ALICE, 0, Call::Remark, 10, 5) };
    assert_eq!(rt.apply_extrinsic(t), Err(ApplyError::Invalid(TxError::BadSpecVersion)));
}

#[test]
fn exhausted_nonce_is_rejected() {
    let mut state = State::new();
    state.set_account(ALICE, AccountInfo { nonce: u64::MAX, balance: 1000 });
    let mut rt = Runtime::new(config(), state);
    rt.initialize_block(Header { number: 1, parent_hash: GENESIS, state_root: 0, extrinsics_root: 0 })
        .unwrap();
    let r = rt.apply_extrinsic(tx(ALICE, u64::MAX, Call::Remark, 10, 5));
    assert_eq!(r, Err(ApplyError::Invalid(TxError::NonceExhausted)));
}

#[test]
fn pipeline_order_is_data() {
    assert_eq!(
        pipeline(),
        vec![
            Check::NonZeroSender,
            Check::SpecVersion,
            Check::TxVersion,
            Check::Genesis,
            Check::Era,
            Check::Nonce,
            Check::Weight,
            Check::Payment,
            Check::WeightReclaim,
        ]
    );
    let post = post_dispatch_order();
    assert_eq!(post.len(), 9);
    assert_eq!(post[0], Check::Payment);
    assert_eq!(post[7], Check::NonZeroSender);
    assert_eq!(post[8], Check::WeightReclaim);
}

#[test]
fn block_weight_stays_within_budget() {
    let mut rt = building(&[(ALICE, 10_000_000)]);
    // each transfer declares 60_000 and consumes 50_000
    let t0 = tx(ALICE, 0, Call::Transfer { dest: BOB, amount: 10 }, 60_000, 1);
    let out = rt.apply_extrinsic(t0).unwrap();
    assert_eq!(out.weight, Weight { ref_time: 50_000, proof_size: 0 });
    assert_eq!(rt.consumed, Weight { ref_time: 50_000, proof_size: 0 });
    let t1 = tx(ALICE, 1, Call::Transfer { dest: BOB, amount: 10 }, 60_000, 1);
    assert_eq!(rt.apply_extrinsic(t1), Err(ApplyError::Invalid(TxError::ExhaustsResources)));
    assert_eq!(rt.consumed, Weight { ref_time: 50_000, proof_size: 0 });
    let t2 = tx(ALICE, 1, Call::Transfer { dest: BOB, amount: 10 }, 50_000, 1);
    rt.apply_extrinsic(t2).unwrap();
    assert_eq!(rt.consumed, Weight { ref_time: 100_000, proof_size: 0 });
    let total: u64 = rt.events.iter().map(|e| e.weight.ref_time).sum();
    assert!(total <= rt.config.max_block_weight.ref_time);
    assert_eq!(total, rt.consumed.ref_time);
}

#[test]
fn unused_declared_weight_is_reclaimed() {
    let mut rt = building(&[(ALICE, 1_000_000)]);
    let out = rt.apply_extrinsic(tx(ALICE, 0, Call::Remark, 90_000, 1)).unwrap();
    assert_eq!(out.weight.ref_time, 1_000);
    assert_eq!(rt.consumed.ref_time, 1_000);
}

#[test]
fn fee_is_weight_policy_plus_length_policy() {
    let mut state = State::new();
    state.set_account(ALICE, AccountInfo { nonce: 0, balance: 100_000 });
    let cfg = RuntimeConfig {
        weight_fee: FeePolicy { base: 7, per_unit: 3 },
        length_fee: FeePolicy { base: 11, per_unit: 2 },
        ..config()
    };
    let mut rt = Runtime::new(cfg, state);
    rt.initialize_block(Header { number: 1, parent_hash: GENESIS, state_root: 0, extrinsics_root: 0 })
        .unwrap();
    let out = rt.apply_extrinsic(tx(ALICE, 0, Call::Remark, 100, 20)).unwrap();
    assert_eq!(out.fee, 7 + 3 * 100 + 11 + 2 * 20);
    let again = rt.apply_extrinsic(tx(ALICE, 1, Call::DoSomething(4), 100, 20)).unwrap();
    assert_eq!(again.fee, out.fee);
    assert_eq!(rt.state.account(ALICE).balance, 100_000 - 2 * 358);
}

#[test]
fn transfer_moves_funds() {
    let mut rt = building(&[(ALICE, 100_000), (BOB, 5)]);
    let out = rt.apply_extrinsic(tx(ALICE, 0, Call::Transfer { dest: BOB, amount: 100 }, 50_000, 0)).unwrap();
    assert_eq!(out.result, Ok(()));
    assert_eq!(out.fee, 50_000);
    assert_eq!(rt.state.account(ALICE), AccountInfo { nonce: 1, balance: 49_900 });
    assert_eq!(rt.state.account(BOB), AccountInfo { nonce: 0, balance: 105 });
    let out = rt.apply_extrinsic(tx(ALICE, 1, Call::Transfer { dest: ALICE, amount: 100 }, 1_000, 0)).unwrap();
    assert_eq!(out.result, Ok(()));
    assert_eq!(rt.state.account(ALICE), AccountInfo { nonce: 2, balance: 48_900 });
}

#[test]
fn dispatch_failures_keep_fee_and_nonce() {
    let mut rt = building(&[(ALICE, 1000), (BOB, 500)]);
    let out = rt.apply_extrinsic(tx(ALICE, 0, Call::Transfer { dest: BOB, amount: 2000 }, 10, 5)).unwrap();
    assert_eq!(out.result, Err(DispatchError::Module(ModuleError::InsufficientBalance)));
    assert_eq!(rt.state.account(ALICE), AccountInfo { nonce: 1, balance: 985 });
    assert_eq!(rt.state.account(BOB).balance, 500);

    let out = rt.apply_extrinsic(tx(ALICE, 1, Call::Transfer { dest: BOB, amount: 975 }, 10, 0)).unwrap();
    assert_eq!(out.result, Err(DispatchError::Module(ModuleError::ExistentialDeposit)));

    let out = rt.apply_extrinsic(tx(ALICE, 2, Call::SetSudoKey(ALICE), 10, 0)).unwrap();
    assert_eq!(out.result, Err(DispatchError::BadOrigin));
    assert_eq!(rt.state.sudo_key, None);

    let out = rt.apply_extrinsic(tx(ALICE, 3, Call::Unknown(9), 10, 0)).unwrap();
    assert_eq!(out.result, Err(DispatchError::ModuleNotFound(9)));
    assert_eq!(out.weight.ref_time, 0);
    assert_eq!(rt.state.account(ALICE).nonce, 4);
    assert_eq!(rt.events.len(), 4);
    assert_eq!(rt.events[2].result, Err(DispatchError::BadOrigin));
}

#[test]
fn transfer_overflow_and_dust_are_refused() {
    let mut rt = building(&[(ALICE, 1000), (BOB, u128::MAX)]);
    let out = rt.apply_extrinsic(tx(ALICE, 0, Call::Transfer { dest: BOB, amount: 1 }, 10, 0)).unwrap();
    assert_eq!(out.result, Err(DispatchError::Module(ModuleError::BalanceOverflow)));
    let cfg = RuntimeConfig { existential_deposit: 50, ..config() };
    let mut state = State::new();
    state.set_account(ALICE, AccountInfo { nonce: 0, balance: 1000 });
    let mut rt = Runtime::new(cfg, state);
    rt.initialize_block(Header { number: 1, parent_hash: GENESIS, state_root: 0, extrinsics_root: 0 })
        .unwrap();
    let out = rt.apply_extrinsic(tx(ALICE, 0, Call::Transfer { dest: BOB, amount: 10 }, 10, 0)).unwrap();
    assert_eq!(out.result, Err(DispatchError::Module(ModuleError::ExistentialDeposit)));
    assert_eq!(rt.state.account(BOB).balance, 0);
}

#[test]
fn sudo_key_holder_can_hand_it_over() {
    let mut state = State::new();
    state.set_account(ALICE, AccountInfo { nonce: 0, balance: 1000 });
    state.sudo_key = Some(ALICE);
    let mut rt = Runtime::new(config(), state);
    rt.initialize_block(Header { number: 1, parent_hash: GENESIS, state_root: 0, extrinsics_root: 0 })
        .unwrap();
    let out = rt.apply_extrinsic(tx(ALICE, 0, Call::SetSudoKey(BOB), 10, 0)).unwrap();
    assert_eq!(out.result, Ok(()));
    assert_eq!(rt.state.sudo_key, Some(BOB));
    let out = rt.apply_extrinsic(tx(ALICE, 1, Call::DoSomething(42), 10, 0)).unwrap();
    assert_eq!(out.result, Ok(()));
    assert_eq!(rt.state.something, Some(42));
}

#[test]
fn lifecycle_misuse_is_trapped() {
    let mut rt = Runtime::new(config(), State::new());
    assert_eq!(rt.phase, Phase::Idle);
    assert_eq!(rt.apply_extrinsic(tx(ALICE, 0, Call::Remark, 10, 0)), Err(ApplyError::NotBuilding));
    assert_eq!(rt.finalize_block(), Err(BlockError::NotBuilding));
    let bad = Header { number: 2, parent_hash: GENESIS, state_root: 0, extrinsics_root: 0 };
    assert_eq!(rt.initialize_block(bad), Err(BlockError::BadParent));
    let bad = Header { number: 1, parent_hash: 5, state_root: 0, extrinsics_root: 0 };
    assert_eq!(rt.initialize_block(bad), Err(BlockError::BadParent));
    let h = Header { number: 1, parent_hash: GENESIS, state_root: 0, extrinsics_root: 0 };
    assert_eq!(rt.initialize_block(h), Ok(()));
    assert_eq!(rt.phase, Phase::Building);
    assert_eq!(rt.initialize_block(h), Err(BlockError::AlreadyBuilding));
    let fin = rt.finalize_block().unwrap();
    assert_eq!(rt.phase, Phase::Finalized);
    assert_eq!(fin.number, 1);
    assert_eq!(fin.extrinsics_root, 0);
    assert_eq!(rt.apply_extrinsic(tx(ALICE, 0, Call::Remark, 10, 0)), Err(ApplyError::NotBuilding));
    assert_eq!(rt.finalize_block(), Err(BlockError::NotBuilding));
}

#[test]
fn blocks_chain_through_their_headers() {
    let mut rt = building(&[(ALICE, 1000)]);
    rt.apply_extrinsic(tx(ALICE, 0, Call::Remark, 10, 5)).unwrap();
    let first = rt.finalize_block().unwrap();
    assert_eq!(first.extrinsics_root, 1);
    assert_eq!(first.state_root, 10);
    assert_eq!(rt.best_number, 1);
    assert_eq!(rt.best_hash, header_digest(&first));
    let next = Header { number: 2, parent_hash: header_digest(&first), state_root: 0, extrinsics_root: 0 };
    assert_eq!(rt.initialize_block(next), Ok(()));
    assert!(rt.extrinsics.is_empty());
    assert_eq!(rt.consumed, Weight { ref_time: 0, proof_size: 0 });
    rt.apply_extrinsic(tx(ALICE, 1, Call::Remark, 10, 5)).unwrap();
    assert_eq!(rt.state.account(ALICE), AccountInfo { nonce: 2, balance: 970 });
}

#[test]
fn header_digest_combines_fields() {
    let h = Header { number: 1, parent_hash: 2, state_root: 4, extrinsics_root: 8 };
    assert_eq!(header_digest(&h), 15);
}

#[test]
fn validation_reads_without_writing() {
    let mut state = State::new();
    state.set_account(ALICE, AccountInfo { nonce: 0, balance: 1000 });
    let rt = Runtime::new(config(), state);
    let t = Transaction { era: Era::Mortal { birth: 0, death: 5 }, ..tx(ALICE, 0, Call::Remark, 10, 5) };
    let v = rt.validate_transaction(&t).unwrap();
    assert_eq!(v.priority, 15);
    assert_eq!(v.longevity, 4);
    let v = rt.validate_transaction(&tx(ALICE, 0, Call::Remark, 10, 5)).unwrap();
    assert_eq!(v.longevity, u64::MAX);
    assert_eq!(rt.validate_transaction(&tx(ALICE, 1, Call::Remark, 10, 5)), Err(TxError::NonceTooHigh));
    assert_eq!(rt.state.account(ALICE), AccountInfo { nonce: 0, balance: 1000 });
}

#[test]
fn inherents() {
    let mut state = State::new();
    state.now = 100;
    let rt = Runtime::new(config(), state);
    assert!(rt.inherent_extrinsics(&InherentData { timestamp: Some(5) }).is_empty());
    assert_eq!(rt.check_inherents(&InherentData { timestamp: None }), Ok(()));
    assert_eq!(rt.check_inherents(&InherentData { timestamp: Some(100) }), Ok(()));
    assert_eq!(rt.check_inherents(&InherentData { timestamp: Some(99) }), Err(BlockError::InherentRejected));
}

#[test]
fn runtime_queries() {
    let mut rt = building(&[(ALICE, 1000)]);
    assert_eq!(rt.account_nonce(ALICE), 0);
    rt.apply_extrinsic(tx(ALICE, 0, Call::Remark, 10, 5)).unwrap();
    assert_eq!(rt.account_nonce(ALICE), 1);
    assert_eq!(rt.account_nonce(BOB), 0);
    assert_eq!(rt.query_weight_to_fee(&Weight { ref_time: 40, proof_size: 3 }), Some(40));
    assert_eq!(rt.query_length_to_fee(9), Some(9));
    let cfg = RuntimeConfig { weight_fee: FeePolicy { base: 1, per_unit: u128::MAX }, ..config() };
    let rt = Runtime::new(cfg, State::new());
    assert_eq!(rt.query_weight_to_fee(&Weight { ref_time: 2, proof_size: 0 }), None);
    assert_eq!(rt.query_weight_to_fee(&Weight { ref_time: 0, proof_size: 0 }), Some(1));
}

#[test]
fn execute_block_imports_whole_blocks() {
    let mut state = State::new();
    state.set_account(ALICE, AccountInfo { nonce: 0, balance: 1000 });
    let mut rt = Runtime::new(config(), state);
    let txs = vec![tx(ALICE, 0, Call::Remark, 10, 5), tx(ALICE, 1, Call::DoSomething(8), 10, 5)];
    let header = Header { number: 1, parent_hash: GENESIS, state_root: 20, extrinsics_root: 2 };
    assert_eq!(rt.execute_block(header, &txs), Ok(header));
    assert_eq!(rt.phase, Phase::Finalized);
    assert_eq!(rt.best_number, 1);
    assert_eq!(rt.best_hash, header_digest(&header));
    assert_eq!(rt.state.account(ALICE), AccountInfo { nonce: 2, balance: 970 });
    assert_eq!(rt.state.something, Some(8));
    assert_eq!(rt.extrinsics, txs);
}

#[test]
fn execute_block_is_all_or_nothing() {
    let mut state = State::new();
    state.set_account(ALICE, AccountInfo { nonce: 0, balance: 1000 });
    let mut rt = Runtime::new(config(), state);
    let bad = vec![tx(ALICE, 0, Call::Remark, 10, 5), tx(ALICE, 0, Call::Remark, 10, 5)];
    let header = Header { number: 1, parent_hash: GENESIS, state_root: 20, extrinsics_root: 2 };
    assert_eq!(rt.execute_block(header, &bad), Err(BlockError::InvalidTransaction));
    assert_eq!(rt.state.account(ALICE), AccountInfo { nonce: 0, balance: 1000 });
    assert_eq!(rt.phase, Phase::Idle);
    assert_eq!(rt.best_number, 0);
    let good = vec![tx(ALICE, 0, Call::Remark, 10, 5)];
    let wrong_root = Header { number: 1, parent_hash: GENESIS, state_root: 11, extrinsics_root: 1 };
    assert_eq!(rt.execute_block(wrong_root, &good), Err(BlockError::RootMismatch));
    assert_eq!(rt.state.account(ALICE), AccountInfo { nonce: 0, balance: 1000 });
    let wrong_parent = Header { number: 1, parent_hash: 1, state_root: 10, extrinsics_root: 1 };
    assert_eq!(rt.execute_block(wrong_parent, &good), Err(BlockError::BadParent));
    let ok = Header { number: 1, parent_hash: GENESIS, state_root: 10, extrinsics_root: 1 };
    assert_eq!(rt.execute_block(ok, &good), Ok(ok));
    rt.initialize_block(Header { number: 2, parent_hash: header_digest(&ok), state_root: 0, extrinsics_root: 0 })
        .unwrap();
    let next = Header { number: 3, parent_hash: 0, state_root: 0, extrinsics_root: 0 };
    assert_eq!(rt.execute_block(next, &vec![]), Err(BlockError::AlreadyBuilding));
}
