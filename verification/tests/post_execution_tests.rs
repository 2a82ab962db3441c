use evm_core::env::{BlockEnv, CfgEnv, Context, SpecId, TxEnv, TxKind};
use evm_core::frames::{CallOutcome, FrameResult};
use evm_core::gas::Gas;
use evm_core::handler::{clear, end, output, refund, reimburse_caller, ExecutionResult};
use evm_core::interpreter::InterpreterResult;
use evm_core::journal::JournaledState;
use evm_core::result::InstructionResult;
use evm_core::state::{AccountInfo, InMemoryDb};
use evm_core::word::{Address, U256};

fn small_context() -> Context {
    let mut db = InMemoryDb::new();
    db.insert_account(
        Address::from_u64(0xCA),
        AccountInfo { nonce: 1, balance: U256::from_u64(1_000_000), code: Vec::new() },
    );
    Context {
        journal: JournaledState::new(db),
        block: BlockEnv {
            number: 1,
            timestamp: 1_000,
            gas_limit: 30_000_000,
            basefee: 7,
            coinbase: Address::from_u64(0xC0),
            prevrandao: U256::zero(),
            blob_base_fee: 1,
        },
        tx: TxEnv {
            caller: Address::from_u64(0xCA),
            kind: TxKind::Call(Address::from_u64(0xAA)),
            value: U256::zero(),
            gas_limit: 100_000,
            gas_price: 10,
            max_priority_fee: None,
            data: Vec::new(),
            nonce: 1,
            chain_id: 1,
            blob_versioned_hashes: Vec::new(),
        },
        cfg: CfgEnv { spec_id: SpecId::London, chain_id: 1 },
    }
}

#[test]
fn refund_caps_the_accumulated_counter() {
    let mut ctx = small_context();
    ctx.journal.record_refund(19_900);
    let mut gas = Gas::new(100_000);
    assert!(gas.record_cost(40_000));
    refund(&mut ctx, &mut gas, 0);
    // London caps the refund at a fifth of the gas spent.
    assert_eq!(gas.refunded(), 8_000);
    assert_eq!(gas.remaining(), 60_000);
}

#[test]
fn output_reports_gas_and_rewards_the_beneficiary() {
    let ctx = small_context();
    let mut gas = Gas::new(100_000);
    assert!(gas.record_cost(50_000));
    gas.record_refund(5_000);
    let fr = FrameResult::Call(CallOutcome {
        result: InterpreterResult::new(InstructionResult::Stop, Vec::new(), gas),
        memory_start: 0,
        memory_len: 0,
    });
    let r = output(ctx, fr, false).unwrap();
    match r.result {
        ExecutionResult::Success { gas_used, gas_refunded, logs, .. } => {
            assert_eq!(gas_used, 45_000);
            assert_eq!(gas_refunded, 5_000);
            assert_eq!(logs.len(), 0);
        },
        _ => panic!("a stopped frame is a success"),
    }
    // effective price 10, minus basefee 7 under London: 3 per unit of the
    // 45_000 paid for.
    assert_eq!(r.rewards.lo, 3 * 45_000);
}

#[test]
fn reimburse_caller_credits_the_unspent_gas() {
    let ctx = small_context();
    let mut gas = Gas::new(100_000);
    assert!(gas.record_cost(40_000));
    gas.record_refund(2_000);
    let fr = FrameResult::Call(CallOutcome {
        result: InterpreterResult::new(InstructionResult::Stop, Vec::new(), gas),
        memory_start: 0,
        memory_len: 0,
    });
    let r = output(ctx, fr, true).unwrap();
    let mut state = r.state;
    reimburse_caller(&mut state, Address::from_u64(0xCA), 10, &gas);
    let found = state
        .accounts
        .iter()
        .find(|(a, _)| a.lo == 0xCA && a.hi == 0)
        .expect("the caller is in the final state");
    // 1_000_000 + 10 * (60_000 remaining + 2_000 refunded)
    assert_eq!(found.1.info.balance.lo, 1_000_000 + 620_000);
    assert!(found.1.touched);
}

#[test]
fn clear_resets_the_overlay_but_not_the_database() {
    let mut ctx = small_context();
    let a = Address::from_u64(0xCA);
    let _ = ctx.journal.load_account(a);
    let _cp = ctx.journal.checkpoint();
    clear(&mut ctx);
    let load = ctx.journal.load_account(a);
    assert!(load.is_cold);
    assert_eq!(load.balance.lo, 1_000_000);
    let out = end(
        &mut ctx,
        Err(evm_core::handler::EVMError::InvalidTransaction),
    );
    assert!(out.is_err());
}
