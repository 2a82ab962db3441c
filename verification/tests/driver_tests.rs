use evm_core::env::{BlockEnv, CfgEnv, Context, SpecId, TxEnv, TxKind};
use evm_core::handler::{init_frame, EvmHandler, EvmWiring, EthereumWiring, CALL_STACK_LIMIT};
use evm_core::frames::FrameResult;
use evm_core::interpreter::{CallInputs, FrameInput};
use evm_core::journal::JournaledState;
use evm_core::result::InstructionResult;
use evm_core::state::{AccountInfo, InMemoryDb};
use evm_core::word::{Address, U256};

fn test_context(db: InMemoryDb) -> Context {
    Context {
        journal: JournaledState::new(db),
        block: BlockEnv {
            number: 1,
            timestamp: 1_000,
            gas_limit: 30_000_000,
            basefee: 7,
            coinbase: Address::from_u64(0xC0),
            prevrandao: U256::zero(),
            blob_base_fee: 1,
        },
        tx: TxEnv {
            caller: Address::from_u64(0xCA),
            kind: TxKind::Call(Address::from_u64(0xAA)),
            value: U256::zero(),
            gas_limit: 200_000,
            gas_price: 10,
            max_priority_fee: None,
            data: Vec::new(),
            nonce: 0,
            chain_id: 1,
            blob_versioned_hashes: Vec::new(),
        },
        cfg: CfgEnv { spec_id: SpecId::London, chain_id: 1 },
    }
}

fn call_input(caller: Address, target: Address, gas_limit: u64) -> FrameInput {
    FrameInput::Call(CallInputs {
        caller,
        target_address: target,
        value: U256::zero(),
        input: Vec::new(),
        gas_limit,
        is_static: false,
        return_memory_start: 0,
        return_memory_len: 0,
    })
}

/// A simple store-and-stop program: writes 0x42 to slot 7, then stops.
fn store_code() -> Vec<u8> {
    vec![0x60, 0x42, 0x60, 0x07, 0x55, 0x00]
}

/// Writes 0x42 to slot 7, then reverts with empty output.
fn store_then_revert_code() -> Vec<u8> {
    vec![0x60, 0x42, 0x60, 0x07, 0x55, 0x60, 0x00, 0x60, 0x00, 0xFD]
}

/// Calls the account given as a 20-byte immediate, then writes 1 to slot 1
/// and stops.
fn call_then_store_code(callee: Address) -> Vec<u8> {
    let mut code = vec![
        0x60, 0x00, // out_len
        0x60, 0x00, // out_off
        0x60, 0x00, // in_len
        0x60, 0x00, // in_off
        0x60, 0x00, // value
        0x73, // PUSH20 callee
    ];
    let mut addr_bytes = [0u8; 20];
    let hi = callee.hi.to_be_bytes();
    let lo = callee.lo.to_be_bytes();
    addr_bytes[..4].copy_from_slice(&hi);
    addr_bytes[4..].copy_from_slice(&lo);
    code.extend_from_slice(&addr_bytes);
    code.extend_from_slice(&[
        0x61, 0xFF, 0xFF, // PUSH2 0xFFFF (requested gas)
        0xF1, // CALL
        0x50, // POP the success flag
        0x60, 0x01, 0x60, 0x01, 0x55, // store 1 at slot 1
        0x00, // STOP
    ]);
    code
}

fn account_with_code(code: Vec<u8>) -> AccountInfo {
    AccountInfo { nonce: 1, balance: U256::zero(), code }
}

#[test]
fn transaction_executes_bytecode_and_stores() {
    let target = Address::from_u64(0xDD);
    let mut db = InMemoryDb::new();
    db.insert_account(target, account_with_code(store_code()));
    let mut ctx = test_context(db);
    let handler = EthereumWiring::handler(SpecId::London);
    let result = handler.run_transaction(
        &mut ctx,
        call_input(Address::from_u64(0xCA), target, 100_000),
    );
    assert!(matches!(
        result.instruction_result(),
        InstructionResult::Stop
    ));
    let (v, _) = ctx.journal.sload(target, U256::from_u64(7));
    assert_eq!(v.lo, 0x42);
    assert!(result.gas().spent() > 0);
    assert_eq!(result.gas().spent() + result.gas().remaining(), 100_000);
}

#[test]
fn stack_overflow_halts_and_consumes_all_gas() {
    let target = Address::from_u64(0xEE);
    let mut code = Vec::new();
    for _ in 0..1025 {
        code.push(0x60);
        code.push(0x00);
    }
    let mut db = InMemoryDb::new();
    db.insert_account(target, account_with_code(code));
    let mut ctx = test_context(db);
    let handler = EthereumWiring::handler(SpecId::London);
    let result = handler.run_transaction(
        &mut ctx,
        call_input(Address::from_u64(0xCA), target, 50_000),
    );
    assert!(matches!(
        result.instruction_result(),
        InstructionResult::StackOverflow
    ));
    // A halt consumes the whole frame gas.
    assert_eq!(result.gas().remaining(), 0);
    assert_eq!(result.gas().spent(), 50_000);
}

#[test]
fn reverted_child_leaves_no_state_but_parent_continues() {
    let parent = Address::from_u64(0xAA);
    let child = Address::from_u64(0xBB);
    let mut db = InMemoryDb::new();
    db.insert_account(parent, account_with_code(call_then_store_code(child)));
    db.insert_account(child, account_with_code(store_then_revert_code()));
    let mut ctx = test_context(db);
    let handler = EthereumWiring::handler(SpecId::London);
    let result = handler.run_transaction(
        &mut ctx,
        call_input(Address::from_u64(0xCA), parent, 200_000),
    );
    assert!(matches!(
        result.instruction_result(),
        InstructionResult::Stop
    ));
    // The reverted child's write is gone; the parent's survived.
    let (child_slot, _) = ctx.journal.sload(child, U256::from_u64(7));
    assert_eq!(child_slot.lo, 0);
    let (parent_slot, _) = ctx.journal.sload(parent, U256::from_u64(1));
    assert_eq!(parent_slot.lo, 1);
    assert_eq!(ctx.journal.logs_len(), 0);
}

#[test]
fn jump_into_push_immediate_is_invalid() {
    let target = Address::from_u64(0xCC);
    // PUSH1 0x01; JUMP: target 1 is the 0x5B byte inside the PUSH immediate
    // at offset 0, so it is not a valid destination.
    let code = vec![0x60, 0x5B, 0x56];
    let mut db = InMemoryDb::new();
    db.insert_account(target, account_with_code(code));
    let mut ctx = test_context(db);
    let handler = EthereumWiring::handler(SpecId::London);
    let result = handler.run_transaction(
        &mut ctx,
        call_input(Address::from_u64(0xCA), target, 50_000),
    );
    assert!(matches!(
        result.instruction_result(),
        InstructionResult::InvalidJump
    ));
}

#[test]
fn depth_limit_refuses_with_all_gas_returned() {
    let db = InMemoryDb::new();
    let mut ctx = test_context(db);
    let r = init_frame(
        &mut ctx,
        SpecId::London,
        CALL_STACK_LIMIT,
        call_input(Address::from_u64(0x01), Address::from_u64(0x02), 9_000),
    );
    match r {
        Err(res) => {
            assert!(matches!(res.result, InstructionResult::CallTooDeep));
            assert_eq!(res.gas.remaining(), 9_000);
            assert_eq!(res.gas.limit(), 9_000);
        },
        Ok(_) => panic!("the depth limit must refuse the frame"),
    }
}

#[test]
fn create_collision_is_named() {
    let creator = Address::from_u64(0x11);
    let occupied = Address::from_u64(0x22);
    let mut db = InMemoryDb::new();
    db.insert_account(occupied, AccountInfo { nonce: 3, balance: U256::zero(), code: Vec::new() });
    let mut ctx = test_context(db);
    let r = init_frame(
        &mut ctx,
        SpecId::London,
        0,
        FrameInput::Create(evm_core::interpreter::CreateInputs {
            caller: creator,
            value: U256::zero(),
            init_code: vec![0x00],
            gas_limit: 60_000,
            created_address: occupied,
            salt: None,
        }),
    );
    match r {
        Err(res) => {
            assert!(matches!(res.result, InstructionResult::CreateCollision));
            assert_eq!(res.gas.remaining(), 0);
        },
        Ok(_) => panic!("an occupied address must collide"),
    }
}

#[test]
fn frame_result_accessors_expose_the_interpreter_result() {
    let target = Address::from_u64(0xDD);
    let mut db = InMemoryDb::new();
    db.insert_account(target, account_with_code(store_code()));
    let mut ctx = test_context(db);
    let handler = EthereumWiring::handler(SpecId::London);
    let mut result = handler.run_transaction(
        &mut ctx,
        call_input(Address::from_u64(0xCA), target, 100_000),
    );
    assert!(matches!(result, FrameResult::Call(_)));
    assert!(result.interpreter_result().is_ok());
    let g = result.gas_mut();
    assert_eq!(g.limit(), 100_000);
    let inner = result.into_interpreter_result();
    assert!(inner.is_ok());
}
