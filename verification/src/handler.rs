//! The transaction handler: the frame driver that runs nested calls over
//! one shared memory and one journal, and the post-execution steps that
//! settle gas and build the final result.
//!
//! The driver keeps the call stack within the 1024 depth limit (a verified
//! loop invariant), opens a journal checkpoint per frame, commits it on
//! success and reverts to it otherwise — so no state change or log of a
//! failed subtree reaches the final result.

use vstd::prelude::*;

use crate::bytecode::Bytecode;
use crate::env::{Context, SpecId, TxEnv};
use crate::frames::{CallOutcome, CreateOutcome, Frame, FrameResult, Output};
use crate::gas::Gas;
use crate::interpreter::{
    spec_frame_input_gas, spec_instr_frame, CallInputs, CreateInputs, EthInstructionProvider,
    FrameInput, InputsImpl, InterpreterAction, InterpreterResult, NewInterpreter,
};
use crate::journal::{JournalCheckpoint, JournaledState, StateChanges, TransferError};
use crate::memory::SharedMemory;
use crate::result::{
    spec_success_or_halt, success_or_halt, HaltReason, InstructionResult, SuccessOrHalt,
    SuccessReason,
};
use crate::state::{AccountInfo, CachedAccount, Log, StateView};
use crate::word::{mul_u128_u64, Address, U256};

verus! {

/// The depth limit of the call stack.
pub const CALL_STACK_LIMIT: usize = 1024;

/// The EIP-170 limit on deployed code.
pub const MAX_CODE_SIZE: usize = 24576;

/// The EIP-3860 limit on init code (Shanghai on).
pub const MAX_INITCODE_SIZE: usize = 49152;

/// Errors that abort a transaction outside the interpreter.
#[derive(Clone, Copy, PartialEq, Eq, Structural, Debug)]
pub enum EVMError {
    /// The backing database failed.
    Database,
    /// The transaction was rejected before execution.
    InvalidTransaction,
}

/// The transaction-level result.
pub enum ExecutionResult {
    Success {
        reason: SuccessReason,
        gas_used: u64,
        gas_refunded: u64,
        logs: Vec<Log>,
        output: Output,
    },
    Revert { gas_used: u64, output: Vec<u8> },
    Halt { reason: HaltReason, gas_used: u64 },
}

/// The result of a transaction together with the touched state.
pub struct ResultAndState {
    pub result: ExecutionResult,
    pub state: StateChanges,
    /// The beneficiary's fee, also applied to `state` unless rewarding was
    /// deferred.
    pub rewards: U256,
}

/// A configured handler: everything the driver needs that depends on the
/// hardfork.
pub struct EvmHandler {
    pub spec_id: SpecId,
}

/// A wiring picks the handler for a hardfork; the one extension point the
/// engine keeps.
pub trait EvmWiring {
    /// Creates a new handler with the given hardfork.
    fn handler(hardfork: SpecId) -> (r: EvmHandler)
        ensures
            r.spec_id == hardfork,
    ;
}

/// The mainnet wiring.
pub struct EthereumWiring {
    pub mainnet: bool,
}

impl EvmWiring for EthereumWiring {
    fn handler(hardfork: SpecId) -> (r: EvmHandler) {
        EvmHandler { spec_id: hardfork }
    }
}

/// The end handle does not change the output.
pub fn end(ctx: &mut Context, evm_output: Result<ResultAndState, EVMError>) -> (r: Result<
    ResultAndState,
    EVMError,
>)
    ensures
        r == evm_output,
        *final(ctx) == *old(ctx),
{
    evm_output
}

/// Clear the journaled state, for reuse after a failed transaction.
pub fn clear(ctx: &mut Context)
    requires
        old(ctx).wf(),
    ensures
        final(ctx).wf(),
        final(ctx).journal.journal@.len() == 0,
        final(ctx).journal.marks@.len() == 0,
        final(ctx).journal.refund == 0,
        final(ctx).journal.logs@.len() == 0,
        final(ctx).journal.db == old(ctx).journal.db,
        forall|a: Address|
            #[trigger] final(ctx).journal.view_state().accounts[a] == old(
                ctx,
            ).journal.db.spec_account(a),
        forall|p: (Address, U256)|
            #[trigger] final(ctx).journal.view_state().storage[p] == old(
                ctx,
            ).journal.db.spec_storage(p.0, p.1),
        forall|p: (Address, U256)| #[trigger] final(ctx).journal.view_state().transient[p] == 0,
        final(ctx).journal.view_state().warm_accounts == Set::<Address>::empty(),
        final(ctx).journal.view_state().warm_slots == Set::<(Address, U256)>::empty(),
        final(ctx).block == old(ctx).block,
        final(ctx).tx == old(ctx).tx,
        final(ctx).cfg == old(ctx).cfg,
{
    ctx.journal.clear();
}


/// The refund the meter accumulates before the cap: its own counter, the
/// journaled counter, and the outside adjustment, each folded in with
/// saturation at the i64 range.
pub open spec fn spec_accumulated_refund(meter: i64, journaled: i64, adjustment: i64) -> i64 {
    crate::journal::spec_sat_add_i64(
        crate::journal::spec_sat_add_i64(meter as int, journaled as int),
        adjustment as int,
    ) as i64
}

/// Settle the refund: fold the journaled refund counter and any outside
/// adjustment into the meter, then cap it (a fifth of the gas spent from
/// London on, half before).
pub fn refund(ctx: &mut Context, gas: &mut Gas, eip7702_refund: i64)
    requires
        old(ctx).wf(),
        old(gas).wf(),
    ensures
        *final(ctx) == *old(ctx),
        final(gas).wf(),
        final(gas).limit == old(gas).limit,
        final(gas).remaining == old(gas).remaining,
        final(gas).refunded == crate::gas::spec_capped_refund(
            spec_accumulated_refund(old(gas).refunded, old(ctx).journal.refund, eip7702_refund),
            old(gas).spec_spent(),
            crate::env::spec_fork_rank(old(ctx).cfg.spec_id) >= crate::env::spec_fork_rank(
                SpecId::London,
            ),
        ),
        0 <= final(gas).refunded,
        final(gas).refunded <= old(gas).spec_spent() as int / (if crate::env::spec_fork_rank(
            old(ctx).cfg.spec_id,
        ) >= crate::env::spec_fork_rank(SpecId::London) {
            5int
        } else {
            2int
        }),
{
    gas_record_refund_saturating(gas, ctx.journal.refund);
    gas_record_refund_saturating(gas, eip7702_refund);
    let is_london = ctx.cfg.spec_id.is_enabled_in(SpecId::London);
    gas.set_final_refund(is_london);
}

/// Adjust a meter's refund counter, clamping at the i64 range.
fn gas_record_refund_saturating(gas: &mut Gas, delta: i64)
    requires
        old(gas).wf(),
    ensures
        final(gas).wf(),
        final(gas).limit == old(gas).limit,
        final(gas).remaining == old(gas).remaining,
        final(gas).refunded == crate::journal::spec_sat_add_i64(
            old(gas).refunded as int,
            delta as int,
        ),
{
    let sum: i64 = if delta >= 0 {
        if gas.refunded <= i64::MAX - delta {
            gas.refunded + delta
        } else {
            i64::MAX
        }
    } else {
        if gas.refunded >= i64::MIN - delta {
            gas.refunded + delta
        } else {
            i64::MIN
        }
    };
    let remaining = gas.remaining;
    let limit = gas.limit;
    *gas = Gas { limit, remaining, refunded: sum };
}


/// The account visible in the final state changes: the cache entry, else
/// the database account.
pub open spec fn spec_changed_account(state: StateChanges, a: Address) -> crate::state::AccountView {
    match crate::assoc::spec_lookup(state.accounts@, a) {
        Some(c) => c@,
        None => state.db.spec_account(a),
    }
}

/// A balance after a saturating credit.
pub open spec fn spec_credited(balance: nat, amount: nat) -> nat {
    if balance + amount < crate::word::pow256() {
        (balance + amount) as nat
    } else {
        (crate::word::pow256() - 1) as nat
    }
}

/// Add to an account's balance in the final state changes, saturating at
/// the largest word; loads the account from the database on first touch.
fn state_add_balance(state: &mut StateChanges, a: Address, amount: U256)
    requires
        crate::assoc::spec_unique_keys(old(state).accounts@),
        old(state).db.wf(),
    ensures
        crate::assoc::spec_unique_keys(final(state).accounts@),
        final(state).storage == old(state).storage,
        final(state).logs == old(state).logs,
        final(state).db == old(state).db,
        spec_changed_account(*final(state), a).balance == spec_credited(
            spec_changed_account(*old(state), a).balance,
            amount.as_nat(),
        ),
        spec_changed_account(*final(state), a).touched,
        spec_changed_account(*final(state), a).nonce == spec_changed_account(*old(state), a).nonce,
        spec_changed_account(*final(state), a).code == spec_changed_account(*old(state), a).code,
        forall|b: Address|
            b != a ==> #[trigger] spec_changed_account(*final(state), b) == spec_changed_account(
                *old(state),
                b,
            ),
{
    let idx = crate::state::find_account_index(&state.accounts, &a);
    match idx {
        Some(i) => {
            proof {
                crate::assoc::lemma_lookup_index(state.accounts@, i as int);
            }
            let acc = &state.accounts[i].1;
            let new_acc = CachedAccount {
                info: AccountInfo {
                    nonce: acc.info.nonce,
                    balance: acc.info.balance.saturating_add(&amount),
                    code: crate::state::clone_bytes(&acc.info.code),
                },
                created: acc.created,
                destroyed: acc.destroyed,
                touched: true,
            };
            proof {
                assert forall|b: Address| #[trigger] crate::assoc::spec_lookup(
                    state.accounts@.update(i as int, (a, new_acc)),
                    b,
                ) == (if b == a {
                    Some(new_acc)
                } else {
                    crate::assoc::spec_lookup(state.accounts@, b)
                }) by {
                    crate::assoc::lemma_lookup_update(state.accounts@, i as int, new_acc, b);
                }
                crate::assoc::lemma_lookup_update(state.accounts@, i as int, new_acc, a);
            }
            state.accounts.set(i, (a, new_acc));
        },
        None => {
            proof {
                crate::assoc::lemma_lookup_absent(state.accounts@, a);
            }
            let dbi = load_db_account_info(&state.db, &a);
            let new_acc = CachedAccount {
                info: AccountInfo {
                    nonce: dbi.nonce,
                    balance: dbi.balance.saturating_add(&amount),
                    code: dbi.code,
                },
                created: false,
                destroyed: false,
                touched: true,
            };
            proof {
                assert forall|b: Address| #[trigger] crate::assoc::spec_lookup(
                    state.accounts@.push((a, new_acc)),
                    b,
                ) == (if b == a {
                    Some(new_acc)
                } else {
                    crate::assoc::spec_lookup(state.accounts@, b)
                }) by {
                    crate::assoc::lemma_lookup_push(state.accounts@, a, new_acc, b);
                }
                crate::assoc::lemma_lookup_push(state.accounts@, a, new_acc, a);
            }
            state.accounts.push((a, new_acc));
        },
    }
}

/// Read an account's stored fields from the database.
fn load_db_account_info(db: &crate::state::InMemoryDb, a: &Address) -> (r: AccountInfo)
    requires
        db.wf(),
    ensures
        r.nonce == db.spec_account(*a).nonce,
        r.balance.as_nat() == db.spec_account(*a).balance,
        r.code@ == db.spec_account(*a).code,
{
    let idx = crate::state::find_account_index(&db.accounts, a);
    match idx {
        Some(i) => {
            proof {
                crate::assoc::lemma_lookup_index(db.accounts@, i as int);
            }
            crate::state::clone_account_info(&db.accounts[i].1)
        },
        None => {
            proof {
                crate::assoc::lemma_lookup_absent(db.accounts@, *a);
            }
            AccountInfo { nonce: 0, balance: U256::zero(), code: Vec::new() }
        },
    }
}

/// The beneficiary's fee: the effective gas price (minus the burned base
/// fee from London on) times the gas paid for.
pub fn reward(spec_id: SpecId, tx: &TxEnv, basefee: u128, gas: &Gas) -> (r: U256)
    requires
        gas.wf(),
        0 <= gas.refunded <= gas.spec_spent(),
    ensures
        r.as_nat() == spec_reward(spec_id, tx.gas_price, tx.max_priority_fee, basefee, *gas),
{
    let effective = tx.effective_gas_price(basefee);
    let coinbase_price: u128 = if spec_id.is_enabled_in(SpecId::London) {
        if effective >= basefee {
            effective - basefee
        } else {
            0
        }
    } else {
        effective
    };
    let paid = gas.spent() - (gas.refunded() as u64);
    mul_u128_u64(coinbase_price, paid)
}

/// The fee the beneficiary earns.
pub open spec fn spec_reward(
    spec_id: SpecId,
    gas_price: u128,
    max_priority_fee: Option<u128>,
    basefee: u128,
    gas: Gas,
) -> nat {
    let effective = crate::env::spec_effective_gas_price(gas_price, max_priority_fee, basefee);
    let coinbase_price: int = if crate::env::spec_fork_rank(spec_id) >= crate::env::spec_fork_rank(
        SpecId::London,
    ) {
        if effective >= basefee {
            effective - basefee
        } else {
            0
        }
    } else {
        effective
    };
    (coinbase_price * (gas.spec_spent() - gas.refunded)) as nat
}

/// Credit the block's beneficiary in the final state.
pub fn reward_beneficiary(state: &mut StateChanges, beneficiary: Address, rewards: U256)
    requires
        crate::assoc::spec_unique_keys(old(state).accounts@),
        old(state).db.wf(),
    ensures
        crate::assoc::spec_unique_keys(final(state).accounts@),
        final(state).storage == old(state).storage,
        final(state).logs == old(state).logs,
        final(state).db == old(state).db,
        spec_changed_account(*final(state), beneficiary).balance == spec_credited(
            spec_changed_account(*old(state), beneficiary).balance,
            rewards.as_nat(),
        ),
        spec_changed_account(*final(state), beneficiary).touched,
        forall|b: Address|
            b != beneficiary ==> #[trigger] spec_changed_account(*final(state), b)
                == spec_changed_account(*old(state), b),
{
    state_add_balance(state, beneficiary, rewards);
}

/// Return the value of the unspent and refunded gas to the caller, in the
/// final state.
pub fn reimburse_caller(
    state: &mut StateChanges,
    caller: Address,
    effective_gas_price: u128,
    gas: &Gas,
)
    requires
        crate::assoc::spec_unique_keys(old(state).accounts@),
        old(state).db.wf(),
        gas.wf(),
        0 <= gas.refunded,
        gas.remaining + gas.refunded <= u64::MAX,
    ensures
        crate::assoc::spec_unique_keys(final(state).accounts@),
        final(state).storage == old(state).storage,
        final(state).logs == old(state).logs,
        final(state).db == old(state).db,
        spec_changed_account(*final(state), caller).balance == spec_credited(
            spec_changed_account(*old(state), caller).balance,
            (effective_gas_price * (gas.remaining + gas.refunded)) as nat,
        ),
        spec_changed_account(*final(state), caller).touched,
        forall|b: Address|
            b != caller ==> #[trigger] spec_changed_account(*final(state), b)
                == spec_changed_account(*old(state), b),
{
    let back = gas.remaining() + (gas.refunded() as u64);
    let amount = mul_u128_u64(effective_gas_price, back);
    state_add_balance(state, caller, amount);
}

/// Build the transaction's result: settle the beneficiary's reward, read
/// the gas accounting off the frame result, and fold the journal into the
/// final state changes.
pub fn output(ctx: Context, result: FrameResult, lazy_reward: bool) -> (r: Result<
    ResultAndState,
    EVMError,
>)
    requires
        ctx.wf(),
        result.spec_interpreter_result().gas.wf(),
        0 <= result.spec_interpreter_result().gas.refunded
            <= result.spec_interpreter_result().gas.spec_spent(),
        !(result.spec_interpreter_result().result matches InstructionResult::Continue),
        !(result.spec_interpreter_result().result matches InstructionResult::CallOrCreate),
        !(result.spec_interpreter_result().result matches InstructionResult::FatalExternalError),
    ensures
        r is Ok,
        ({
            let rs = r->Ok_0;
            let ir = result.spec_interpreter_result();
            let used = ir.gas.spec_spent() - ir.gas.refunded;
            &&& ir.result.spec_is_ok() ==> (rs.result matches ExecutionResult::Success {
                reason,
                gas_used,
                gas_refunded,
                logs,
                output,
            } && gas_used == used && gas_refunded == ir.gas.refunded && logs == ctx.journal.logs
                && output.spec_data() == ir.output@ && spec_success_or_halt(ir.result)
                == SuccessOrHalt::Success(reason))
            &&& ir.result.spec_is_revert() ==> (rs.result matches ExecutionResult::Revert {
                gas_used,
                output,
            } && gas_used == used && output@ == ir.output@)
            &&& ir.result.spec_is_error() ==> (rs.result matches ExecutionResult::Halt {
                reason,
                gas_used,
            } && gas_used == used && spec_success_or_halt(ir.result) == SuccessOrHalt::Halt(reason))
            &&& rs.state.storage == ctx.journal.storage
            &&& rs.state.db == ctx.journal.db
            &&& rs.state.logs@.len() == 0
            &&& lazy_reward ==> rs.state.accounts == ctx.journal.accounts
            &&& !lazy_reward ==> (spec_changed_account(rs.state, ctx.block.coinbase).balance
                == spec_credited(
                ctx.journal.spec_account(ctx.block.coinbase).balance,
                rs.rewards.as_nat(),
            ) && (forall|b: Address|
                b != ctx.block.coinbase ==> #[trigger] spec_changed_account(rs.state, b)
                    == ctx.journal.spec_account(b)))
            &&& rs.rewards.as_nat() == spec_reward(
                ctx.cfg.spec_id,
                ctx.tx.gas_price,
                ctx.tx.max_priority_fee,
                ctx.block.basefee,
                ir.gas,
            )
        }),
{
    let rewards = reward(ctx.cfg.spec_id, &ctx.tx, ctx.block.basefee, result.gas());
    let gas_refunded = result.gas().refunded() as u64;
    let final_gas_used = result.gas().spent() - gas_refunded;
    let out = result.output();
    let beneficiary = ctx.block.coinbase;
    let instruction_result = result.into_interpreter_result();
    let ghost j0 = ctx.journal;
    proof {
        crate::journal::lemma_wf_facts(ctx.journal);
    }
    let mut state = ctx.journal.finalize();
    let ghost s0 = state;
    proof {
        assert forall|b: Address| #[trigger] spec_changed_account(state, b) == j0.spec_account(
            b,
        ) by {}
    }
    proof {
        crate::assoc::lemma_lookup_absent(Seq::<(Address, CachedAccount)>::empty(), beneficiary);
    }
    if !lazy_reward {
        reward_beneficiary(&mut state, beneficiary, rewards);
    }
    let ghost s1 = state;
    let logs = take_logs(&mut state);
    proof {
        if !lazy_reward {
            assert forall|b: Address| b != beneficiary implies #[trigger] spec_changed_account(
                state,
                b,
            ) == j0.spec_account(b) by {
                assert(spec_changed_account(state, b) == spec_changed_account(s1, b));
                assert(spec_changed_account(s1, b) == spec_changed_account(s0, b));
                assert(spec_changed_account(s0, b) == j0.spec_account(b));
            }
            assert(spec_changed_account(state, beneficiary) == spec_changed_account(
                s1,
                beneficiary,
            ));
            assert(spec_changed_account(s0, beneficiary) == j0.spec_account(beneficiary));
        }
    }
    let exec_result: ExecutionResult = match success_or_halt(instruction_result.result) {
        SuccessOrHalt::Success(reason) => ExecutionResult::Success {
            reason,
            gas_used: final_gas_used,
            gas_refunded,
            logs,
            output: out,
        },
        SuccessOrHalt::Revert => ExecutionResult::Revert {
            gas_used: final_gas_used,
            output: out.into_data(),
        },
        SuccessOrHalt::Halt(reason) => ExecutionResult::Halt { reason, gas_used: final_gas_used },
        SuccessOrHalt::FatalExternalError => {
            proof {
                assert(false);
            }
            return Err(EVMError::Database);
        },
        SuccessOrHalt::Internal => {
            proof {
                assert(false);
            }
            return Err(EVMError::Database);
        },
    };
    Ok(ResultAndState { result: exec_result, state, rewards })
}

/// The sum of the remaining gas of a stack of suspended frames.
pub open spec fn spec_frames_gas(s: Seq<Frame>) -> int
    decreases s.len(),
{
    if s.len() == 0 {
        0
    } else {
        spec_frames_gas(s.drop_last())
            + s.last().spec_frame_data().interpreter.control.gas.remaining
    }
}

proof fn lemma_frames_gas_push(s: Seq<Frame>, f: Frame)
    ensures
        spec_frames_gas(s.push(f)) == spec_frames_gas(s)
            + f.spec_frame_data().interpreter.control.gas.remaining,
{
    assert(s.push(f).drop_last() =~= s);
}

/// A suspended child was granted less gas than its parent has spent, so the
/// parent can absorb whatever the child returns.
pub open spec fn spec_gas_rel(parent: Frame, child_limit: u64) -> bool {
    child_limit + parent.spec_frame_data().interpreter.control.gas.remaining
        < parent.spec_frame_data().interpreter.control.gas.limit
}

/// The well-formedness of the frame stack, from the innermost frame out:
/// the current interpreter is well-formed, its checkpoint is the one at its
/// depth, every suspended parent is well-formed in the same way, and each
/// parent can absorb its own child's gas.
#[verifier::opaque]
pub open spec fn spec_stack_wf(s: Seq<Frame>, current: Frame, j: JournaledState) -> bool
    decreases s.len(),
{
    &&& current.spec_frame_data().interpreter.wf()
    &&& current.spec_frame_data().checkpoint.depth == s.len() + 1
    &&& j.valid_checkpoint(current.spec_frame_data().checkpoint)
    &&& if s.len() == 0 {
        true
    } else {
        spec_gas_rel(s.last(), current.spec_frame_data().interpreter.control.gas.limit)
            && spec_stack_wf(s.drop_last(), s.last(), j)
    }
}

/// Move the logs out of the state changes.
fn take_logs(state: &mut StateChanges) -> (r: Vec<Log>)
    ensures
        r == old(state).logs,
        final(state).accounts == old(state).accounts,
        final(state).storage == old(state).storage,
        final(state).db == old(state).db,
        final(state).logs@.len() == 0,
{
    let mut logs: Vec<Log> = Vec::new();
    core::mem::swap(&mut logs, &mut state.logs);
    logs
}



/// Open a call frame: checkpoint, touch the recipient, move the value, and
/// build the interpreter over the recipient's code. On failure the
/// checkpoint is reverted and a synthetic result returns the child's gas.
pub fn open_call_frame(ctx: &mut Context, spec_id: SpecId, ci: CallInputs) -> (r: Result<
    (JournalCheckpoint, NewInterpreter),
    InterpreterResult,
>)
    requires
        old(ctx).wf(),
        old(ctx).journal.marks@.len() < usize::MAX,
    ensures
        final(ctx).wf(),
        final(ctx).block == old(ctx).block,
        final(ctx).tx == old(ctx).tx,
        final(ctx).cfg == old(ctx).cfg,
        final(ctx).journal.marks@.len() >= old(ctx).journal.marks@.len() || final(ctx).journal.marks@.len() + 1 == old(ctx).journal.marks@.len(),
        forall|i: int|
            0 <= i < old(ctx).journal.marks@.len() && i < final(ctx).journal.marks@.len()
                ==> #[trigger] final(ctx).journal.marks@[i] == old(ctx).journal.marks@[i],
        (r is Err) == spec_call_open_fails(old(ctx).journal.view_state(), ci),
        r matches Ok(p) ==> (final(ctx).journal.marks@.len() == old(ctx).journal.marks@.len() + 1
            && p.0.depth == old(ctx).journal.marks@.len() + 1 && final(ctx).journal.valid_checkpoint(p.0) && p.1.wf() && p.1.control.gas.limit == ci.gas_limit
            && p.1.control.gas.remaining == ci.gas_limit && p.1.input.caller == ci.caller
            && p.1.input.target_address == ci.target_address && p.1.input.value == ci.value
            && p.1.input.call_data@ == ci.input@ && p.1.runtime_flag.is_static == ci.is_static
            && p.1.runtime_flag.spec_id == spec_id && p.1.bytecode.base.code@ == old(ctx).journal.view_state().accounts[ci.target_address].code
            && (ci.caller != ci.target_address ==> (final(ctx).journal.view_state().accounts[ci.caller].balance
                == old(ctx).journal.view_state().accounts[ci.caller].balance - ci.value.as_nat()
                && final(ctx).journal.view_state().accounts[ci.target_address].balance
                == old(ctx).journal.view_state().accounts[ci.target_address].balance + ci.value.as_nat()))
            && final(ctx).journal.view_state().accounts[ci.target_address].touched),
        r matches Err(res) ==> (final(ctx).journal.marks@ == old(ctx).journal.marks@
            && final(ctx).journal.view_state() == old(ctx).journal.view_state()
            && res.result == InstructionResult::OutOfFunds && res.gas.wf()
            && res.gas.limit == ci.gas_limit && res.gas.remaining == ci.gas_limit
            && res.gas.refunded == 0 && res.output@ == Seq::<u8>::empty()),
{
    proof {
        crate::journal::lemma_wf_facts(old(ctx).journal);
    }
    let ghost pre_j = ctx.journal;
    let cp = ctx.journal.checkpoint();
    let ghost cp_j = ctx.journal;
    ctx.journal.touch(ci.target_address);
    let ghost touched_j = ctx.journal;
    proof {
        // Touching only flips the touched flag: balances are unchanged.
        assert(touched_j.view_state().accounts[ci.caller].balance
            == pre_j.view_state().accounts[ci.caller].balance);
        assert(touched_j.view_state().accounts[ci.target_address].balance
            == pre_j.view_state().accounts[ci.target_address].balance);
    }
    match ctx.journal.transfer(ci.caller, ci.target_address, ci.value) {
        Some(_e) => {
            ctx.journal.revert_to(cp);
            let gas = Gas::new(ci.gas_limit);
            proof {
                assert(ctx.journal.marks@ =~= old(ctx).journal.marks@);
                assert(ctx.journal.view_state() == pre_j.view_state());
                assert(spec_call_open_fails(pre_j.view_state(), ci));
            }
            Err(InterpreterResult {
                result: InstructionResult::OutOfFunds,
                output: Vec::new(),
                gas,
            })
        },
        None => {
            proof {
                assert(!spec_call_open_fails(pre_j.view_state(), ci));
            }
            let code = ctx.journal.load_code(ci.target_address);
            let bytecode = Bytecode::analyze(code);
            let interp = NewInterpreter::new(
                bytecode,
                InputsImpl {
                    caller: ci.caller,
                    target_address: ci.target_address,
                    value: ci.value,
                    call_data: ci.input,
                },
                ci.is_static,
                false,
                spec_id,
                ci.gas_limit,
            );
            proof {
                assert(ctx.journal.view_state().accounts[ci.target_address].code
                    == pre_j.view_state().accounts[ci.target_address].code);
            }
            Ok((cp, interp))
        },
    }
}

/// When opening a call frame fails: the caller's balance cannot cover the
/// value, or crediting the recipient would overflow a word.
pub open spec fn spec_call_open_fails(v: StateView, ci: CallInputs) -> bool {
    ||| v.accounts[ci.caller].balance < ci.value.as_nat()
    ||| (ci.caller != ci.target_address && v.accounts[ci.target_address].balance
        + ci.value.as_nat() >= crate::word::pow256())
}

/// Open a create frame: bump the creator's nonce, check for a collision,
/// checkpoint, create and fund the account, and build the interpreter over
/// the init code.
#[verifier::rlimit(100)]

/// Which check of the create protocol fails first, if any: the Shanghai
/// init-code size limit, the creator's nonce at its ceiling, an occupied
/// target address, or the value the creator cannot fund (or that would
/// overflow the new account).
pub open spec fn spec_create_open_failure(
    spec_id: SpecId,
    v: StateView,
    ci: CreateInputs,
) -> Option<InstructionResult> {
    let created_nonce: int = if ci.created_address == ci.caller {
        v.accounts[ci.caller].nonce + 1
    } else {
        v.accounts[ci.created_address].nonce as int
    };
    if crate::env::spec_fork_rank(spec_id) >= crate::env::spec_fork_rank(SpecId::Shanghai)
        && ci.init_code@.len() > MAX_INITCODE_SIZE {
        Some(InstructionResult::CreateInitCodeSizeLimit)
    } else if v.accounts[ci.caller].nonce == u64::MAX {
        Some(InstructionResult::NonceOverflow)
    } else if created_nonce != 0 || v.accounts[ci.created_address].code.len() > 0 {
        Some(InstructionResult::CreateCollision)
    } else if v.accounts[ci.caller].balance < ci.value.as_nat() || (ci.caller
        != ci.created_address && v.accounts[ci.created_address].balance + ci.value.as_nat()
        >= crate::word::pow256()) {
        Some(InstructionResult::OutOfFunds)
    } else {
        None
    }
}

pub fn open_create_frame(ctx: &mut Context, spec_id: SpecId, ci: CreateInputs) -> (r: Result<
    (JournalCheckpoint, NewInterpreter),
    InterpreterResult,
>)
    requires
        old(ctx).wf(),
        old(ctx).journal.marks@.len() < usize::MAX,
    ensures
        final(ctx).wf(),
        final(ctx).block == old(ctx).block,
        final(ctx).tx == old(ctx).tx,
        final(ctx).cfg == old(ctx).cfg,
        final(ctx).journal.marks@.len() >= old(ctx).journal.marks@.len() || final(ctx).journal.marks@.len() + 1 == old(ctx).journal.marks@.len(),
        forall|i: int|
            0 <= i < old(ctx).journal.marks@.len() && i < final(ctx).journal.marks@.len()
                ==> #[trigger] final(ctx).journal.marks@[i] == old(ctx).journal.marks@[i],
        (r is Err) == (spec_create_open_failure(spec_id, old(ctx).journal.view_state(), ci)
            is Some),
        r matches Ok(p) ==> (final(ctx).journal.marks@.len() == old(ctx).journal.marks@.len() + 1
            && p.0.depth == old(ctx).journal.marks@.len() + 1 && final(ctx).journal.valid_checkpoint(p.0) && p.1.wf() && p.1.control.gas.limit == ci.gas_limit
            && p.1.control.gas.remaining == ci.gas_limit && p.1.input.caller == ci.caller
            && p.1.input.target_address == ci.created_address && p.1.input.value == ci.value
            && p.1.bytecode.base.code@ == ci.init_code@ && p.1.runtime_flag.spec_id == spec_id
            && final(ctx).journal.view_state().accounts[ci.created_address].created
            && final(ctx).journal.view_state().accounts[ci.created_address].touched
            && (ci.caller != ci.created_address ==> (final(ctx).journal.view_state().accounts[ci.caller].nonce
                == old(ctx).journal.view_state().accounts[ci.caller].nonce + 1
                && final(ctx).journal.view_state().accounts[ci.caller].balance
                == old(ctx).journal.view_state().accounts[ci.caller].balance - ci.value.as_nat()
                && final(ctx).journal.view_state().accounts[ci.created_address].balance
                == old(ctx).journal.view_state().accounts[ci.created_address].balance
                + ci.value.as_nat()))),
        r matches Err(res) ==> (final(ctx).journal.marks@.len() == old(ctx).journal.marks@.len()
            && Some(res.result) == spec_create_open_failure(
            spec_id,
            old(ctx).journal.view_state(),
            ci,
        ) && res.gas.wf() && res.gas.limit == ci.gas_limit && res.output@ == Seq::<u8>::empty()
            && res.gas.refunded == 0 && (res.result == InstructionResult::OutOfFunds
            ==> res.gas.remaining == ci.gas_limit) && (res.result != InstructionResult::OutOfFunds
            ==> res.gas.remaining == 0) && (forall|b: Address|
            #[trigger] final(ctx).journal.view_state().accounts[b].balance == old(
                ctx,
            ).journal.view_state().accounts[b].balance)),
{
    proof {
        crate::journal::lemma_wf_facts(old(ctx).journal);
    }
    let ghost pre_v = old(ctx).journal.view_state();
    let all_spent = Gas { limit: ci.gas_limit, remaining: 0, refunded: 0 };
    if spec_id.is_enabled_in(SpecId::Shanghai) && ci.init_code.len() > MAX_INITCODE_SIZE {
        proof {
        }
        return Err(InterpreterResult {
            result: InstructionResult::CreateInitCodeSizeLimit,
            output: Vec::new(),
            gas: all_spent,
        });
    }
    let _caller_load = ctx.journal.load_account(ci.caller);
    match ctx.journal.inc_nonce(ci.caller) {
        None => {
            proof {
            }
            return Err(InterpreterResult {
                result: InstructionResult::NonceOverflow,
                output: Vec::new(),
                gas: all_spent,
            });
        },
        Some(_) => {},
    }
    let ghost bumped_v = ctx.journal.view_state();
    let target_load = ctx.journal.load_account(ci.created_address);
    let target_code = ctx.journal.load_code(ci.created_address);
    proof {
        if ci.created_address == ci.caller {
            assert(bumped_v.accounts[ci.created_address].nonce
                == pre_v.accounts[ci.caller].nonce + 1);
        } else {
            assert(bumped_v.accounts[ci.created_address].nonce
                == pre_v.accounts[ci.created_address].nonce);
        }
        assert(bumped_v.accounts[ci.created_address].code
            == pre_v.accounts[ci.created_address].code);
    }
    if target_load.nonce != 0 || target_code.len() > 0 {
        return Err(InterpreterResult {
            result: InstructionResult::CreateCollision,
            output: Vec::new(),
            gas: all_spent,
        });
    }
    proof {
        crate::journal::lemma_wf_facts(ctx.journal);
    }
    let cp = ctx.journal.checkpoint();
    ctx.journal.create_account(ci.created_address);
    ctx.journal.touch(ci.created_address);
    if spec_id.is_enabled_in(SpecId::SpuriousDragon) {
        // The collision check saw nonce zero, so this bump cannot overflow.
        match ctx.journal.inc_nonce(ci.created_address) {
            None => {
                proof {
                    assert(false);
                }
                ctx.journal.revert_to(cp);
                return Err(InterpreterResult {
                    result: InstructionResult::NonceOverflow,
                    output: Vec::new(),
                    gas: all_spent,
                });
            },
            Some(_) => {},
        }
    }
    let ghost staged_v = ctx.journal.view_state();
    proof {
        assert(staged_v.accounts[ci.caller].balance == pre_v.accounts[ci.caller].balance);
        assert(staged_v.accounts[ci.created_address].balance
            == pre_v.accounts[ci.created_address].balance);
    }
    match ctx.journal.transfer(ci.caller, ci.created_address, ci.value) {
        Some(_e) => {
            ctx.journal.revert_to(cp);
            let gas = Gas::new(ci.gas_limit);
            proof {
                assert(ctx.journal.marks@ =~= old(ctx).journal.marks@);
                assert forall|b: Address| #[trigger] ctx.journal.view_state().accounts[b].balance
                    == pre_v.accounts[b].balance by {}
            }
            Err(InterpreterResult {
                result: InstructionResult::OutOfFunds,
                output: Vec::new(),
                gas,
            })
        },
        None => {
            let bytecode = Bytecode::analyze(ci.init_code);
            let interp = NewInterpreter::new(
                bytecode,
                InputsImpl {
                    caller: ci.caller,
                    target_address: ci.created_address,
                    value: ci.value,
                    call_data: Vec::new(),
                },
                false,
                false,
                spec_id,
                ci.gas_limit,
            );
            Ok((cp, interp))
        },
    }
}

/// Settle a finished create frame: enforce the deployed-code rules, charge
/// the deposit cost, and install the code.
fn finish_create(
    ctx: &mut Context,
    spec_id: SpecId,
    created_address: Address,
    res: InterpreterResult,
) -> (r: InterpreterResult)
    requires
        old(ctx).wf(),
        res.gas.wf(),
        res.result.spec_is_ok(),
        !(res.result matches InstructionResult::Continue),
        !(res.result matches InstructionResult::CallOrCreate),
    ensures
        final(ctx).wf(),
        final(ctx).block == old(ctx).block,
        final(ctx).tx == old(ctx).tx,
        final(ctx).cfg == old(ctx).cfg,
        final(ctx).journal.marks@ == old(ctx).journal.marks@,
        JournaledState::snap_framing(old(ctx).journal, final(ctx).journal),
        r.gas.wf(),
        r.gas.limit == res.gas.limit,
        r.gas.remaining <= res.gas.remaining,
        !(r.result matches InstructionResult::Continue),
        !(r.result matches InstructionResult::CallOrCreate),
        final(ctx).journal.marks@.len() >= old(ctx).journal.marks@.len() || final(ctx).journal.marks@.len() + 1 == old(ctx).journal.marks@.len(),
        forall|i: int|
            0 <= i < old(ctx).journal.marks@.len() && i < final(ctx).journal.marks@.len()
                ==> #[trigger] final(ctx).journal.marks@[i] == old(ctx).journal.marks@[i],
{
    let mut gas = res.gas;
    if res.output.len() > 0 && res.output[0] == 0xEF && spec_id.is_enabled_in(SpecId::London) {
        gas.spend_all();
        proof {
        }
        return InterpreterResult {
            result: InstructionResult::CreateContractStartingWithEF,
            output: res.output,
            gas,
        };
    }
    if spec_id.is_enabled_in(SpecId::SpuriousDragon) && res.output.len() > MAX_CODE_SIZE {
        gas.spend_all();
        proof {
        }
        return InterpreterResult {
            result: InstructionResult::CreateContractSizeLimit,
            output: res.output,
            gas,
        };
    }
    let out_len = res.output.len() as u64;
    let deposit_cost: u64 = if out_len <= u64::MAX / 200 {
        200 * out_len
    } else {
        u64::MAX
    };
    if !gas.record_cost(deposit_cost) {
        gas.spend_all();
        proof {
        }
        return InterpreterResult { result: InstructionResult::OutOfGas, output: res.output, gas };
    }
    let code = crate::state::clone_bytes(&res.output);
    ctx.journal.set_code(created_address, code);
    proof {
    }
    InterpreterResult { result: res.result, output: res.output, gas }
}

/// Copy the first `n` bytes of a vector.
fn copy_prefix(v: &Vec<u8>, n: usize) -> (r: Vec<u8>)
    requires
        n <= v@.len(),
    ensures
        r@ == v@.subrange(0, n as int),
{
    let mut r: Vec<u8> = Vec::new();
    let mut i: usize = 0;
    while i < n
        invariant
            n <= v@.len(),
            i <= n,
            r@ == v@.subrange(0, i as int),
        decreases n - i,
    {
        r.push(v[i]);
        i = i + 1;
        proof {
            assert(r@ =~= v@.subrange(0, i as int));
        }
    }
    r
}

/// Resume a parent frame with a child's outcome: refund the unused gas on
/// success or revert, copy a call's output into the parent's window, set the
/// return-data buffer, and push the success flag or the created address.
fn resume_parent(
    interp: &mut NewInterpreter,
    memory: &mut SharedMemory,
    res: &InterpreterResult,
    child_was_call: bool,
    window: (usize, usize),
    created: Option<Address>,
)
    requires
        old(interp).wf(),
        old(memory).wf(),
        res.gas.wf(),
        res.gas.remaining <= old(interp).control.gas.spec_spent(),
    ensures
        final(interp).wf(),
        final(memory).wf(),
        final(memory).frame_starts@ == old(memory).frame_starts@,
        final(interp).control.gas.limit == old(interp).control.gas.limit,
        final(interp).control.gas.remaining <= old(interp).control.gas.remaining
            + res.gas.remaining,
        final(interp).bytecode.base == old(interp).bytecode.base,
        final(interp).input == old(interp).input,
        final(interp).runtime_flag == old(interp).runtime_flag,
{
    if res.result.is_ok() || res.result.is_revert() {
        interp.control.gas.erase_cost(res.gas.remaining);
    }
    if child_was_call {
        let out_len = res.output.len();
        let n = if window.1 < out_len {
            window.1
        } else {
            out_len
        };
        if n > 0 && window.0 <= memory.len() && n <= memory.len() - window.0 {
            let prefix = copy_prefix(&res.output, n);
            memory.write(window.0, prefix.as_slice());
        }
        interp.return_data = if res.result.is_ok() || res.result.is_revert() {
            crate::state::clone_bytes(&res.output)
        } else {
            Vec::new()
        };
        let flag = if res.result.is_ok() {
            U256::one()
        } else {
            U256::zero()
        };
        // The push always has room: the call opcode popped at least six
        // words before yielding.
        let _ = interp.stack.push(flag);
    } else {
        let w: U256 = if res.result.is_ok() {
            match created {
                Some(a) => a.into_word(),
                None => U256::zero(),
            }
        } else {
            U256::zero()
        };
        interp.return_data = if res.result.is_revert() {
            crate::state::clone_bytes(&res.output)
        } else {
            Vec::new()
        };
        let _ = interp.stack.push(w);
    }
}





proof fn lemma_frames_gas_nonneg(s: Seq<Frame>)
    ensures
        spec_frames_gas(s) >= 0,
    decreases s.len(),
{
    if s.len() > 0 {
        lemma_frames_gas_nonneg(s.drop_last());
    }
}


/// A single root frame with the first checkpoint makes a well-formed stack.
proof fn lemma_stack_wf_root(current: Frame, j: JournaledState)
    requires
        current.spec_frame_data().interpreter.wf(),
        current.spec_frame_data().checkpoint.depth == 1,
        j.valid_checkpoint(current.spec_frame_data().checkpoint),
    ensures
        spec_stack_wf(Seq::<Frame>::empty(), current, j),
{
    reveal(spec_stack_wf);
}

/// Stack well-formedness only reads the journal's checkpoint marks; it
/// carries over to any journal that keeps the marks the stack uses.
proof fn lemma_stack_wf_marks(s: Seq<Frame>, current: Frame, jpre: JournaledState, jpost: JournaledState)
    requires
        spec_stack_wf(s, current, jpre),
        jpost.marks@.len() >= s.len() + 1,
        forall|i: int| 0 <= i < s.len() + 1 ==> #[trigger] jpost.marks@[i] == jpre.marks@[i],
    ensures
        spec_stack_wf(s, current, jpost),
    decreases s.len(),
{
    reveal(spec_stack_wf);
    if s.len() > 0 {
        lemma_stack_wf_marks(s.drop_last(), s.last(), jpre, jpost);
    }
}

/// Suspending the current frame under a fresh child keeps the stack
/// well-formed, given the child's checkpoint is the new top and the parent
/// can absorb the child's gas.
proof fn lemma_stack_wf_push(
    s: Seq<Frame>,
    parent: Frame,
    child: Frame,
    jpre: JournaledState,
    jpost: JournaledState,
)
    requires
        spec_stack_wf(s, parent, jpre),
        jpost.marks@.len() == jpre.marks@.len() + 1,
        forall|i: int| 0 <= i < jpre.marks@.len() ==> #[trigger] jpost.marks@[i] == jpre.marks@[i],
        jpre.marks@.len() >= s.len() + 1,
        child.spec_frame_data().interpreter.wf(),
        child.spec_frame_data().checkpoint.depth == s.len() + 2,
        jpost.valid_checkpoint(child.spec_frame_data().checkpoint),
        spec_gas_rel(parent, child.spec_frame_data().interpreter.control.gas.limit),
    ensures
        spec_stack_wf(s.push(parent), child, jpost),
{
    reveal(spec_stack_wf);
    lemma_stack_wf_marks(s, parent, jpre, jpost);
    let s2 = s.push(parent);
    assert(s2.drop_last() =~= s);
    assert(s2.last() == parent);
}

/// Replacing the current frame by one with the same checkpoint and gas
/// limit (a resumed parent) keeps the stack well-formed.
proof fn lemma_stack_wf_resume(
    s: Seq<Frame>,
    before: Frame,
    after: Frame,
    jpre: JournaledState,
    jpost: JournaledState,
)
    requires
        spec_stack_wf(s, before, jpre),
        jpost.marks@.len() == jpre.marks@.len(),
        forall|i: int| 0 <= i < jpre.marks@.len() ==> #[trigger] jpost.marks@[i] == jpre.marks@[i],
        jpre.marks@.len() >= s.len() + 1,
        after.spec_frame_data().interpreter.wf(),
        after.spec_frame_data().checkpoint == before.spec_frame_data().checkpoint,
        after.spec_frame_data().interpreter.control.gas.limit
            == before.spec_frame_data().interpreter.control.gas.limit,
    ensures
        spec_stack_wf(s, after, jpost),
{
    reveal(spec_stack_wf);
    if s.len() > 0 {
        lemma_stack_wf_marks(s.drop_last(), s.last(), jpre, jpost);
    }
}

/// Popping the finished frame recovers the parent's stack well-formedness,
/// against any journal that keeps the marks below the popped checkpoint.
proof fn lemma_stack_wf_pop(s: Seq<Frame>, child: Frame, jpre: JournaledState, jpost: JournaledState)
    requires
        spec_stack_wf(s, child, jpre),
        s.len() > 0,
        jpost.marks@.len() >= s.len(),
        forall|i: int| 0 <= i < s.len() ==> #[trigger] jpost.marks@[i] == jpre.marks@[i],
    ensures
        spec_stack_wf(s.drop_last(), s.last(), jpost),
        spec_gas_rel(s.last(), child.spec_frame_data().interpreter.control.gas.limit),
        s.last().spec_frame_data().interpreter.wf(),
        s.last().spec_frame_data().checkpoint.depth == s.len(),
        jpost.valid_checkpoint(s.last().spec_frame_data().checkpoint),
{
    reveal(spec_stack_wf);
    lemma_stack_wf_marks(s.drop_last(), s.last(), jpre, jpost);
}

/// The current frame's own facts, read off the stack invariant.
proof fn lemma_stack_wf_current(s: Seq<Frame>, current: Frame, j: JournaledState)
    requires
        spec_stack_wf(s, current, j),
    ensures
        current.spec_frame_data().interpreter.wf(),
        current.spec_frame_data().checkpoint.depth == s.len() + 1,
        j.valid_checkpoint(current.spec_frame_data().checkpoint),
        j.marks@.len() >= s.len() + 1,
{
    reveal(spec_stack_wf);
}

/// Resolve a frame's checkpoint: commit it on success, revert to it
/// otherwise. Stated leanly — just the checkpoint bookkeeping — so callers
/// stay small; the state-restoring contracts live on the journal itself.
fn settle_checkpoint(j: &mut JournaledState, cp: JournalCheckpoint, ok: bool)
    requires
        old(j).wf(),
        old(j).valid_checkpoint(cp),
        cp.depth == old(j).marks@.len(),
    ensures
        final(j).wf(),
        final(j).marks@.len() == cp.depth - 1,
        final(j).db == old(j).db,
        forall|i: int| 0 <= i < cp.depth - 1 ==> #[trigger] final(j).marks@[i] == old(j).marks@[i],
{
    if ok {
        j.commit(cp);
    } else {
        j.revert_to(cp);
    }
}

/// Open a child frame of either kind, enforcing the 1024-frame depth limit:
/// at the limit the request fails with `CallTooDeep` and all the gas it
/// would have carried is handed back.
pub fn init_frame(ctx: &mut Context, spec_id: SpecId, depth: usize, fi: FrameInput) -> (r: Result<
    Frame,
    InterpreterResult,
>)
    requires
        old(ctx).wf(),
        old(ctx).journal.marks@.len() < usize::MAX,
    ensures
        final(ctx).wf(),
        final(ctx).block == old(ctx).block,
        final(ctx).tx == old(ctx).tx,
        final(ctx).cfg == old(ctx).cfg,
        final(ctx).journal.marks@.len() >= old(ctx).journal.marks@.len() || final(ctx).journal.marks@.len() + 1 == old(ctx).journal.marks@.len(),
        forall|i: int|
            0 <= i < old(ctx).journal.marks@.len() && i < final(ctx).journal.marks@.len()
                ==> #[trigger] final(ctx).journal.marks@[i] == old(ctx).journal.marks@[i],
        depth >= CALL_STACK_LIMIT ==> (r matches Err(res)
            && res.result == InstructionResult::CallTooDeep && res.gas.remaining == res.gas.limit
            && res.gas.limit == spec_frame_input_gas(fi) && *final(ctx) == *old(ctx)),
        r matches Ok(f) ==> (final(ctx).journal.marks@.len() == old(ctx).journal.marks@.len() + 1
            && f.spec_frame_data().checkpoint.depth == old(ctx).journal.marks@.len() + 1
            && final(ctx).journal.valid_checkpoint(f.spec_frame_data().checkpoint)
            && f.spec_frame_data().interpreter.wf()
            && f.spec_frame_data().interpreter.control.gas.limit == spec_frame_input_gas(fi)
            && f.spec_frame_data().interpreter.control.gas.remaining == spec_frame_input_gas(fi)
            && ((f matches Frame::Call(_)) == (fi matches FrameInput::Call(_)))),
        r matches Err(res) ==> (final(ctx).journal.marks@.len() == old(ctx).journal.marks@.len()
            && res.gas.wf() && res.gas.limit == spec_frame_input_gas(fi) && res.gas.remaining
            <= spec_frame_input_gas(fi) && !res.result.spec_is_ok()
            && !(res.result matches InstructionResult::Continue)
            && !(res.result matches InstructionResult::CallOrCreate)),
        depth < CALL_STACK_LIMIT ==> (match fi {
            FrameInput::Call(ci) => (r is Err) == spec_call_open_fails(
                old(ctx).journal.view_state(),
                ci,
            ) && (r matches Err(res) ==> (res.result == InstructionResult::OutOfFunds
                && res.gas.remaining == ci.gas_limit)),
            FrameInput::Create(ci) => (r is Err) == (spec_create_open_failure(
                spec_id,
                old(ctx).journal.view_state(),
                ci,
            ) is Some) && (r matches Err(res) ==> Some(res.result) == spec_create_open_failure(
                spec_id,
                old(ctx).journal.view_state(),
                ci,
            )),
            FrameInput::EOFCreate(_) => true,
        }),
{
    let fi_gas: u64 = match &fi {
        FrameInput::Call(ci) => ci.gas_limit,
        FrameInput::Create(ci) => ci.gas_limit,
        FrameInput::EOFCreate(ci) => ci.gas_limit,
    };
    if depth >= CALL_STACK_LIMIT {
        return Err(InterpreterResult {
            result: InstructionResult::CallTooDeep,
            output: Vec::new(),
            gas: Gas::new(fi_gas),
        });
    }
    match fi {
        FrameInput::Call(ci) => {
            let window = (ci.return_memory_start, ci.return_memory_len);
            match open_call_frame(ctx, spec_id, ci) {
                Ok(p) => Ok(Frame::new_call(window, p.0, p.1)),
                Err(res) => Err(res),
            }
        },
        FrameInput::Create(ci) => {
            let addr = ci.created_address;
            match open_create_frame(ctx, spec_id, ci) {
                Ok(p) => Ok(Frame::new_create(addr, p.0, p.1)),
                Err(res) => Err(res),
            }
        },
        FrameInput::EOFCreate(eci) => {
            let addr = eci.created_address;
            let ci = CreateInputs {
                caller: eci.caller,
                value: eci.value,
                init_code: eci.init_container,
                gas_limit: eci.gas_limit,
                created_address: eci.created_address,
                salt: None,
            };
            match open_create_frame(ctx, spec_id, ci) {
                Ok(p) => Ok(
                    Frame::EOFCreate(
                        Box::new(
                            crate::frames::EOFCreateFrame {
                                created_address: addr,
                                frame_data: crate::frames::FrameData {
                                    checkpoint: p.0,
                                    interpreter: p.1,
                                },
                            },
                        ),
                    ),
                ),
                Err(res) => Err(res),
            }
        },
    }
}

/// What closing a frame yields: the transaction's result when the root
/// frame ended, or the resumed parent frame.
pub enum CloseOutcome {
    Done(FrameResult),
    Resumed(Frame),
}

/// Close a finished frame (spec 4.10): settle a create's deployment, commit
/// its checkpoint on success and revert to it otherwise, and either report
/// the transaction's result (root frame) or resume the parent with the
/// outcome.
#[verifier::rlimit(100)]
#[verifier::spinoff_prover]
pub fn close_frame(
    ctx: &mut Context,
    memory: &mut SharedMemory,
    frames: &mut Vec<Frame>,
    child: Frame,
    res0: InterpreterResult,
    spec_id: SpecId,
) -> (r: CloseOutcome)
    requires
        old(ctx).wf(),
        old(memory).wf(),
        spec_stack_wf(old(frames)@, child, old(ctx).journal),
        old(memory).frame_starts@.len() == old(frames)@.len() + 1,
        old(ctx).journal.marks@.len() == old(frames)@.len() + 1,
        child.spec_frame_data().checkpoint.depth == old(frames)@.len() + 1,
        old(ctx).journal.valid_checkpoint(child.spec_frame_data().checkpoint),
        res0.gas == child.spec_frame_data().interpreter.control.gas,
        res0.gas.wf(),
        !(res0.result matches InstructionResult::Continue),
        !(res0.result matches InstructionResult::CallOrCreate),
    ensures
        final(ctx).wf(),
        final(memory).wf(),
        final(ctx).block == old(ctx).block,
        final(ctx).tx == old(ctx).tx,
        final(ctx).cfg == old(ctx).cfg,
        (r matches CloseOutcome::Done(_)) == (old(frames)@.len() == 0),
        r matches CloseOutcome::Done(fr) ==> (final(ctx).journal.marks@.len() == 0 && !(
        fr.spec_interpreter_result().result matches InstructionResult::Continue) && !(
        fr.spec_interpreter_result().result matches InstructionResult::CallOrCreate)
            && fr.spec_interpreter_result().gas.wf() && ((fr matches FrameResult::Call(_)) == (
        child matches Frame::Call(_)))),
        r matches CloseOutcome::Resumed(p) ==> (final(frames)@ == old(frames)@.drop_last()
            && spec_stack_wf(final(frames)@, p, final(ctx).journal) && final(memory).frame_starts@.len() == final(frames)@.len() + 1 && spec_frames_gas(final(frames)@)
            + p.spec_frame_data().interpreter.control.gas.remaining <= spec_frames_gas(
            old(frames)@,
        ) + res0.gas.remaining && final(ctx).journal.marks@.len() == final(frames)@.len() + 1
            && (final(frames)@.len() > 0 ==> final(frames)@[0] == old(frames)@[0])
            && ((p matches Frame::Call(_)) == (old(frames)@.last() matches Frame::Call(_)))),
{
    let cp = child.frame_data().checkpoint;
    let is_call_frame = child.is_call();
    let (created_opt, child_window): (Option<Address>, (usize, usize)) = match &child {
        Frame::Call(f) => (None, f.return_memory_range),
        Frame::Create(f) => (Some(f.created_address), (0, 0)),
        Frame::EOFCreate(f) => (Some(f.created_address), (0, 0)),
    };
    let res: InterpreterResult = if !is_call_frame && res0.is_ok() {
        match created_opt {
            Some(a) => finish_create(ctx, spec_id, a, res0),
            None => res0,
        }
    } else {
        res0
    };
    let ok = res.is_ok();
    // A halt consumes all the gas the frame was given; a return or revert
    // keeps what is left.
    let res: InterpreterResult = if !ok && !res.is_revert() {
        let mut spent = res.gas;
        spent.spend_all();
        InterpreterResult { result: res.result, output: res.output, gas: spent }
    } else {
        res
    };
    settle_checkpoint(&mut ctx.journal, cp, ok);
    if frames.len() == 0 {
        return CloseOutcome::Done(
            match child {
                Frame::Call(f) => FrameResult::Call(
                    CallOutcome {
                        result: res,
                        memory_start: f.return_memory_range.0,
                        memory_len: f.return_memory_range.1,
                    },
                ),
                Frame::Create(f) => FrameResult::Create(
                    CreateOutcome {
                        result: res,
                        address: if ok {
                            Some(f.created_address)
                        } else {
                            None
                        },
                    },
                ),
                Frame::EOFCreate(f) => FrameResult::EOFCreate(
                    CreateOutcome {
                        result: res,
                        address: if ok {
                            Some(f.created_address)
                        } else {
                            None
                        },
                    },
                ),
            },
        );
    }
    memory.free_context();
    let ghost old_frames = frames@;
    let mut parent = match frames.pop() {
        Some(p) => p,
        None => {
            proof {
                assert(false);
            }
            return CloseOutcome::Done(
                FrameResult::Call(CallOutcome { result: res, memory_start: 0, memory_len: 0 }),
            );
        },
    };
    let ghost before = parent;
    let ghost mid_j = ctx.journal;
    proof {
        assert(old_frames.drop_last() =~= frames@);
        assert(old_frames.last() == before);
        lemma_stack_wf_pop(old_frames, child, old(ctx).journal, mid_j);
        assert(res.gas.remaining <= before.spec_frame_data().interpreter.control.gas.spec_spent());
    }
    resume_parent(
        parent.interpreter_mut(),
        memory,
        &res,
        is_call_frame,
        child_window,
        created_opt,
    );
    proof {
        lemma_stack_wf_resume(frames@, before, parent, mid_j, ctx.journal);
    }
    CloseOutcome::Resumed(parent)
}


/// Open the requested child frame and descend into it, or refuse it (the
/// depth limit or a failed check of spec 4.9) and resume the requesting
/// frame with the synthetic result.
#[verifier::rlimit(100)]
#[verifier::spinoff_prover]
fn grow_or_refuse(
    ctx: &mut Context,
    memory: &mut SharedMemory,
    frames: &mut Vec<Frame>,
    current: Frame,
    fi: FrameInput,
    spec_id: SpecId,
) -> (r: Frame)
    requires
        old(ctx).wf(),
        old(memory).wf(),
        spec_stack_wf(old(frames)@, current, old(ctx).journal),
        old(memory).frame_starts@.len() == old(frames)@.len() + 1,
        old(frames)@.len() + 1 <= CALL_STACK_LIMIT,
        old(ctx).journal.marks@.len() == old(frames)@.len() + 1,
        spec_frame_input_gas(fi) + current.spec_frame_data().interpreter.control.gas.remaining
            < current.spec_frame_data().interpreter.control.gas.limit,
    ensures
        final(ctx).wf(),
        final(memory).wf(),
        final(ctx).block == old(ctx).block,
        final(ctx).tx == old(ctx).tx,
        final(ctx).cfg == old(ctx).cfg,
        spec_stack_wf(final(frames)@, r, final(ctx).journal),
        final(memory).frame_starts@.len() == final(frames)@.len() + 1,
        final(frames)@.len() + 1 <= CALL_STACK_LIMIT,
        final(ctx).journal.marks@.len() == final(frames)@.len() + 1,
        final(frames)@.len() > 0 ==> final(frames)@[0] == (if old(frames)@.len() > 0 {
            old(frames)@[0]
        } else {
            current
        }),
        final(frames)@.len() >= old(frames)@.len(),
        final(frames)@.len() == old(frames)@.len() ==> ((r matches Frame::Call(_)) == (
        current matches Frame::Call(_))),
        2 * (spec_frames_gas(final(frames)@)
            + r.spec_frame_data().interpreter.control.gas.remaining) + final(frames)@.len() <= 2 * (
        spec_frames_gas(old(frames)@)
            + current.spec_frame_data().interpreter.control.gas.remaining + spec_frame_input_gas(
            fi,
        )) + old(frames)@.len() + 1,
{
    proof {
        lemma_stack_wf_current(frames@, current, ctx.journal);
    }
    let (was_call, window): (bool, (usize, usize)) = match &fi {
        FrameInput::Call(ci) => (true, (ci.return_memory_start, ci.return_memory_len)),
        FrameInput::Create(_) => (false, (0, 0)),
        FrameInput::EOFCreate(_) => (false, (0, 0)),
    };
    let depth = frames.len() + 1;
    let ghost pre_frames = frames@;
    let ghost pre_j = ctx.journal;
    match init_frame(ctx, spec_id, depth, fi) {
        Ok(child) => {
            memory.new_context();
            frames.push(current);
            let ghost last = frames@.last();
            proof {
                lemma_frames_gas_push(pre_frames, last);
                lemma_stack_wf_push(pre_frames, current, child, pre_j, ctx.journal);
            }
            child
        },
        Err(res) => {
            let mut parent = current;
            let ghost before = parent;
            resume_parent(parent.interpreter_mut(), memory, &res, was_call, window, None);
            proof {
                lemma_stack_wf_resume(pre_frames, before, parent, pre_j, ctx.journal);
            }
            parent
        },
    }
}

impl EvmHandler {
    /// Drive a whole transaction (spec 4.8): run the first frame, open
    /// child frames on demand — never deeper than 1024, a verified loop
    /// invariant — and resolve each frame's checkpoint as it ends:
    /// committed on success, reverted otherwise, so no state change or log
    /// of a failed subtree survives. The gas meters bound the loop.
    #[verifier::rlimit(100)]
    #[verifier::spinoff_prover]
    pub fn run_transaction(&self, ctx: &mut Context, first: FrameInput) -> (r: FrameResult)
        requires
            old(ctx).wf(),
            old(ctx).journal.marks@.len() == 0,
        ensures
            final(ctx).wf(),
            final(ctx).journal.marks@.len() == 0,
            final(ctx).block == old(ctx).block,
            final(ctx).tx == old(ctx).tx,
            final(ctx).cfg == old(ctx).cfg,
            !(r.spec_interpreter_result().result matches InstructionResult::Continue),
            !(r.spec_interpreter_result().result matches InstructionResult::CallOrCreate),
            r.spec_interpreter_result().gas.wf(),
            (r matches FrameResult::Call(_)) == (first matches FrameInput::Call(_)),
    {
        let table = EthInstructionProvider::new();
        let mut memory = SharedMemory::new();
        let is_first_call = match &first {
            FrameInput::Call(_) => true,
            FrameInput::Create(_) => false,
            FrameInput::EOFCreate(_) => false,
        };
        let first_window: (usize, usize) = match &first {
            FrameInput::Call(ci) => (ci.return_memory_start, ci.return_memory_len),
            FrameInput::Create(_) => (0, 0),
            FrameInput::EOFCreate(_) => (0, 0),
        };
        let mut current: Frame = match init_frame(ctx, self.spec_id, 0, first) {
            Ok(f) => f,
            Err(res) => {
                return if is_first_call {
                    FrameResult::Call(
                        CallOutcome {
                            result: res,
                            memory_start: first_window.0,
                            memory_len: first_window.1,
                        },
                    )
                } else {
                    FrameResult::Create(CreateOutcome { result: res, address: None })
                };
            },
        };
        let mut frames: Vec<Frame> = Vec::new();
        proof {
            lemma_stack_wf_root(current, ctx.journal);
        }
        loop
            invariant
                ctx.wf(),
                memory.wf(),
                ctx.block == old(ctx).block,
                ctx.tx == old(ctx).tx,
                ctx.cfg == old(ctx).cfg,
                frames@.len() + 1 <= CALL_STACK_LIMIT,
                spec_stack_wf(frames@, current, ctx.journal),
                ctx.journal.marks@.len() == frames@.len() + 1,
                memory.frame_starts@.len() == frames@.len() + 1,
                is_first_call == (first matches FrameInput::Call(_)),
                (if frames@.len() > 0 {
                    frames@[0] matches Frame::Call(_)
                } else {
                    current matches Frame::Call(_)
                }) == is_first_call,
            decreases 2 * (spec_frames_gas(frames@)
                + current.spec_frame_data().interpreter.control.gas.remaining) + frames@.len(),
        {
            proof {
                lemma_frames_gas_nonneg(frames@);
                lemma_stack_wf_current(frames@, current, ctx.journal);
            }
            let ghost measure_start = 2 * (spec_frames_gas(frames@)
                + current.spec_frame_data().interpreter.control.gas.remaining) + frames@.len();
            let ghost frames_start = frames@;
            let ghost pre_run = current;
            let ghost pre_run_j = ctx.journal;
            let action = current.interpreter_mut().run(&table, &mut memory, ctx);
            proof {
                lemma_stack_wf_resume(frames@, pre_run, current, pre_run_j, ctx.journal);
                lemma_stack_wf_current(frames@, current, ctx.journal);
            }
            let ghost cur_is_call = current matches Frame::Call(_);
            let ghost frames_before = frames@;
            match action {
                InterpreterAction::Return(res0) => {
                    match close_frame(ctx, &mut memory, &mut frames, current, res0, self.spec_id) {
                        CloseOutcome::Done(fr) => {
                            proof {
                                assert((fr matches FrameResult::Call(_)) == cur_is_call);
                            }
                            return fr;
                        },
                        CloseOutcome::Resumed(p) => {
                            current = p;
                            proof {
                                if frames@.len() == 0 {
                                    assert(frames_before.last() == frames_before[0]);
                                }
                            }
                            proof {
                                lemma_frames_gas_nonneg(frames@);
                                assert(2 * (spec_frames_gas(frames@)
                                    + current.spec_frame_data().interpreter.control.gas.remaining)
                                    + frames@.len() < measure_start);
                            }
                        },
                    }
                },
                InterpreterAction::NewFrame(fi) => {
                    current = grow_or_refuse(ctx, &mut memory, &mut frames, current, fi, self.spec_id);
                    proof {
                        lemma_frames_gas_nonneg(frames@);
                        assert(2 * (spec_frames_gas(frames@)
                            + current.spec_frame_data().interpreter.control.gas.remaining)
                            + frames@.len() < measure_start);
                    }
                },
                InterpreterAction::Unset => {
                    proof {
                        assert(false);
                    }
                    return FrameResult::Call(
                        CallOutcome {
                            result: InterpreterResult {
                                result: InstructionResult::FatalExternalError,
                                output: Vec::new(),
                                gas: Gas::new(0),
                            },
                            memory_start: 0,
                            memory_len: 0,
                        },
                    );
                },
            }
        }
    }
}

} // verus!
