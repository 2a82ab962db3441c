//! The instruction set: one handler per opcode, and the dispatch over the
//! opcode byte.
//!
//! Every handler validates the stack arity, charges its static gas, computes
//! and charges any dynamic gas, performs the operation, and leaves a precise
//! discriminant on failure. The contracts pin the stack, gas, and state
//! transformation of each instruction.

use vstd::prelude::*;

use crate::env::{Context, SpecId};
use crate::gas;
use crate::interpreter::{
    spec_ctx_frame, spec_frame_input_gas, spec_instr_frame, spec_instr_post, spec_mem_frame,
    CallInputs, FrameInput, InterpreterAction, InterpreterResult, NewInterpreter,
};
use crate::journal::JournaledState;
use crate::memory::SharedMemory;
use crate::result::InstructionResult;
use crate::stack::STACK_LIMIT;
use crate::state::{Log, StateView};
use crate::word::{spec_add_mod256, spec_sub_mod256, Address, U256};

verus! {

/// What no instruction changes: inputs, flags, the underlying code, the gas
/// limit; and what this module's simple handlers keep: the pending action
/// and the refund counter of the frame's meter.
pub open spec fn spec_env_kept(pre: NewInterpreter, post: NewInterpreter) -> bool {
    &&& post.bytecode == pre.bytecode
    &&& post.input == pre.input
    &&& post.runtime_flag == pre.runtime_flag
    &&& post.return_data == pre.return_data
    &&& post.control.next_action == pre.control.next_action
    &&& post.control.gas.limit == pre.control.gas.limit
    &&& post.control.gas.refunded == pre.control.gas.refunded
}

/// As [`spec_env_kept`], but the program counter may move.
pub open spec fn spec_env_kept_pc(pre: NewInterpreter, post: NewInterpreter) -> bool {
    &&& post.bytecode.base == pre.bytecode.base
    &&& post.input == pre.input
    &&& post.runtime_flag == pre.runtime_flag
    &&& post.return_data == pre.return_data
    &&& post.control.next_action == pre.control.next_action
    &&& post.control.gas.limit == pre.control.gas.limit
    &&& post.control.gas.refunded == pre.control.gas.refunded
}

/// The out-of-gas exit: nothing charged, nothing touched.
pub open spec fn spec_gas_fail(pre: NewInterpreter, post: NewInterpreter) -> bool {
    &&& post.control.instruction_result == InstructionResult::OutOfGas
    &&& post.control.gas.remaining == pre.control.gas.remaining
    &&& post.stack@ == pre.stack@
}

/// A stack arity or similar failure after the static gas was charged.
pub open spec fn spec_fail_after_charge(
    pre: NewInterpreter,
    post: NewInterpreter,
    res: InstructionResult,
    cost: u64,
) -> bool {
    &&& post.control.instruction_result == res
    &&& post.control.gas.remaining == pre.control.gas.remaining - cost
    &&& post.stack@ == pre.stack@
}

/// The successful exit: gas charged, the stack replaced as stated, the
/// discriminant untouched.
pub open spec fn spec_op_ok(
    pre: NewInterpreter,
    post: NewInterpreter,
    cost: u64,
    new_stack: Seq<U256>,
) -> bool {
    &&& post.control.instruction_result == pre.control.instruction_result
    &&& post.control.gas.remaining == pre.control.gas.remaining - cost
    &&& post.stack@ == new_stack
}

/// Charge the static gas; on failure leave the out-of-gas discriminant.
fn charge(interpreter: &mut NewInterpreter, cost: u64) -> (ok: bool)
    requires
        old(interpreter).wf(),
    ensures
        final(interpreter).wf(),
        spec_env_kept(*old(interpreter), *final(interpreter)),
        final(interpreter).stack == old(interpreter).stack,
        ok == (cost <= old(interpreter).control.gas.remaining),
        ok ==> final(interpreter).control.gas.remaining == old(
            interpreter,
        ).control.gas.remaining - cost && final(interpreter).control.instruction_result == old(
            interpreter,
        ).control.instruction_result,
        !ok ==> spec_gas_fail(*old(interpreter), *final(interpreter)),
{
    if self_record_cost(interpreter, cost) {
        true
    } else {
        interpreter.control.instruction_result = InstructionResult::OutOfGas;
        false
    }
}

/// Record a cost on the frame's meter.
fn self_record_cost(interpreter: &mut NewInterpreter, cost: u64) -> (ok: bool)
    requires
        old(interpreter).wf(),
    ensures
        final(interpreter).wf(),
        spec_env_kept(*old(interpreter), *final(interpreter)),
        final(interpreter).stack == old(interpreter).stack,
        final(interpreter).control.instruction_result == old(
            interpreter,
        ).control.instruction_result,
        ok == (cost <= old(interpreter).control.gas.remaining),
        ok ==> final(interpreter).control.gas.remaining == old(
            interpreter,
        ).control.gas.remaining - cost,
        !ok ==> final(interpreter).control.gas.remaining == old(interpreter).control.gas.remaining,
{
    interpreter.control.gas.record_cost(cost)
}

/// Charge the static gas, then push one word; the template of every
/// "push a value" instruction.
fn push_word(interpreter: &mut NewInterpreter, cost: u64, w: U256)
    requires
        old(interpreter).wf(),
    ensures
        final(interpreter).wf(),
        spec_env_kept(*old(interpreter), *final(interpreter)),
        old(interpreter).control.gas.remaining < cost ==> spec_gas_fail(
            *old(interpreter),
            *final(interpreter),
        ),
        old(interpreter).control.gas.remaining >= cost && old(interpreter).stack@.len()
            >= STACK_LIMIT ==> spec_fail_after_charge(
            *old(interpreter),
            *final(interpreter),
            InstructionResult::StackOverflow,
            cost,
        ),
        old(interpreter).control.gas.remaining >= cost && old(interpreter).stack@.len()
            < STACK_LIMIT ==> spec_op_ok(
            *old(interpreter),
            *final(interpreter),
            cost,
            old(interpreter).stack@.push(w),
        ),
{
    if !charge(interpreter, cost) {
        return ;
    }
    if !interpreter.stack.push(w) {
        interpreter.control.instruction_result = InstructionResult::StackOverflow;
    }
}


/// The exact contract of the matching instruction, as the dispatch states it.
pub open spec fn spec_stop_post(pre_i: NewInterpreter, post_i: NewInterpreter) -> bool {
    &&& (post_i.wf())
    &&& (spec_env_kept(pre_i, post_i))
    &&& (post_i.stack == pre_i.stack)
    &&& (post_i.control.gas == pre_i.control.gas)
    &&& (post_i.control.instruction_result == InstructionResult::Stop)
}
/// STOP: end the frame successfully with no output.
pub fn stop(interpreter: &mut NewInterpreter)
    requires
        old(interpreter).wf(),
    ensures
        spec_stop_post(*old(interpreter), *final(interpreter)),
{
    interpreter.control.instruction_result = InstructionResult::Stop;
}


/// The exact contract of the matching instruction, as the dispatch states it.
pub open spec fn spec_invalid_op_post(pre_i: NewInterpreter, post_i: NewInterpreter) -> bool {
    &&& (post_i.wf())
    &&& (spec_env_kept(pre_i, post_i))
    &&& (post_i.stack == pre_i.stack)
    &&& (post_i.control.gas == pre_i.control.gas)
    &&& (post_i.control.instruction_result == InstructionResult::InvalidOpcode)
}
/// An undefined opcode byte.
pub fn invalid_op(interpreter: &mut NewInterpreter)
    requires
        old(interpreter).wf(),
    ensures
        spec_invalid_op_post(*old(interpreter), *final(interpreter)),
{
    interpreter.control.instruction_result = InstructionResult::InvalidOpcode;
}


/// The exact contract of the matching instruction, as the dispatch states it.
pub open spec fn spec_not_activated_post(pre_i: NewInterpreter, post_i: NewInterpreter) -> bool {
    &&& (post_i.wf())
    &&& (spec_env_kept(pre_i, post_i))
    &&& (post_i.stack == pre_i.stack)
    &&& (post_i.control.gas == pre_i.control.gas)
    &&& (post_i.control.instruction_result == InstructionResult::NotActivated)
}
/// An opcode not active under the configured hardfork.
pub fn not_activated(interpreter: &mut NewInterpreter)
    requires
        old(interpreter).wf(),
    ensures
        spec_not_activated_post(*old(interpreter), *final(interpreter)),
{
    interpreter.control.instruction_result = InstructionResult::NotActivated;
}


/// The exact contract of the matching instruction, as the dispatch states it.
pub open spec fn spec_add_post(pre_i: NewInterpreter, post_i: NewInterpreter) -> bool {
    &&& (post_i.wf())
    &&& (spec_env_kept(pre_i, post_i))
    &&& (pre_i.control.gas.remaining < gas::VERYLOW ==> spec_gas_fail(
            pre_i,
            post_i,
        ))
    &&& (pre_i.control.gas.remaining >= gas::VERYLOW && pre_i.stack@.len() < 2
            ==> spec_fail_after_charge(
            pre_i,
            post_i,
            InstructionResult::StackUnderflow,
            gas::VERYLOW,
        ))
    &&& (pre_i.control.gas.remaining >= gas::VERYLOW && pre_i.stack@.len() >= 2
            ==> (spec_op_ok(
            pre_i,
            post_i,
            gas::VERYLOW,
            pre_i.stack@.drop_last().drop_last().push(post_i.stack@.last()),
        ) && post_i.stack@.last().as_nat() == spec_add_mod256(
            pre_i.stack@.last().as_nat(),
            pre_i.stack@[pre_i.stack@.len() - 2].as_nat(),
        )))
}
/// ADD: pop two words, push their sum modulo 2^256.
pub fn add(interpreter: &mut NewInterpreter)
    requires
        old(interpreter).wf(),
    ensures
        spec_add_post(*old(interpreter), *final(interpreter)),
{
    if !charge(interpreter, gas::VERYLOW) {
        return ;
    }
    if interpreter.stack.len() < 2 {
        interpreter.control.instruction_result = InstructionResult::StackUnderflow;
        return ;
    }
    let a = pop_known(interpreter);
    let b = pop_known(interpreter);
    let r = a.wrapping_add(&b);
    push_known(interpreter, r);
}


/// The exact contract of the matching instruction, as the dispatch states it.
pub open spec fn spec_sub_post(pre_i: NewInterpreter, post_i: NewInterpreter) -> bool {
    &&& (post_i.wf())
    &&& (spec_env_kept(pre_i, post_i))
    &&& (pre_i.control.gas.remaining < gas::VERYLOW ==> spec_gas_fail(
            pre_i,
            post_i,
        ))
    &&& (pre_i.control.gas.remaining >= gas::VERYLOW && pre_i.stack@.len() < 2
            ==> spec_fail_after_charge(
            pre_i,
            post_i,
            InstructionResult::StackUnderflow,
            gas::VERYLOW,
        ))
    &&& (pre_i.control.gas.remaining >= gas::VERYLOW && pre_i.stack@.len() >= 2
            ==> (spec_op_ok(
            pre_i,
            post_i,
            gas::VERYLOW,
            pre_i.stack@.drop_last().drop_last().push(post_i.stack@.last()),
        ) && post_i.stack@.last().as_nat() == spec_sub_mod256(
            pre_i.stack@.last().as_nat(),
            pre_i.stack@[pre_i.stack@.len() - 2].as_nat(),
        )))
}
/// SUB: pop two words, push the difference modulo 2^256.
pub fn sub(interpreter: &mut NewInterpreter)
    requires
        old(interpreter).wf(),
    ensures
        spec_sub_post(*old(interpreter), *final(interpreter)),
{
    if !charge(interpreter, gas::VERYLOW) {
        return ;
    }
    if interpreter.stack.len() < 2 {
        interpreter.control.instruction_result = InstructionResult::StackUnderflow;
        return ;
    }
    let a = pop_known(interpreter);
    let b = pop_known(interpreter);
    let r = a.wrapping_sub(&b);
    push_known(interpreter, r);
}

/// A comparison or similar binary operator that pushes 0 or 1.
enum CmpKind {
    Lt,
    Gt,
    Eq,
}

/// The boolean a comparison opcode leaves, as 0 or 1.
pub open spec fn spec_bool_word(b: bool) -> nat {
    if b {
        1nat
    } else {
        0nat
    }
}


/// The exact contract of the matching instruction, as the dispatch states it.
pub open spec fn spec_lt_post(pre_i: NewInterpreter, post_i: NewInterpreter) -> bool {
    &&& (post_i.wf())
    &&& (spec_env_kept(pre_i, post_i))
    &&& (pre_i.control.gas.remaining < gas::VERYLOW ==> spec_gas_fail(
            pre_i,
            post_i,
        ))
    &&& (pre_i.control.gas.remaining >= gas::VERYLOW && pre_i.stack@.len() < 2
            ==> spec_fail_after_charge(
            pre_i,
            post_i,
            InstructionResult::StackUnderflow,
            gas::VERYLOW,
        ))
    &&& (pre_i.control.gas.remaining >= gas::VERYLOW && pre_i.stack@.len() >= 2
            ==> (spec_op_ok(
            pre_i,
            post_i,
            gas::VERYLOW,
            pre_i.stack@.drop_last().drop_last().push(post_i.stack@.last()),
        ) && post_i.stack@.last().as_nat() == spec_bool_word(
            pre_i.stack@.last().as_nat() < pre_i.stack@[pre_i.stack@.len() - 2].as_nat(),
        )))
}
/// LT: strict order on the top two words; pushes 1 or 0.
pub fn lt(interpreter: &mut NewInterpreter)
    requires
        old(interpreter).wf(),
    ensures
        spec_lt_post(*old(interpreter), *final(interpreter)),
{
    cmp_op(interpreter, CmpKind::Lt);
}


/// The exact contract of the matching instruction, as the dispatch states it.
pub open spec fn spec_gt_post(pre_i: NewInterpreter, post_i: NewInterpreter) -> bool {
    &&& (post_i.wf())
    &&& (spec_env_kept(pre_i, post_i))
    &&& (pre_i.control.gas.remaining < gas::VERYLOW ==> spec_gas_fail(
            pre_i,
            post_i,
        ))
    &&& (pre_i.control.gas.remaining >= gas::VERYLOW && pre_i.stack@.len() < 2
            ==> spec_fail_after_charge(
            pre_i,
            post_i,
            InstructionResult::StackUnderflow,
            gas::VERYLOW,
        ))
    &&& (pre_i.control.gas.remaining >= gas::VERYLOW && pre_i.stack@.len() >= 2
            ==> (spec_op_ok(
            pre_i,
            post_i,
            gas::VERYLOW,
            pre_i.stack@.drop_last().drop_last().push(post_i.stack@.last()),
        ) && post_i.stack@.last().as_nat() == spec_bool_word(
            pre_i.stack@.last().as_nat() > pre_i.stack@[pre_i.stack@.len() - 2].as_nat(),
        )))
}
/// GT: strict reverse order on the top two words; pushes 1 or 0.
pub fn gt(interpreter: &mut NewInterpreter)
    requires
        old(interpreter).wf(),
    ensures
        spec_gt_post(*old(interpreter), *final(interpreter)),
{
    cmp_op(interpreter, CmpKind::Gt);
}


/// The exact contract of the matching instruction, as the dispatch states it.
pub open spec fn spec_eq_post(pre_i: NewInterpreter, post_i: NewInterpreter) -> bool {
    &&& (post_i.wf())
    &&& (spec_env_kept(pre_i, post_i))
    &&& (pre_i.control.gas.remaining < gas::VERYLOW ==> spec_gas_fail(
            pre_i,
            post_i,
        ))
    &&& (pre_i.control.gas.remaining >= gas::VERYLOW && pre_i.stack@.len() < 2
            ==> spec_fail_after_charge(
            pre_i,
            post_i,
            InstructionResult::StackUnderflow,
            gas::VERYLOW,
        ))
    &&& (pre_i.control.gas.remaining >= gas::VERYLOW && pre_i.stack@.len() >= 2
            ==> (spec_op_ok(
            pre_i,
            post_i,
            gas::VERYLOW,
            pre_i.stack@.drop_last().drop_last().push(post_i.stack@.last()),
        ) && post_i.stack@.last().as_nat() == spec_bool_word(
            pre_i.stack@.last().as_nat() == pre_i.stack@[pre_i.stack@.len() - 2].as_nat(),
        )))
}
/// EQ: equality of the top two words; pushes 1 or 0.
pub fn eq(interpreter: &mut NewInterpreter)
    requires
        old(interpreter).wf(),
    ensures
        spec_eq_post(*old(interpreter), *final(interpreter)),
{
    cmp_op(interpreter, CmpKind::Eq);
}

/// The shared body of LT/GT/EQ.
fn cmp_op(interpreter: &mut NewInterpreter, kind: CmpKind)
    requires
        old(interpreter).wf(),
    ensures
        final(interpreter).wf(),
        spec_env_kept(*old(interpreter), *final(interpreter)),
        old(interpreter).control.gas.remaining < gas::VERYLOW ==> spec_gas_fail(
            *old(interpreter),
            *final(interpreter),
        ),
        old(interpreter).control.gas.remaining >= gas::VERYLOW && old(interpreter).stack@.len() < 2
            ==> spec_fail_after_charge(
            *old(interpreter),
            *final(interpreter),
            InstructionResult::StackUnderflow,
            gas::VERYLOW,
        ),
        old(interpreter).control.gas.remaining >= gas::VERYLOW && old(interpreter).stack@.len() >= 2
            ==> (spec_op_ok(
            *old(interpreter),
            *final(interpreter),
            gas::VERYLOW,
            old(interpreter).stack@.drop_last().drop_last().push(final(interpreter).stack@.last()),
        ) && final(interpreter).stack@.last().as_nat() == spec_bool_word(
            match kind {
                CmpKind::Lt => old(interpreter).stack@.last().as_nat() < old(
                    interpreter,
                ).stack@[old(interpreter).stack@.len() - 2].as_nat(),
                CmpKind::Gt => old(interpreter).stack@.last().as_nat() > old(
                    interpreter,
                ).stack@[old(interpreter).stack@.len() - 2].as_nat(),
                CmpKind::Eq => old(interpreter).stack@.last().as_nat() == old(
                    interpreter,
                ).stack@[old(interpreter).stack@.len() - 2].as_nat(),
            },
        )),
{
    if !charge(interpreter, gas::VERYLOW) {
        return ;
    }
    if interpreter.stack.len() < 2 {
        interpreter.control.instruction_result = InstructionResult::StackUnderflow;
        return ;
    }
    let a = pop_known(interpreter);
    let b = pop_known(interpreter);
    let flag: bool = match kind {
        CmpKind::Lt => a.lt(&b),
        CmpKind::Gt => b.lt(&a),
        CmpKind::Eq => {
            proof {
                crate::word::lemma_word_eq_nat(a, b);
            }
            a == b
        },
    };
    let w = if flag {
        U256::one()
    } else {
        U256::zero()
    };
    push_known(interpreter, w);
}


/// The exact contract of the matching instruction, as the dispatch states it.
pub open spec fn spec_iszero_post(pre_i: NewInterpreter, post_i: NewInterpreter) -> bool {
    &&& (post_i.wf())
    &&& (spec_env_kept(pre_i, post_i))
    &&& (pre_i.control.gas.remaining < gas::VERYLOW ==> spec_gas_fail(
            pre_i,
            post_i,
        ))
    &&& (pre_i.control.gas.remaining >= gas::VERYLOW && pre_i.stack@.len() < 1
            ==> spec_fail_after_charge(
            pre_i,
            post_i,
            InstructionResult::StackUnderflow,
            gas::VERYLOW,
        ))
    &&& (pre_i.control.gas.remaining >= gas::VERYLOW && pre_i.stack@.len() >= 1
            ==> (spec_op_ok(
            pre_i,
            post_i,
            gas::VERYLOW,
            pre_i.stack@.drop_last().push(post_i.stack@.last()),
        ) && post_i.stack@.last().as_nat() == spec_bool_word(
            pre_i.stack@.last().as_nat() == 0,
        )))
}
/// ISZERO: replace the top word by 1 if it is zero, else 0.
pub fn iszero(interpreter: &mut NewInterpreter)
    requires
        old(interpreter).wf(),
    ensures
        spec_iszero_post(*old(interpreter), *final(interpreter)),
{
    if !charge(interpreter, gas::VERYLOW) {
        return ;
    }
    if interpreter.stack.len() < 1 {
        interpreter.control.instruction_result = InstructionResult::StackUnderflow;
        return ;
    }
    let a = pop_known(interpreter);
    let w = if a.is_zero() {
        U256::one()
    } else {
        U256::zero()
    };
    push_known(interpreter, w);
}


/// The exact contract of the matching instruction, as the dispatch states it.
pub open spec fn spec_pop_post(pre_i: NewInterpreter, post_i: NewInterpreter) -> bool {
    &&& (post_i.wf())
    &&& (spec_env_kept(pre_i, post_i))
    &&& (pre_i.control.gas.remaining < gas::BASE ==> spec_gas_fail(
            pre_i,
            post_i,
        ))
    &&& (pre_i.control.gas.remaining >= gas::BASE && pre_i.stack@.len() < 1
            ==> spec_fail_after_charge(
            pre_i,
            post_i,
            InstructionResult::StackUnderflow,
            gas::BASE,
        ))
    &&& (pre_i.control.gas.remaining >= gas::BASE && pre_i.stack@.len() >= 1
            ==> spec_op_ok(
            pre_i,
            post_i,
            gas::BASE,
            pre_i.stack@.drop_last(),
        ))
}
/// POP: drop the top word.
pub fn pop(interpreter: &mut NewInterpreter)
    requires
        old(interpreter).wf(),
    ensures
        spec_pop_post(*old(interpreter), *final(interpreter)),
{
    if !charge(interpreter, gas::BASE) {
        return ;
    }
    if interpreter.stack.len() < 1 {
        interpreter.control.instruction_result = InstructionResult::StackUnderflow;
        return ;
    }
    let _ = pop_known(interpreter);
}

/// Pop a word the caller knows is there.
fn pop_known(interpreter: &mut NewInterpreter) -> (r: U256)
    requires
        old(interpreter).wf(),
        old(interpreter).stack@.len() >= 1,
    ensures
        final(interpreter).wf(),
        spec_env_kept(*old(interpreter), *final(interpreter)),
        final(interpreter).control.gas == old(interpreter).control.gas,
        final(interpreter).control.instruction_result == old(
            interpreter,
        ).control.instruction_result,
        r == old(interpreter).stack@.last(),
        final(interpreter).stack@ == old(interpreter).stack@.drop_last(),
{
    match interpreter.stack.pop() {
        Some(v) => v,
        None => {
            proof {
                assert(false);
            }
            U256::zero()
        },
    }
}


/// The exact contract of the matching instruction, as the dispatch states it.
pub open spec fn spec_jumpdest_post(pre_i: NewInterpreter, post_i: NewInterpreter) -> bool {
    &&& (post_i.wf())
    &&& (spec_env_kept(pre_i, post_i))
    &&& (pre_i.control.gas.remaining < gas::JUMPDEST ==> spec_gas_fail(
            pre_i,
            post_i,
        ))
    &&& (pre_i.control.gas.remaining >= gas::JUMPDEST ==> spec_op_ok(
            pre_i,
            post_i,
            gas::JUMPDEST,
            pre_i.stack@,
        ))
}
/// JUMPDEST: a marker; costs one unit of gas and does nothing else.
pub fn jumpdest(interpreter: &mut NewInterpreter)
    requires
        old(interpreter).wf(),
    ensures
        spec_jumpdest_post(*old(interpreter), *final(interpreter)),
{
    let _ = charge(interpreter, gas::JUMPDEST);
}


/// The exact contract of the matching instruction, as the dispatch states it.
pub open spec fn spec_jump_post(pre_i: NewInterpreter, post_i: NewInterpreter) -> bool {
    &&& (post_i.wf())
    &&& (spec_env_kept_pc(pre_i, post_i))
    &&& (pre_i.control.gas.remaining < gas::MID ==> (spec_gas_fail(
            pre_i,
            post_i,
        ) && post_i.bytecode.pc == pre_i.bytecode.pc))
    &&& (pre_i.control.gas.remaining >= gas::MID && pre_i.stack@.len() < 1
            ==> spec_fail_after_charge(
            pre_i,
            post_i,
            InstructionResult::StackUnderflow,
            gas::MID,
        ))
    &&& (pre_i.control.gas.remaining >= gas::MID && pre_i.stack@.len() >= 1
            ==> {
            let target = pre_i.stack@.last().as_nat();
            let valid = target <= usize::MAX && crate::bytecode::spec_is_jump_target(
                pre_i.bytecode.base.code@,
                target as int,
            );
            &&& post_i.stack@ == pre_i.stack@.drop_last()
            &&& post_i.control.gas.remaining == pre_i.control.gas.remaining
                - gas::MID
            &&& valid ==> post_i.control.instruction_result == pre_i.control.instruction_result && post_i.bytecode.pc == target
            &&& !valid ==> post_i.control.instruction_result
                == InstructionResult::InvalidJump
        })
}
/// JUMP: pop the target and move the program counter to it; the target must
/// be a valid jump destination.
pub fn jump(interpreter: &mut NewInterpreter)
    requires
        old(interpreter).wf(),
    ensures
        spec_jump_post(*old(interpreter), *final(interpreter)),
{
    if !charge(interpreter, gas::MID) {
        return ;
    }
    if interpreter.stack.len() < 1 {
        interpreter.control.instruction_result = InstructionResult::StackUnderflow;
        return ;
    }
    let target_w = pop_known(interpreter);
    jump_to(interpreter, &target_w);
}


/// The exact contract of the matching instruction, as the dispatch states it.
pub open spec fn spec_jumpi_post(pre_i: NewInterpreter, post_i: NewInterpreter) -> bool {
    &&& (post_i.wf())
    &&& (spec_env_kept_pc(pre_i, post_i))
    &&& (pre_i.control.gas.remaining < gas::HIGH ==> (spec_gas_fail(
            pre_i,
            post_i,
        ) && post_i.bytecode.pc == pre_i.bytecode.pc))
    &&& (pre_i.control.gas.remaining >= gas::HIGH && pre_i.stack@.len() < 2
            ==> spec_fail_after_charge(
            pre_i,
            post_i,
            InstructionResult::StackUnderflow,
            gas::HIGH,
        ))
    &&& (pre_i.control.gas.remaining >= gas::HIGH && pre_i.stack@.len() >= 2
            ==> {
            let target = pre_i.stack@.last().as_nat();
            let cond = pre_i.stack@[pre_i.stack@.len() - 2].as_nat();
            let valid = target <= usize::MAX && crate::bytecode::spec_is_jump_target(
                pre_i.bytecode.base.code@,
                target as int,
            );
            &&& post_i.stack@ == pre_i.stack@.drop_last().drop_last()
            &&& post_i.control.gas.remaining == pre_i.control.gas.remaining
                - gas::HIGH
            &&& cond == 0 ==> post_i.control.instruction_result == pre_i.control.instruction_result && post_i.bytecode.pc == pre_i.bytecode.pc
            &&& cond != 0 && valid ==> post_i.control.instruction_result == pre_i.control.instruction_result && post_i.bytecode.pc == target
            &&& cond != 0 && !valid ==> post_i.control.instruction_result
                == InstructionResult::InvalidJump
        })
}
/// JUMPI: pop target and condition; jump when the condition is nonzero.
pub fn jumpi(interpreter: &mut NewInterpreter)
    requires
        old(interpreter).wf(),
    ensures
        spec_jumpi_post(*old(interpreter), *final(interpreter)),
{
    if !charge(interpreter, gas::HIGH) {
        return ;
    }
    if interpreter.stack.len() < 2 {
        interpreter.control.instruction_result = InstructionResult::StackUnderflow;
        return ;
    }
    let target_w = pop_known(interpreter);
    let cond = pop_known(interpreter);
    if !cond.is_zero() {
        jump_to(interpreter, &target_w);
    }
}

/// Move the program counter to an absolute target, validating it.
fn jump_to(interpreter: &mut NewInterpreter, target_w: &U256)
    requires
        old(interpreter).wf(),
    ensures
        final(interpreter).wf(),
        spec_env_kept_pc(*old(interpreter), *final(interpreter)),
        final(interpreter).stack == old(interpreter).stack,
        final(interpreter).control.gas == old(interpreter).control.gas,
        ({
            let target = target_w.as_nat();
            let valid = target <= usize::MAX && crate::bytecode::spec_is_jump_target(
                old(interpreter).bytecode.base.code@,
                target as int,
            );
            &&& valid ==> final(interpreter).control.instruction_result == old(
                interpreter,
            ).control.instruction_result && final(interpreter).bytecode.pc == target
            &&& !valid ==> final(interpreter).control.instruction_result
                == InstructionResult::InvalidJump && final(interpreter).bytecode.pc == old(
                interpreter,
            ).bytecode.pc
        }),
{
    match target_w.as_usize() {
        Some(t) => {
            if !interpreter.bytecode.absolute_jump(t) {
                interpreter.control.instruction_result = InstructionResult::InvalidJump;
            }
        },
        None => {
            proof {
                if crate::bytecode::spec_is_code_position(
                    interpreter.bytecode.base.code@,
                    target_w.as_nat() as int,
                ) {
                }
            }
            interpreter.control.instruction_result = InstructionResult::InvalidJump;
        },
    }
}


/// The exact contract of the matching instruction, as the dispatch states it.
pub open spec fn spec_pc_post(pre_i: NewInterpreter, post_i: NewInterpreter) -> bool {
    &&& (post_i.wf())
    &&& (spec_env_kept(pre_i, post_i))
    &&& (pre_i.control.gas.remaining < gas::BASE ==> spec_gas_fail(
            pre_i,
            post_i,
        ))
    &&& (pre_i.control.gas.remaining >= gas::BASE && pre_i.stack@.len()
            >= STACK_LIMIT ==> spec_fail_after_charge(
            pre_i,
            post_i,
            InstructionResult::StackOverflow,
            gas::BASE,
        ))
    &&& (pre_i.control.gas.remaining >= gas::BASE && pre_i.stack@.len()
            < STACK_LIMIT ==> (spec_op_ok(
            pre_i,
            post_i,
            gas::BASE,
            pre_i.stack@.push(post_i.stack@.last()),
        ) && post_i.stack@.last().as_nat() == (if pre_i.bytecode.pc >= 1 {
            pre_i.bytecode.pc - 1
        } else {
            0int
        })))
}
/// PC: push the program counter of this instruction (one before the
/// already-advanced cursor).
pub fn pc(interpreter: &mut NewInterpreter)
    requires
        old(interpreter).wf(),
    ensures
        spec_pc_post(*old(interpreter), *final(interpreter)),
{
    let here = if interpreter.bytecode.pc() >= 1 {
        interpreter.bytecode.pc() - 1
    } else {
        0
    };
    let w = usize_to_word(here);
    push_word(interpreter, gas::BASE, w);
}


/// The exact contract of the matching instruction, as the dispatch states it.
pub open spec fn spec_gas_op_post(pre_i: NewInterpreter, post_i: NewInterpreter) -> bool {
    &&& (post_i.wf())
    &&& (spec_env_kept(pre_i, post_i))
    &&& (pre_i.control.gas.remaining < gas::BASE ==> spec_gas_fail(
            pre_i,
            post_i,
        ))
    &&& (pre_i.control.gas.remaining >= gas::BASE && pre_i.stack@.len()
            >= STACK_LIMIT ==> spec_fail_after_charge(
            pre_i,
            post_i,
            InstructionResult::StackOverflow,
            gas::BASE,
        ))
    &&& (pre_i.control.gas.remaining >= gas::BASE && pre_i.stack@.len()
            < STACK_LIMIT ==> (spec_op_ok(
            pre_i,
            post_i,
            gas::BASE,
            pre_i.stack@.push(post_i.stack@.last()),
        ) && post_i.stack@.last().as_nat() == pre_i.control.gas.remaining
            - gas::BASE))
}
/// GAS: push the gas remaining after this instruction's own charge.
pub fn gas_op(interpreter: &mut NewInterpreter)
    requires
        old(interpreter).wf(),
    ensures
        spec_gas_op_post(*old(interpreter), *final(interpreter)),
{
    if !charge(interpreter, gas::BASE) {
        return ;
    }
    let w = U256::from_u64(interpreter.control.gas.remaining());
    if !interpreter.stack.push(w) {
        interpreter.control.instruction_result = InstructionResult::StackOverflow;
    }
}


/// The exact contract of the matching instruction, as the dispatch states it.
pub open spec fn spec_push0_post(pre_i: NewInterpreter, post_i: NewInterpreter) -> bool {
    &&& (post_i.wf())
    &&& (spec_env_kept(pre_i, post_i))
    &&& (!spec_enabled(pre_i, SpecId::Shanghai) ==> (post_i.control.instruction_result == InstructionResult::NotActivated && post_i.control.gas == pre_i.control.gas && post_i.stack == pre_i.stack))
    &&& (spec_enabled(pre_i, SpecId::Shanghai) && pre_i.control.gas.remaining
            < gas::BASE ==> spec_gas_fail(pre_i, post_i))
    &&& (spec_enabled(pre_i, SpecId::Shanghai) && pre_i.control.gas.remaining
            >= gas::BASE && pre_i.stack@.len() >= STACK_LIMIT
            ==> spec_fail_after_charge(
            pre_i,
            post_i,
            InstructionResult::StackOverflow,
            gas::BASE,
        ))
    &&& (spec_enabled(pre_i, SpecId::Shanghai) && pre_i.control.gas.remaining
            >= gas::BASE && pre_i.stack@.len() < STACK_LIMIT ==> (spec_op_ok(
            pre_i,
            post_i,
            gas::BASE,
            pre_i.stack@.push(post_i.stack@.last()),
        ) && post_i.stack@.last().as_nat() == 0))
}
/// PUSH0: push the zero word (Shanghai on).
pub fn push0(interpreter: &mut NewInterpreter)
    requires
        old(interpreter).wf(),
    ensures
        spec_push0_post(*old(interpreter), *final(interpreter)),
{
    if !interpreter.runtime_flag.spec_id.is_enabled_in(SpecId::Shanghai) {
        interpreter.control.instruction_result = InstructionResult::NotActivated;
        return ;
    }
    push_word(interpreter, gas::BASE, U256::zero());
}

/// Whether the interpreter's hardfork includes `fork`.
pub open spec fn spec_enabled(i: NewInterpreter, fork: SpecId) -> bool {
    crate::env::spec_fork_rank(i.runtime_flag.spec_id) >= crate::env::spec_fork_rank(fork)
}

/// The big-endian value of a byte string.
pub open spec fn spec_be_word(s: Seq<u8>) -> nat
    decreases s.len(),
{
    if s.len() == 0 {
        0
    } else {
        (spec_be_word(s.drop_last()) * 256 + s.last()) as nat
    }
}

/// 256^n.
pub open spec fn spec_pow_bytes(n: nat) -> nat
    decreases n,
{
    if n == 0 {
        1
    } else {
        256 * spec_pow_bytes((n - 1) as nat)
    }
}

/// A big-endian value is bounded by 256 to the length.
proof fn lemma_be_word_bound(s: Seq<u8>)
    ensures
        spec_be_word(s) < spec_pow_bytes(s.len()),
    decreases s.len(),
{
    if s.len() > 0 {
        lemma_be_word_bound(s.drop_last());
        assert(spec_be_word(s) < spec_pow_bytes(s.len())) by (nonlinear_arith)
            requires
                spec_be_word(s) == spec_be_word(s.drop_last()) * 256 + s.last(),
                spec_be_word(s.drop_last()) < spec_pow_bytes((s.len() - 1) as nat),
                s.last() < 256,
                spec_pow_bytes(s.len()) == 256 * spec_pow_bytes((s.len() - 1) as nat),
        ;
    }
}

/// Accumulate the big-endian value of up to 16 bytes of code into a u128.
fn be_accumulate(code: &Vec<u8>, start: usize, count: usize) -> (r: u128)
    requires
        count <= 16,
        start + count <= code@.len(),
    ensures
        r == spec_be_word(code@.subrange(start as int, start + count)),
{
    let clen = code.len();
    let mut r: u128 = 0;
    let mut i: usize = 0;
    proof {
        assert(spec_pow_bytes(16) == 0x1_0000_0000_0000_0000_0000_0000_0000_0000) by {
            reveal_with_fuel(spec_pow_bytes, 17);
        }
        assert(code@.subrange(start as int, start as int) =~= Seq::<u8>::empty());
        assert(spec_be_word(Seq::<u8>::empty()) == 0);
        assert(spec_pow_bytes(0) == 1);
    }
    while i < count
        invariant
            count <= 16,
            start + count <= code@.len(),
            clen == code@.len(),
            i <= count,
            r == spec_be_word(code@.subrange(start as int, start + i)),
            r < spec_pow_bytes(i as nat),
            spec_pow_bytes(16) == 0x1_0000_0000_0000_0000_0000_0000_0000_0000,
        decreases count - i,
    {
        proof {
            lemma_pow_bytes_mono(i as nat, 15);
            assert(spec_pow_bytes(15) * 256 == spec_pow_bytes(16)) by {
                reveal_with_fuel(spec_pow_bytes, 17);
            }
            assert(r * 256 + 255 < spec_pow_bytes(16)) by (nonlinear_arith)
                requires
                    r < spec_pow_bytes(15),
                    spec_pow_bytes(15) * 256 == spec_pow_bytes(16),
            ;
        }
        let b = code[start + i];
        r = r * 256 + (b as u128);
        i = i + 1;
        proof {
            assert(code@.subrange(start as int, start + i).drop_last() =~= code@.subrange(
                start as int,
                start + i - 1,
            ));
            assert(code@.subrange(start as int, start + i).last() == code@[start + i - 1]);
            lemma_be_word_bound(code@.subrange(start as int, start + i));
        }
    }
    proof {
        if i < 16 {
            lemma_pow_bytes_mono(i as nat, 16);
        }
    }
    r
}

/// 256^n grows with n.
proof fn lemma_pow_bytes_mono(a: nat, b: nat)
    requires
        a <= b,
    ensures
        spec_pow_bytes(a) <= spec_pow_bytes(b),
        spec_pow_bytes(a) >= 1,
    decreases b,
{
    if a < b {
        lemma_pow_bytes_mono(a, (b - 1) as nat);
    } else if b > 0 {
        lemma_pow_bytes_mono((a - 1) as nat, (b - 1) as nat);
    }
}

/// A big-endian string splits at any point: high part shifted, low part
/// added.
proof fn lemma_be_word_split(s: Seq<u8>, k: int)
    requires
        0 <= k <= s.len(),
    ensures
        spec_be_word(s) == spec_be_word(s.subrange(0, k)) * spec_pow_bytes((s.len() - k) as nat)
            + spec_be_word(s.subrange(k, s.len() as int)),
    decreases s.len() - k,
{
    if k == s.len() {
        assert(s.subrange(0, k) =~= s);
        assert(s.subrange(k, s.len() as int) =~= Seq::<u8>::empty());
        assert(spec_be_word(Seq::<u8>::empty()) == 0);
        assert(spec_pow_bytes(0) == 1);
        assert(spec_be_word(s) * spec_pow_bytes((s.len() - k) as nat) == spec_be_word(s))
            by (nonlinear_arith)
            requires
                spec_pow_bytes((s.len() - k) as nat) == 1,
        ;
    } else {
        lemma_be_word_split(s.drop_last(), k);
        assert(s.drop_last().subrange(0, k) =~= s.subrange(0, k));
        assert(s.drop_last().subrange(k, s.len() - 1) =~= s.subrange(k, s.len() as int).drop_last());
        assert(s.subrange(k, s.len() as int).last() == s.last());
        let hi = spec_be_word(s.subrange(0, k));
        let lo1 = spec_be_word(s.subrange(k, s.len() as int).drop_last());
        let p1 = spec_pow_bytes((s.len() - 1 - k) as nat);
        assert(spec_be_word(s) == spec_be_word(s.drop_last()) * 256 + s.last());
        assert(spec_be_word(s.drop_last()) == hi * p1 + lo1);
        assert((hi * p1 + lo1) * 256 + s.last() == hi * (p1 * 256) + (lo1 * 256 + s.last()))
            by (nonlinear_arith);
        assert(spec_pow_bytes((s.len() - k) as nat) == 256 * p1);
        assert(hi * (p1 * 256) == hi * spec_pow_bytes((s.len() - k) as nat)) by (nonlinear_arith)
            requires
                spec_pow_bytes((s.len() - k) as nat) == 256 * p1,
        ;
    }
}


/// The exact contract of the matching instruction, as the dispatch states it.
pub open spec fn spec_push_n_post(pre_i: NewInterpreter, post_i: NewInterpreter, n: usize) -> bool {
    &&& (post_i.wf())
    &&& (spec_env_kept_pc(pre_i, post_i))
    &&& (pre_i.control.gas.remaining < gas::VERYLOW ==> (spec_gas_fail(
            pre_i,
            post_i,
        ) && post_i.bytecode.pc == pre_i.bytecode.pc))
    &&& (pre_i.control.gas.remaining >= gas::VERYLOW && pre_i.stack@.len()
            >= STACK_LIMIT ==> spec_fail_after_charge(
            pre_i,
            post_i,
            InstructionResult::StackOverflow,
            gas::VERYLOW,
        ))
    &&& (pre_i.control.gas.remaining >= gas::VERYLOW && pre_i.stack@.len()
            < STACK_LIMIT ==> (spec_op_ok(
            pre_i,
            post_i,
            gas::VERYLOW,
            pre_i.stack@.push(post_i.stack@.last()),
        ) && post_i.stack@.last().as_nat() == spec_be_word(
            pre_i.bytecode.base.code@.subrange(
                spec_imm_start(pre_i),
                spec_imm_end(pre_i, n as int),
            ),
        ) && post_i.bytecode.pc == spec_imm_end(pre_i, n as int)))
}
/// PUSHn: read the immediate bytes past the opcode, push their big-endian
/// value (bytes past the end of the code read as zero only when the code is
/// exhausted: the immediate is truncated there), and skip the cursor past
/// the immediate.
pub fn push_n(interpreter: &mut NewInterpreter, n: usize)
    requires
        old(interpreter).wf(),
        1 <= n <= 32,
    ensures
        spec_push_n_post(*old(interpreter), *final(interpreter), n),
{
    if !charge(interpreter, gas::VERYLOW) {
        return ;
    }
    if interpreter.stack.len() >= STACK_LIMIT {
        interpreter.control.instruction_result = InstructionResult::StackOverflow;
        return ;
    }
    let code_len = interpreter.bytecode.base.code_len();
    let start = if interpreter.bytecode.pc() < code_len {
        interpreter.bytecode.pc()
    } else {
        code_len
    };
    let count = if n <= code_len - start {
        n
    } else {
        code_len - start
    };
    let (hi, lo): (u128, u128) = if count <= 16 {
        (0, be_accumulate(&interpreter.bytecode.base.code, start, count))
    } else {
        let hi_n = count - 16;
        let h = be_accumulate(&interpreter.bytecode.base.code, start, hi_n);
        let l = be_accumulate(&interpreter.bytecode.base.code, start + hi_n, 16);
        proof {
            let s = interpreter.bytecode.base.code@.subrange(start as int, start + count);
            lemma_be_word_split(s, hi_n as int);
            assert(s.subrange(0, hi_n as int) =~= interpreter.bytecode.base.code@.subrange(
                start as int,
                start + hi_n,
            ));
            assert(s.subrange(hi_n as int, s.len() as int)
                =~= interpreter.bytecode.base.code@.subrange(start + hi_n, start + count));
            assert(spec_pow_bytes(16) == 0x1_0000_0000_0000_0000_0000_0000_0000_0000) by {
                reveal_with_fuel(spec_pow_bytes, 17);
            }
            lemma_be_word_bound(interpreter.bytecode.base.code@.subrange(start as int, start + hi_n));
        }
        (h, l)
    };
    let w = U256 { hi, lo };
    proof {
        if count <= 16 {
            assert(w.as_nat() == spec_be_word(
                interpreter.bytecode.base.code@.subrange(start as int, start + count),
            ));
        } else {
            assert(w.as_nat() == spec_be_word(
                interpreter.bytecode.base.code@.subrange(start as int, start + count),
            )) by (nonlinear_arith)
                requires
                    w.as_nat() == w.hi * crate::word::pow128() + w.lo,
                    crate::word::pow128() == 0x1_0000_0000_0000_0000_0000_0000_0000_0000,
                    spec_be_word(
                        interpreter.bytecode.base.code@.subrange(start as int, start + count),
                    ) == w.hi * 0x1_0000_0000_0000_0000_0000_0000_0000_0000 + w.lo,
            ;
        }
        assert(interpreter.bytecode.base.code@.subrange(start as int, start + count)
            =~= interpreter.bytecode.base.code@.subrange(
            spec_imm_start(*interpreter),
            spec_imm_end(*interpreter, n as int),
        ));
    }
    let new_pc = start + count;
    interpreter.bytecode.pc = new_pc;
    push_known(interpreter, w);
}

/// Where a PUSH immediate begins: the cursor, clamped to the code end.
pub open spec fn spec_imm_start(i: NewInterpreter) -> int {
    if i.bytecode.pc < i.bytecode.base.code@.len() {
        i.bytecode.pc as int
    } else {
        i.bytecode.base.code@.len() as int
    }
}

/// Where a PUSH immediate of `n` bytes ends: `n` past its start, clamped to
/// the code end.
pub open spec fn spec_imm_end(i: NewInterpreter, n: int) -> int {
    if spec_imm_start(i) + n <= i.bytecode.base.code@.len() {
        spec_imm_start(i) + n
    } else {
        i.bytecode.base.code@.len() as int
    }
}


/// The exact contract of the matching instruction, as the dispatch states it.
pub open spec fn spec_dup_post(pre_i: NewInterpreter, post_i: NewInterpreter, n: usize) -> bool {
    &&& (post_i.wf())
    &&& (spec_env_kept(pre_i, post_i))
    &&& (pre_i.control.gas.remaining < gas::VERYLOW ==> spec_gas_fail(
            pre_i,
            post_i,
        ))
    &&& (pre_i.control.gas.remaining >= gas::VERYLOW && !(n <= pre_i.stack@.len() && pre_i.stack@.len() < STACK_LIMIT) ==> spec_fail_after_charge(
            pre_i,
            post_i,
            if n <= pre_i.stack@.len() {
                InstructionResult::StackOverflow
            } else {
                InstructionResult::StackUnderflow
            },
            gas::VERYLOW,
        ))
    &&& (pre_i.control.gas.remaining >= gas::VERYLOW && n <= pre_i.stack@.len() && pre_i.stack@.len() < STACK_LIMIT ==> spec_op_ok(
            pre_i,
            post_i,
            gas::VERYLOW,
            pre_i.stack@.push(
                pre_i.stack@[pre_i.stack@.len() - n],
            ),
        ))
}
/// DUPn: duplicate the n-th word from the top.
pub fn dup(interpreter: &mut NewInterpreter, n: usize)
    requires
        old(interpreter).wf(),
        1 <= n <= 16,
    ensures
        spec_dup_post(*old(interpreter), *final(interpreter), n),
{
    if !charge(interpreter, gas::VERYLOW) {
        return ;
    }
    if interpreter.stack.len() < n {
        interpreter.control.instruction_result = InstructionResult::StackUnderflow;
        return ;
    }
    if !interpreter.stack.dup(n) {
        interpreter.control.instruction_result = InstructionResult::StackOverflow;
    }
}


/// The exact contract of the matching instruction, as the dispatch states it.
pub open spec fn spec_swap_post(pre_i: NewInterpreter, post_i: NewInterpreter, n: usize) -> bool {
    &&& (post_i.wf())
    &&& (spec_env_kept(pre_i, post_i))
    &&& (pre_i.control.gas.remaining < gas::VERYLOW ==> spec_gas_fail(
            pre_i,
            post_i,
        ))
    &&& (pre_i.control.gas.remaining >= gas::VERYLOW && pre_i.stack@.len() <= n
            ==> spec_fail_after_charge(
            pre_i,
            post_i,
            InstructionResult::StackUnderflow,
            gas::VERYLOW,
        ))
    &&& (pre_i.control.gas.remaining >= gas::VERYLOW && pre_i.stack@.len() > n
            ==> spec_op_ok(
            pre_i,
            post_i,
            gas::VERYLOW,
            pre_i.stack@.update(
                pre_i.stack@.len() - 1,
                pre_i.stack@[pre_i.stack@.len() - 1 - n],
            ).update(
                pre_i.stack@.len() - 1 - n,
                pre_i.stack@[pre_i.stack@.len() - 1],
            ),
        ))
}
/// SWAPn: exchange the top word with the word n positions below it.
pub fn swap(interpreter: &mut NewInterpreter, n: usize)
    requires
        old(interpreter).wf(),
        1 <= n <= 16,
    ensures
        spec_swap_post(*old(interpreter), *final(interpreter), n),
{
    if !charge(interpreter, gas::VERYLOW) {
        return ;
    }
    if !interpreter.stack.swap(n) {
        interpreter.control.instruction_result = InstructionResult::StackUnderflow;
    }
}

/// A usize as a word.
fn usize_to_word(x: usize) -> (r: U256)
    ensures
        r.as_nat() == x,
{
    U256 { hi: 0, lo: x as u128 }
}


/// The exact contract of every opcode byte: which handler a byte gets, and
/// that handler's full postcondition. A dispatch that ran the wrong handler
/// would not satisfy it.
#[verifier::opaque]
pub open spec fn spec_instruction_post(
    op: u8,
    pre_i: NewInterpreter,
    post_i: NewInterpreter,
    pre_c: Context,
    post_c: Context,
    pre_m: SharedMemory,
    post_m: SharedMemory,
) -> bool {
    if op == 0x00 {
        spec_stop_post(pre_i, post_i) && post_c == pre_c && post_m == pre_m
    } else if op == 0x01 {
        spec_add_post(pre_i, post_i) && post_c == pre_c && post_m == pre_m
    } else if op == 0x03 {
        spec_sub_post(pre_i, post_i) && post_c == pre_c && post_m == pre_m
    } else if op == 0x10 {
        spec_lt_post(pre_i, post_i) && post_c == pre_c && post_m == pre_m
    } else if op == 0x11 {
        spec_gt_post(pre_i, post_i) && post_c == pre_c && post_m == pre_m
    } else if op == 0x14 {
        spec_eq_post(pre_i, post_i) && post_c == pre_c && post_m == pre_m
    } else if op == 0x15 {
        spec_iszero_post(pre_i, post_i) && post_c == pre_c && post_m == pre_m
    } else if op == 0x30 {
        spec_address_post(pre_i, post_i) && post_c == pre_c && post_m == pre_m
    } else if op == 0x31 {
        spec_balance_post(pre_i, post_i, pre_c, post_c) && post_m == pre_m
    } else if op == 0x32 {
        spec_origin_post(pre_i, post_i, pre_c, post_c) && post_m == pre_m
    } else if op == 0x33 {
        spec_caller_post(pre_i, post_i) && post_c == pre_c && post_m == pre_m
    } else if op == 0x34 {
        spec_callvalue_post(pre_i, post_i) && post_c == pre_c && post_m == pre_m
    } else if op == 0x36 {
        spec_calldatasize_post(pre_i, post_i) && post_c == pre_c && post_m == pre_m
    } else if op == 0x3A {
        spec_gasprice_post(pre_i, post_i, pre_c, post_c) && post_m == pre_m
    } else if op == 0x41 {
        spec_coinbase_post(pre_i, post_i, pre_c, post_c) && post_m == pre_m
    } else if op == 0x42 {
        spec_timestamp_post(pre_i, post_i, pre_c, post_c) && post_m == pre_m
    } else if op == 0x43 {
        spec_block_number_post(pre_i, post_i, pre_c, post_c) && post_m == pre_m
    } else if op == 0x45 {
        spec_gaslimit_post(pre_i, post_i, pre_c, post_c) && post_m == pre_m
    } else if op == 0x46 {
        spec_chainid_post(pre_i, post_i, pre_c, post_c) && post_m == pre_m
    } else if op == 0x47 {
        spec_selfbalance_post(pre_i, post_i, pre_c, post_c) && post_m == pre_m
    } else if op == 0x48 {
        spec_basefee_post(pre_i, post_i, pre_c, post_c) && post_m == pre_m
    } else if op == 0x49 {
        spec_blob_hash_post(pre_i, post_i, pre_c, post_c) && post_m == pre_m
    } else if op == 0x4A {
        spec_blob_basefee_post(pre_i, post_i, pre_c, post_c) && post_m == pre_m
    } else if op == 0x50 {
        spec_pop_post(pre_i, post_i) && post_c == pre_c && post_m == pre_m
    } else if op == 0x53 {
        spec_mstore8_post(pre_i, post_i, pre_m, post_m) && post_c == pre_c
    } else if op == 0x54 {
        spec_sload_post(pre_i, post_i, pre_c, post_c) && post_m == pre_m
    } else if op == 0x55 {
        spec_sstore_post(pre_i, post_i, pre_c, post_c) && post_m == pre_m
    } else if op == 0x56 {
        spec_jump_post(pre_i, post_i) && post_c == pre_c && post_m == pre_m
    } else if op == 0x57 {
        spec_jumpi_post(pre_i, post_i) && post_c == pre_c && post_m == pre_m
    } else if op == 0x58 {
        spec_pc_post(pre_i, post_i) && post_c == pre_c && post_m == pre_m
    } else if op == 0x59 {
        spec_msize_post(pre_i, post_i, pre_m) && post_c == pre_c && post_m == pre_m
    } else if op == 0x5A {
        spec_gas_op_post(pre_i, post_i) && post_c == pre_c && post_m == pre_m
    } else if op == 0x5B {
        spec_jumpdest_post(pre_i, post_i) && post_c == pre_c && post_m == pre_m
    } else if op == 0x5C {
        spec_tload_post(pre_i, post_i, pre_c, post_c) && post_m == pre_m
    } else if op == 0x5D {
        spec_tstore_post(pre_i, post_i, pre_c, post_c) && post_m == pre_m
    } else if op == 0x5E {
        spec_mcopy_post(pre_i, post_i, pre_m, post_m) && post_c == pre_c
    } else if op == 0x5F {
        spec_push0_post(pre_i, post_i) && post_c == pre_c && post_m == pre_m
    } else if 0x60 <= op <= 0x7F {
        spec_push_n_post(pre_i, post_i, (op - 0x5F) as usize) && post_c == pre_c && post_m == pre_m
    } else if 0x80 <= op <= 0x8F {
        spec_dup_post(pre_i, post_i, (op - 0x7F) as usize) && post_c == pre_c && post_m == pre_m
    } else if 0x90 <= op <= 0x9F {
        spec_swap_post(pre_i, post_i, (op - 0x8F) as usize) && post_c == pre_c && post_m == pre_m
    } else if 0xA0 <= op <= 0xA4 {
        spec_log_post(pre_i, post_i, pre_c, post_c, pre_m, post_m, (op - 0xA0) as usize)
    } else if op == 0xF1 {
        spec_call_post(pre_i, post_i, pre_c, post_c, pre_m, post_m, false)
    } else if op == 0xF3 {
        spec_ret_post(pre_i, post_i, pre_m, post_m) && post_c == pre_c
    } else if op == 0xFA {
        spec_call_post(pre_i, post_i, pre_c, post_c, pre_m, post_m, true)
    } else if op == 0xFD {
        spec_revert_post(pre_i, post_i, pre_m, post_m) && post_c == pre_c
    } else if op == 0xFF {
        spec_selfdestruct_post(pre_i, post_i, pre_c, post_c) && post_m == pre_m
    } else {
        spec_invalid_op_post(pre_i, post_i) && post_c == pre_c && post_m == pre_m
    }
}

/// The dispatch from opcode bytes to handlers: the 256-entry instruction
/// table, written as one total match.
pub fn instruction_dispatch(
    op: u8,
    interpreter: &mut NewInterpreter,
    memory: &mut SharedMemory,
    ctx: &mut Context,
)
    requires
        old(interpreter).wf(),
        old(ctx).wf(),
        old(memory).wf(),
        old(interpreter).control.next_action matches InterpreterAction::Unset,
        old(interpreter).control.instruction_result matches InstructionResult::Continue,
    ensures
        spec_instr_post(
            *old(interpreter),
            *final(interpreter),
            *old(ctx),
            *final(ctx),
            *old(memory),
            *final(memory),
        ),
        spec_instruction_post(
            op,
            *old(interpreter),
            *final(interpreter),
            *old(ctx),
            *final(ctx),
            *old(memory),
            *final(memory),
        ),
{
    proof {
        reveal(spec_instruction_post);
    }
    if op == 0x00 {
        stop(interpreter);
        proof {
            lemma_ctx_frame_refl(*ctx);
        }
    } else if op == 0x01 {
        crate::instructions::add(interpreter);
        proof {
            lemma_ctx_frame_refl(*ctx);
        }
    } else if op == 0x03 {
        crate::instructions::sub(interpreter);
        proof {
            lemma_ctx_frame_refl(*ctx);
        }
    } else if op == 0x10 {
        lt(interpreter);
        proof {
            lemma_ctx_frame_refl(*ctx);
        }
    } else if op == 0x11 {
        gt(interpreter);
        proof {
            lemma_ctx_frame_refl(*ctx);
        }
    } else if op == 0x14 {
        eq(interpreter);
        proof {
            lemma_ctx_frame_refl(*ctx);
        }
    } else if op == 0x15 {
        iszero(interpreter);
        proof {
            lemma_ctx_frame_refl(*ctx);
        }
    } else if op == 0x30 {
        address(interpreter);
        proof {
            lemma_ctx_frame_refl(*ctx);
        }
    } else if op == 0x31 {
        balance(interpreter, ctx);
    } else if op == 0x32 {
        origin(interpreter, ctx);
        proof {
            lemma_ctx_frame_refl(*ctx);
        }
    } else if op == 0x33 {
        caller(interpreter);
        proof {
            lemma_ctx_frame_refl(*ctx);
        }
    } else if op == 0x34 {
        callvalue(interpreter);
        proof {
            lemma_ctx_frame_refl(*ctx);
        }
    } else if op == 0x36 {
        calldatasize(interpreter);
        proof {
            lemma_ctx_frame_refl(*ctx);
        }
    } else if op == 0x3A {
        gasprice(interpreter, ctx);
        proof {
            lemma_ctx_frame_refl(*ctx);
        }
    } else if op == 0x41 {
        coinbase(interpreter, ctx);
        proof {
            lemma_ctx_frame_refl(*ctx);
        }
    } else if op == 0x42 {
        timestamp(interpreter, ctx);
        proof {
            lemma_ctx_frame_refl(*ctx);
        }
    } else if op == 0x43 {
        block_number(interpreter, ctx);
        proof {
            lemma_ctx_frame_refl(*ctx);
        }
    } else if op == 0x45 {
        gaslimit(interpreter, ctx);
        proof {
            lemma_ctx_frame_refl(*ctx);
        }
    } else if op == 0x46 {
        chainid(interpreter, ctx);
        proof {
            lemma_ctx_frame_refl(*ctx);
        }
    } else if op == 0x47 {
        selfbalance(interpreter, ctx);
    } else if op == 0x48 {
        basefee(interpreter, ctx);
        proof {
            lemma_ctx_frame_refl(*ctx);
        }
    } else if op == 0x49 {
        blob_hash(interpreter, ctx);
        proof {
            lemma_ctx_frame_refl(*ctx);
        }
    } else if op == 0x4A {
        blob_basefee(interpreter, ctx);
        proof {
            lemma_ctx_frame_refl(*ctx);
        }
    } else if op == 0x50 {
        pop(interpreter);
        proof {
            lemma_ctx_frame_refl(*ctx);
        }
    } else if op == 0x53 {
        mstore8(interpreter, memory);
        proof {
            lemma_ctx_frame_refl(*ctx);
        }
    } else if op == 0x54 {
        sload(interpreter, ctx);
    } else if op == 0x55 {
        sstore(interpreter, ctx);
    } else if op == 0x56 {
        jump(interpreter);
        proof {
            lemma_ctx_frame_refl(*ctx);
        }
    } else if op == 0x57 {
        jumpi(interpreter);
        proof {
            lemma_ctx_frame_refl(*ctx);
        }
    } else if op == 0x58 {
        pc(interpreter);
        proof {
            lemma_ctx_frame_refl(*ctx);
        }
    } else if op == 0x59 {
        msize(interpreter, memory);
        proof {
            lemma_ctx_frame_refl(*ctx);
        }
    } else if op == 0x5A {
        gas_op(interpreter);
        proof {
            lemma_ctx_frame_refl(*ctx);
        }
    } else if op == 0x5B {
        jumpdest(interpreter);
        proof {
            lemma_ctx_frame_refl(*ctx);
        }
    } else if op == 0x5C {
        tload(interpreter, ctx);
        proof {
            lemma_ctx_frame_refl(*ctx);
        }
    } else if op == 0x5D {
        tstore(interpreter, ctx);
    } else if op == 0x5E {
        mcopy(interpreter, memory);
        proof {
            lemma_ctx_frame_refl(*ctx);
        }
    } else if op == 0x5F {
        push0(interpreter);
        proof {
            lemma_ctx_frame_refl(*ctx);
        }
    } else if 0x60 <= op && op <= 0x7F {
        push_n(interpreter, (op - 0x5F) as usize);
        proof {
            lemma_ctx_frame_refl(*ctx);
        }
    } else if 0x80 <= op && op <= 0x8F {
        dup(interpreter, (op - 0x7F) as usize);
        proof {
            lemma_ctx_frame_refl(*ctx);
        }
    } else if 0x90 <= op && op <= 0x9F {
        swap(interpreter, (op - 0x8F) as usize);
        proof {
            lemma_ctx_frame_refl(*ctx);
        }
    } else if 0xA0 <= op && op <= 0xA4 {
        log(interpreter, memory, ctx, (op - 0xA0) as usize);
    } else if op == 0xF1 {
        call(interpreter, memory, ctx, false);
    } else if op == 0xF3 {
        ret(interpreter, memory);
        proof {
            lemma_ctx_frame_refl(*ctx);
        }
    } else if op == 0xFA {
        call(interpreter, memory, ctx, true);
    } else if op == 0xFD {
        revert(interpreter, memory);
        proof {
            lemma_ctx_frame_refl(*ctx);
        }
    } else if op == 0xFF {
        selfdestruct(interpreter, ctx);
    } else {
        invalid_op(interpreter);
        proof {
            lemma_ctx_frame_refl(*ctx);
        }
    }
}

/// A context frames itself.
proof fn lemma_ctx_frame_refl(c: Context)
    requires
        c.wf(),
    ensures
        spec_ctx_frame(c, c),
{
    assert(c.journal.journal@.subrange(0, c.journal.journal@.len() as int) =~= c.journal.journal@);
    assert(c.journal.hist@.subrange(0, c.journal.hist@.len() as int) =~= c.journal.hist@);
}

/// The common shape of a "push one value" instruction with static cost
/// `cost` pushing a word of value `v`.
pub open spec fn spec_push_like(pre: NewInterpreter, post: NewInterpreter, cost: u64, v: nat) -> bool {
    &&& spec_env_kept(pre, post)
    &&& pre.control.gas.remaining < cost ==> spec_gas_fail(pre, post)
    &&& (pre.control.gas.remaining >= cost && pre.stack@.len() >= STACK_LIMIT)
        ==> spec_fail_after_charge(pre, post, InstructionResult::StackOverflow, cost)
    &&& (pre.control.gas.remaining >= cost && pre.stack@.len() < STACK_LIMIT) ==> (spec_op_ok(
        pre,
        post,
        cost,
        pre.stack@.push(post.stack@.last()),
    ) && post.stack@.last().as_nat() == v)
}


/// The exact contract of the matching instruction, as the dispatch states it.
pub open spec fn spec_address_post(pre_i: NewInterpreter, post_i: NewInterpreter) -> bool {
    &&& (post_i.wf())
    &&& (spec_push_like(
            pre_i,
            post_i,
            gas::BASE,
            pre_i.input.target_address.as_nat(),
        ))
}
/// ADDRESS: push the executing account's address.
pub fn address(interpreter: &mut NewInterpreter)
    requires
        old(interpreter).wf(),
    ensures
        spec_address_post(*old(interpreter), *final(interpreter)),
{
    let w = interpreter.input.target_address.into_word();
    push_word(interpreter, gas::BASE, w);
}


/// The exact contract of the matching instruction, as the dispatch states it.
pub open spec fn spec_origin_post(pre_i: NewInterpreter, post_i: NewInterpreter, pre_c: Context, post_c: Context) -> bool {
    &&& (post_i.wf())
    &&& (post_c == pre_c)
    &&& (spec_push_like(
            pre_i,
            post_i,
            gas::BASE,
            pre_c.tx.caller.as_nat(),
        ))
}
/// ORIGIN: push the transaction signer's address.
pub fn origin(interpreter: &mut NewInterpreter, ctx: &mut Context)
    requires
        old(interpreter).wf(),
    ensures
        spec_origin_post(*old(interpreter), *final(interpreter), *old(ctx), *final(ctx)),
{
    let w = ctx.tx().caller.into_word();
    push_word(interpreter, gas::BASE, w);
}


/// The exact contract of the matching instruction, as the dispatch states it.
pub open spec fn spec_caller_post(pre_i: NewInterpreter, post_i: NewInterpreter) -> bool {
    &&& (post_i.wf())
    &&& (spec_push_like(
            pre_i,
            post_i,
            gas::BASE,
            pre_i.input.caller.as_nat(),
        ))
}
/// CALLER: push the frame's caller address.
pub fn caller(interpreter: &mut NewInterpreter)
    requires
        old(interpreter).wf(),
    ensures
        spec_caller_post(*old(interpreter), *final(interpreter)),
{
    let w = interpreter.input.caller.into_word();
    push_word(interpreter, gas::BASE, w);
}


/// The exact contract of the matching instruction, as the dispatch states it.
pub open spec fn spec_callvalue_post(pre_i: NewInterpreter, post_i: NewInterpreter) -> bool {
    &&& (post_i.wf())
    &&& (spec_push_like(
            pre_i,
            post_i,
            gas::BASE,
            pre_i.input.value.as_nat(),
        ))
}
/// CALLVALUE: push the value the frame was entered with.
pub fn callvalue(interpreter: &mut NewInterpreter)
    requires
        old(interpreter).wf(),
    ensures
        spec_callvalue_post(*old(interpreter), *final(interpreter)),
{
    let w = interpreter.input.value;
    push_word(interpreter, gas::BASE, w);
}


/// The exact contract of the matching instruction, as the dispatch states it.
pub open spec fn spec_calldatasize_post(pre_i: NewInterpreter, post_i: NewInterpreter) -> bool {
    &&& (post_i.wf())
    &&& (spec_push_like(
            pre_i,
            post_i,
            gas::BASE,
            pre_i.input.call_data@.len(),
        ))
}
/// CALLDATASIZE: push the length of the call data.
pub fn calldatasize(interpreter: &mut NewInterpreter)
    requires
        old(interpreter).wf(),
    ensures
        spec_calldatasize_post(*old(interpreter), *final(interpreter)),
{
    let w = usize_to_word(interpreter.input.call_data.len());
    push_word(interpreter, gas::BASE, w);
}


/// The exact contract of the matching instruction, as the dispatch states it.
pub open spec fn spec_gasprice_post(pre_i: NewInterpreter, post_i: NewInterpreter, pre_c: Context, post_c: Context) -> bool {
    &&& (post_i.wf())
    &&& (post_c == pre_c)
    &&& (spec_push_like(
            pre_i,
            post_i,
            gas::BASE,
            crate::env::spec_effective_gas_price(
                pre_c.tx.gas_price,
                pre_c.tx.max_priority_fee,
                pre_c.block.basefee,
            ) as nat,
        ))
}
/// GASPRICE: push the effective gas price of the transaction.
pub fn gasprice(interpreter: &mut NewInterpreter, ctx: &mut Context)
    requires
        old(interpreter).wf(),
    ensures
        spec_gasprice_post(*old(interpreter), *final(interpreter), *old(ctx), *final(ctx)),
{
    let basefee = ctx.block().basefee;
    let price = ctx.tx().effective_gas_price(basefee);
    let w = U256::from_u128(price);
    push_word(interpreter, gas::BASE, w);
}


/// The exact contract of the matching instruction, as the dispatch states it.
pub open spec fn spec_coinbase_post(pre_i: NewInterpreter, post_i: NewInterpreter, pre_c: Context, post_c: Context) -> bool {
    &&& (post_i.wf())
    &&& (post_c == pre_c)
    &&& (spec_push_like(
            pre_i,
            post_i,
            gas::BASE,
            pre_c.block.coinbase.as_nat(),
        ))
}
/// COINBASE: push the block's beneficiary address.
pub fn coinbase(interpreter: &mut NewInterpreter, ctx: &mut Context)
    requires
        old(interpreter).wf(),
    ensures
        spec_coinbase_post(*old(interpreter), *final(interpreter), *old(ctx), *final(ctx)),
{
    let w = ctx.block().coinbase.into_word();
    push_word(interpreter, gas::BASE, w);
}


/// The exact contract of the matching instruction, as the dispatch states it.
pub open spec fn spec_timestamp_post(pre_i: NewInterpreter, post_i: NewInterpreter, pre_c: Context, post_c: Context) -> bool {
    &&& (post_i.wf())
    &&& (post_c == pre_c)
    &&& (spec_push_like(
            pre_i,
            post_i,
            gas::BASE,
            pre_c.block.timestamp as nat,
        ))
}
/// TIMESTAMP: push the block's timestamp.
pub fn timestamp(interpreter: &mut NewInterpreter, ctx: &mut Context)
    requires
        old(interpreter).wf(),
    ensures
        spec_timestamp_post(*old(interpreter), *final(interpreter), *old(ctx), *final(ctx)),
{
    let w = U256::from_u64(ctx.block().timestamp);
    push_word(interpreter, gas::BASE, w);
}


/// The exact contract of the matching instruction, as the dispatch states it.
pub open spec fn spec_block_number_post(pre_i: NewInterpreter, post_i: NewInterpreter, pre_c: Context, post_c: Context) -> bool {
    &&& (post_i.wf())
    &&& (post_c == pre_c)
    &&& (spec_push_like(
            pre_i,
            post_i,
            gas::BASE,
            pre_c.block.number as nat,
        ))
}
/// NUMBER: push the block number.
pub fn block_number(interpreter: &mut NewInterpreter, ctx: &mut Context)
    requires
        old(interpreter).wf(),
    ensures
        spec_block_number_post(*old(interpreter), *final(interpreter), *old(ctx), *final(ctx)),
{
    let w = U256::from_u64(ctx.block().number);
    push_word(interpreter, gas::BASE, w);
}


/// The exact contract of the matching instruction, as the dispatch states it.
pub open spec fn spec_gaslimit_post(pre_i: NewInterpreter, post_i: NewInterpreter, pre_c: Context, post_c: Context) -> bool {
    &&& (post_i.wf())
    &&& (post_c == pre_c)
    &&& (spec_push_like(
            pre_i,
            post_i,
            gas::BASE,
            pre_c.block.gas_limit as nat,
        ))
}
/// GASLIMIT: push the block's gas limit.
pub fn gaslimit(interpreter: &mut NewInterpreter, ctx: &mut Context)
    requires
        old(interpreter).wf(),
    ensures
        spec_gaslimit_post(*old(interpreter), *final(interpreter), *old(ctx), *final(ctx)),
{
    let w = U256::from_u64(ctx.block().gas_limit);
    push_word(interpreter, gas::BASE, w);
}


/// The exact contract of the matching instruction, as the dispatch states it.
pub open spec fn spec_chainid_post(pre_i: NewInterpreter, post_i: NewInterpreter, pre_c: Context, post_c: Context) -> bool {
    &&& (post_i.wf())
    &&& (post_c == pre_c)
    &&& (!spec_enabled(pre_i, SpecId::Istanbul) ==> (spec_env_kept(
            pre_i,
            post_i,
        ) && post_i.control.instruction_result == InstructionResult::NotActivated
            && post_i.control.gas == pre_i.control.gas && post_i.stack == pre_i.stack))
    &&& (spec_enabled(pre_i, SpecId::Istanbul) ==> spec_push_like(
            pre_i,
            post_i,
            gas::BASE,
            pre_c.cfg.chain_id as nat,
        ))
}
/// CHAINID: push the configured chain id (Istanbul on).
pub fn chainid(interpreter: &mut NewInterpreter, ctx: &mut Context)
    requires
        old(interpreter).wf(),
    ensures
        spec_chainid_post(*old(interpreter), *final(interpreter), *old(ctx), *final(ctx)),
{
    if !interpreter.runtime_flag.spec_id.is_enabled_in(SpecId::Istanbul) {
        interpreter.control.instruction_result = InstructionResult::NotActivated;
        return ;
    }
    let w = U256::from_u64(ctx.cfg().chain_id);
    push_word(interpreter, gas::BASE, w);
}


/// The exact contract of the matching instruction, as the dispatch states it.
pub open spec fn spec_basefee_post(pre_i: NewInterpreter, post_i: NewInterpreter, pre_c: Context, post_c: Context) -> bool {
    &&& (post_i.wf())
    &&& (post_c == pre_c)
    &&& (!spec_enabled(pre_i, SpecId::London) ==> (spec_env_kept(
            pre_i,
            post_i,
        ) && post_i.control.instruction_result == InstructionResult::NotActivated
            && post_i.control.gas == pre_i.control.gas && post_i.stack == pre_i.stack))
    &&& (spec_enabled(pre_i, SpecId::London) ==> spec_push_like(
            pre_i,
            post_i,
            gas::BASE,
            pre_c.block.basefee as nat,
        ))
}
/// BASEFEE: push the block's base fee (London on).
pub fn basefee(interpreter: &mut NewInterpreter, ctx: &mut Context)
    requires
        old(interpreter).wf(),
    ensures
        spec_basefee_post(*old(interpreter), *final(interpreter), *old(ctx), *final(ctx)),
{
    if !interpreter.runtime_flag.spec_id.is_enabled_in(SpecId::London) {
        interpreter.control.instruction_result = InstructionResult::NotActivated;
        return ;
    }
    let w = U256::from_u128(ctx.block().basefee);
    push_word(interpreter, gas::BASE, w);
}


/// The exact contract of the matching instruction, as the dispatch states it.
pub open spec fn spec_blob_basefee_post(pre_i: NewInterpreter, post_i: NewInterpreter, pre_c: Context, post_c: Context) -> bool {
    &&& (post_i.wf())
    &&& (post_c == pre_c)
    &&& (!spec_enabled(pre_i, SpecId::Cancun) ==> (spec_env_kept(
            pre_i,
            post_i,
        ) && post_i.control.instruction_result == InstructionResult::NotActivated
            && post_i.control.gas == pre_i.control.gas && post_i.stack == pre_i.stack))
    &&& (spec_enabled(pre_i, SpecId::Cancun) ==> spec_push_like(
            pre_i,
            post_i,
            gas::BASE,
            pre_c.block.blob_base_fee as nat,
        ))
}
/// BLOBBASEFEE: push the blob base fee (Cancun on).
pub fn blob_basefee(interpreter: &mut NewInterpreter, ctx: &mut Context)
    requires
        old(interpreter).wf(),
    ensures
        spec_blob_basefee_post(*old(interpreter), *final(interpreter), *old(ctx), *final(ctx)),
{
    if !interpreter.runtime_flag.spec_id.is_enabled_in(SpecId::Cancun) {
        interpreter.control.instruction_result = InstructionResult::NotActivated;
        return ;
    }
    let w = U256::from_u128(ctx.block().blob_base_fee);
    push_word(interpreter, gas::BASE, w);
}


/// The exact contract of the matching instruction, as the dispatch states it.
pub open spec fn spec_blob_hash_post(pre_i: NewInterpreter, post_i: NewInterpreter, pre_c: Context, post_c: Context) -> bool {
    &&& (spec_instr_safe(pre_i, post_i))
    &&& (post_i.wf())
    &&& (post_c == pre_c)
    &&& (spec_env_kept(pre_i, post_i))
    &&& (!spec_enabled(pre_i, SpecId::Cancun) ==> (post_i.control.instruction_result == InstructionResult::NotActivated && post_i.control.gas == pre_i.control.gas && post_i.stack == pre_i.stack))
    &&& (spec_enabled(pre_i, SpecId::Cancun) && pre_i.control.gas.remaining
            < gas::VERYLOW ==> spec_gas_fail(pre_i, post_i))
    &&& (spec_enabled(pre_i, SpecId::Cancun) && pre_i.control.gas.remaining
            >= gas::VERYLOW && pre_i.stack@.len() < 1 ==> spec_fail_after_charge(
            pre_i,
            post_i,
            InstructionResult::StackUnderflow,
            gas::VERYLOW,
        ))
    &&& (spec_enabled(pre_i, SpecId::Cancun) && pre_i.control.gas.remaining
            >= gas::VERYLOW && pre_i.stack@.len() >= 1 ==> (spec_op_ok(
            pre_i,
            post_i,
            gas::VERYLOW,
            pre_i.stack@.drop_last().push(post_i.stack@.last()),
        ) && post_i.stack@.last() == (if pre_i.stack@.last().as_nat() < pre_c.tx.blob_versioned_hashes@.len() {
            pre_c.tx.blob_versioned_hashes@[pre_i.stack@.last().as_nat() as int]
        } else {
            U256 { hi: 0, lo: 0 }
        })))
}
/// BLOBHASH: replace the top word (an index) with the transaction's blob
/// hash at that index, or zero past the end (Cancun on).
pub fn blob_hash(interpreter: &mut NewInterpreter, ctx: &mut Context)
    requires
        old(interpreter).wf(),
        old(interpreter).control.instruction_result matches InstructionResult::Continue,
    ensures
        spec_blob_hash_post(*old(interpreter), *final(interpreter), *old(ctx), *final(ctx)),
{
    if !interpreter.runtime_flag.spec_id.is_enabled_in(SpecId::Cancun) {
        interpreter.control.instruction_result = InstructionResult::NotActivated;
        return ;
    }
    if !charge(interpreter, gas::VERYLOW) {
        return ;
    }
    if interpreter.stack.len() < 1 {
        interpreter.control.instruction_result = InstructionResult::StackUnderflow;
        return ;
    }
    let index = pop_known(interpreter);
    let hlen = ctx.tx.blob_versioned_hashes.len();
    let w = match index.as_usize() {
        Some(i) => {
            if i < hlen {
                ctx.tx.blob_versioned_hashes[i]
            } else {
                U256 { hi: 0, lo: 0 }
            }
        },
        None => U256 { hi: 0, lo: 0 },
    };
    push_known(interpreter, w);
}


/// Safety every instruction body grants when entered while continuing: gas
/// never grows, the discriminant never becomes the driver-only
/// `CallOrCreate` (the call family excepted), and continuing costs gas.
pub open spec fn spec_instr_safe(pre: NewInterpreter, post: NewInterpreter) -> bool {
    &&& post.control.gas.remaining <= pre.control.gas.remaining
    &&& !(post.control.instruction_result matches InstructionResult::CallOrCreate)
    &&& ((post.control.instruction_result matches InstructionResult::Continue)
        ==> post.control.gas.remaining < pre.control.gas.remaining)
}


/// The exact contract of the matching instruction, as the dispatch states it.
pub open spec fn spec_sload_post(pre_i: NewInterpreter, post_i: NewInterpreter, pre_c: Context, post_c: Context) -> bool {
    &&& (spec_instr_safe(pre_i, post_i))
    &&& (post_i.wf())
    &&& (spec_env_kept(pre_i, post_i))
    &&& (spec_ctx_frame(pre_c, post_c))
    &&& (post_c.journal.refund == pre_c.journal.refund)
    &&& (pre_i.stack@.len() < 1 ==> (post_i.control.instruction_result
            == InstructionResult::StackUnderflow && post_i.control.gas == pre_i.control.gas && post_i.stack@ == pre_i.stack@ && post_c
            == pre_c))
    &&& (pre_i.stack@.len() >= 1 ==> {
            let key = pre_i.stack@.last();
            let addr = pre_i.input.target_address;
            let was_cold = !pre_c.journal.view_state().warm_slots.contains((addr, key));
            let cost = spec_sload_cost(pre_i, was_cold);
            &&& post_c.journal.view_state() == (StateView {
                warm_slots: pre_c.journal.view_state().warm_slots.insert((addr, key)),
                ..pre_c.journal.view_state()
            })
            &&& pre_i.control.gas.remaining < cost ==> (post_i.control.instruction_result == InstructionResult::OutOfGas && post_i.control.gas.remaining == pre_i.control.gas.remaining && post_i.stack@ == pre_i.stack@.drop_last())
            &&& pre_i.control.gas.remaining >= cost ==> (spec_op_ok(
                pre_i,
                post_i,
                cost as u64,
                pre_i.stack@.drop_last().push(post_i.stack@.last()),
            ) && post_i.stack@.last().as_nat() == pre_c.journal.view_state().storage[(addr, key)])
        })
}
/// SLOAD: pop the key and push the slot's present value; warms the slot and
/// prices the access cold or warm (EIP-2929 from Berlin on).
pub fn sload(interpreter: &mut NewInterpreter, ctx: &mut Context)
    requires
        old(interpreter).wf(),
        old(ctx).wf(),
        old(interpreter).control.instruction_result matches InstructionResult::Continue,
    ensures
        spec_sload_post(*old(interpreter), *final(interpreter), *old(ctx), *final(ctx)),
{
    if interpreter.stack.len() < 1 {
        interpreter.control.instruction_result = InstructionResult::StackUnderflow;
        return ;
    }
    let key = pop_known(interpreter);
    let addr = interpreter.input.target_address;
    let (value, is_cold) = ctx.journal.sload(addr, key);
    let cost: u64 = if interpreter.runtime_flag.spec_id.is_enabled_in(SpecId::Berlin) {
        if is_cold {
            gas::COLD_SLOAD_COST
        } else {
            gas::WARM_STORAGE_READ_COST
        }
    } else {
        gas::ISTANBUL_SLOAD
    };
    if !charge(interpreter, cost) {
        return ;
    }
    push_known(interpreter, value);
}

/// What an SLOAD costs under the frame's hardfork.
pub open spec fn spec_sload_cost(i: NewInterpreter, is_cold: bool) -> int {
    if spec_enabled(i, SpecId::Berlin) {
        if is_cold {
            gas::COLD_SLOAD_COST as int
        } else {
            gas::WARM_STORAGE_READ_COST as int
        }
    } else {
        gas::ISTANBUL_SLOAD as int
    }
}


/// The exact contract of the matching instruction, as the dispatch states it.
pub open spec fn spec_sstore_post(pre_i: NewInterpreter, post_i: NewInterpreter, pre_c: Context, post_c: Context) -> bool {
    &&& (spec_instr_safe(pre_i, post_i))
    &&& (post_i.wf())
    &&& (spec_env_kept(pre_i, post_i))
    &&& (spec_ctx_frame(pre_c, post_c))
    &&& (pre_i.runtime_flag.is_static ==> (post_i.control.instruction_result
            == InstructionResult::StateChangeDuringStaticCall && post_c == pre_c && post_i.control.gas == pre_i.control.gas && post_i.stack == pre_i.stack))
    &&& (!pre_i.runtime_flag.is_static && pre_i.stack@.len() < 2 ==> (post_i.control.instruction_result == InstructionResult::StackUnderflow && post_c == pre_c && post_i.control.gas == pre_i.control.gas))
    &&& (!pre_i.runtime_flag.is_static && pre_i.stack@.len() >= 2 && spec_enabled(
            pre_i,
            SpecId::Istanbul,
        ) && pre_i.control.gas.remaining <= gas::SSTORE_SENTRY ==> (post_i.control.instruction_result == InstructionResult::OutOfGas && post_c == pre_c))
    &&& (!pre_i.runtime_flag.is_static && pre_i.stack@.len() >= 2 && !(
        spec_enabled(pre_i, SpecId::Istanbul) && pre_i.control.gas.remaining
            <= gas::SSTORE_SENTRY) ==> {
            let key = pre_i.stack@.last();
            let new_value = pre_i.stack@[pre_i.stack@.len() - 2];
            let addr = pre_i.input.target_address;
            let was_cold = !pre_c.journal.view_state().warm_slots.contains((addr, key));
            let original = pre_c.journal.spec_original_storage(addr, key);
            let present = pre_c.journal.view_state().storage[(addr, key)];
            let cost = crate::gas::spec_sstore_cost(
                pre_i.runtime_flag.spec_id,
                original,
                present,
                new_value.as_nat(),
                was_cold,
            );
            &&& post_i.stack@ == pre_i.stack@.drop_last().drop_last()
            &&& pre_i.control.gas.remaining < cost ==> (post_i.control.instruction_result
                == InstructionResult::OutOfGas && post_i.control.gas.remaining
                == pre_i.control.gas.remaining && post_c.journal.view_state() == (StateView {
                warm_slots: pre_c.journal.view_state().warm_slots.insert((addr, key)),
                ..pre_c.journal.view_state()
            }))
            &&& pre_i.control.gas.remaining >= cost ==> (post_c.journal.view_state() == (StateView {
                warm_slots: pre_c.journal.view_state().warm_slots.insert((addr, key)),
                storage: pre_c.journal.view_state().storage.insert(
                    (addr, key),
                    new_value.as_nat(),
                ),
                ..pre_c.journal.view_state()
            }) && post_i.control.instruction_result == pre_i.control.instruction_result && post_i.control.gas.remaining == pre_i.control.gas.remaining - cost && post_c.journal.refund == crate::journal::spec_sat_add_i64(
                pre_c.journal.refund as int,
                spec_sstore_refund_delta(
                    pre_i.runtime_flag.spec_id,
                    original,
                    present,
                    new_value.as_nat(),
                ),
            ))
        })
}
/// SSTORE: pop key and value and write the slot, charging the EIP-2200
/// rules (with EIP-2929 cold pricing) and recording the EIP-2200/3529
/// refund on the journaled refund counter.
pub fn sstore(interpreter: &mut NewInterpreter, ctx: &mut Context)
    requires
        old(interpreter).wf(),
        old(ctx).wf(),
        old(interpreter).control.instruction_result matches InstructionResult::Continue,
    ensures
        spec_sstore_post(*old(interpreter), *final(interpreter), *old(ctx), *final(ctx)),
{
    if interpreter.runtime_flag.is_static {
        interpreter.control.instruction_result =
        InstructionResult::StateChangeDuringStaticCall;
        return ;
    }
    if interpreter.stack.len() < 2 {
        interpreter.control.instruction_result = InstructionResult::StackUnderflow;
        return ;
    }
    if interpreter.runtime_flag.spec_id.is_enabled_in(SpecId::Istanbul)
        && interpreter.control.gas.remaining() <= gas::SSTORE_SENTRY {
        interpreter.control.instruction_result = InstructionResult::OutOfGas;
        return ;
    }
    let key = pop_known(interpreter);
    let new_value = pop_known(interpreter);
    let addr = interpreter.input.target_address;
    let ghost pre_c = *ctx;
    let (present, is_cold) = ctx.journal.sload(addr, key);
    let original = ctx.journal.storage_original(addr, key);
    let cost = crate::gas::sstore_cost(
        interpreter.runtime_flag.spec_id,
        &original,
        &present,
        &new_value,
        is_cold,
    );
    if !charge(interpreter, cost) {
        return ;
    }
    let r = ctx.journal.sstore(addr, key, new_value);
    proof {
        assert(ctx.journal.view_state() =~~= (StateView {
            warm_slots: pre_c.journal.view_state().warm_slots.insert((addr, key)),
            storage: pre_c.journal.view_state().storage.insert((addr, key), new_value.as_nat()),
            ..pre_c.journal.view_state()
        }));
    }
    let delta: i64 = if interpreter.runtime_flag.spec_id.is_enabled_in(SpecId::Istanbul) {
        crate::gas::sstore_refund(
            interpreter.runtime_flag.spec_id,
            &original,
            &present,
            &new_value,
        )
    } else if !present.is_zero() && new_value.is_zero() {
        gas::REFUND_SSTORE_CLEARS as i64
    } else {
        0
    };
    proof {
        crate::word::lemma_word_eq_nat(present, new_value);
        crate::word::lemma_word_eq_nat(present, U256 { hi: 0, lo: 0 });
        crate::word::lemma_word_eq_nat(new_value, U256 { hi: 0, lo: 0 });
    }
    ctx.journal.record_refund_saturating(delta);
}

/// The refund delta an SSTORE records, by hardfork: the EIP-2200/3529 rules
/// from Istanbul on, the plain clearing refund before.
pub open spec fn spec_sstore_refund_delta(
    spec_id: SpecId,
    original: nat,
    present: nat,
    new: nat,
) -> int {
    if crate::env::spec_fork_rank(spec_id) >= crate::env::spec_fork_rank(SpecId::Istanbul) {
        crate::gas::spec_sstore_refund(spec_id, original, present, new)
    } else if present != 0 && new == 0 {
        gas::REFUND_SSTORE_CLEARS as int
    } else {
        0
    }
}


/// The exact contract of the matching instruction, as the dispatch states it.
pub open spec fn spec_tload_post(pre_i: NewInterpreter, post_i: NewInterpreter, pre_c: Context, post_c: Context) -> bool {
    &&& (spec_instr_safe(pre_i, post_i))
    &&& (post_i.wf())
    &&& (spec_env_kept(pre_i, post_i))
    &&& (post_c == pre_c)
    &&& (!spec_enabled(pre_i, SpecId::Cancun) ==> (post_i.control.instruction_result == InstructionResult::NotActivated && post_i.control.gas == pre_i.control.gas && post_i.stack == pre_i.stack))
    &&& (spec_enabled(pre_i, SpecId::Cancun) && pre_i.control.gas.remaining
            < gas::WARM_STORAGE_READ_COST ==> spec_gas_fail(pre_i, post_i))
    &&& (spec_enabled(pre_i, SpecId::Cancun) && pre_i.control.gas.remaining
            >= gas::WARM_STORAGE_READ_COST && pre_i.stack@.len() < 1
            ==> spec_fail_after_charge(
            pre_i,
            post_i,
            InstructionResult::StackUnderflow,
            gas::WARM_STORAGE_READ_COST,
        ))
    &&& (spec_enabled(pre_i, SpecId::Cancun) && pre_i.control.gas.remaining
            >= gas::WARM_STORAGE_READ_COST && pre_i.stack@.len() >= 1 ==> (spec_op_ok(
            pre_i,
            post_i,
            gas::WARM_STORAGE_READ_COST,
            pre_i.stack@.drop_last().push(post_i.stack@.last()),
        ) && post_i.stack@.last().as_nat() == pre_c.journal.view_state().transient[(pre_i.input.target_address, pre_i.stack@.last())]))
}
/// TLOAD: pop the key and push the transient value (Cancun on).
pub fn tload(interpreter: &mut NewInterpreter, ctx: &mut Context)
    requires
        old(interpreter).wf(),
        old(ctx).wf(),
        old(interpreter).control.instruction_result matches InstructionResult::Continue,
    ensures
        spec_tload_post(*old(interpreter), *final(interpreter), *old(ctx), *final(ctx)),
{
    if !interpreter.runtime_flag.spec_id.is_enabled_in(SpecId::Cancun) {
        interpreter.control.instruction_result = InstructionResult::NotActivated;
        return ;
    }
    if !charge(interpreter, gas::WARM_STORAGE_READ_COST) {
        return ;
    }
    if interpreter.stack.len() < 1 {
        interpreter.control.instruction_result = InstructionResult::StackUnderflow;
        return ;
    }
    let key = pop_known(interpreter);
    let v = ctx.journal.tload(interpreter.input.target_address, key);
    push_known(interpreter, v);
}


/// The exact contract of the matching instruction, as the dispatch states it.
pub open spec fn spec_tstore_post(pre_i: NewInterpreter, post_i: NewInterpreter, pre_c: Context, post_c: Context) -> bool {
    &&& (spec_instr_safe(pre_i, post_i))
    &&& (post_i.wf())
    &&& (spec_env_kept(pre_i, post_i))
    &&& (spec_ctx_frame(pre_c, post_c))
    &&& (post_c.journal.refund == pre_c.journal.refund)
    &&& (!spec_enabled(pre_i, SpecId::Cancun) ==> (post_i.control.instruction_result == InstructionResult::NotActivated && post_c == pre_c && post_i.control.gas == pre_i.control.gas && post_i.stack == pre_i.stack))
    &&& (spec_enabled(pre_i, SpecId::Cancun) && pre_i.runtime_flag.is_static
            ==> (post_i.control.instruction_result
            == InstructionResult::StateChangeDuringStaticCall && post_c == pre_c && post_i.control.gas == pre_i.control.gas && post_i.stack == pre_i.stack))
    &&& (spec_enabled(pre_i, SpecId::Cancun) && !pre_i.runtime_flag.is_static
            && pre_i.control.gas.remaining < gas::WARM_STORAGE_READ_COST ==> (
        spec_gas_fail(pre_i, post_i) && post_c == pre_c))
    &&& (spec_enabled(pre_i, SpecId::Cancun) && !pre_i.runtime_flag.is_static
            && pre_i.control.gas.remaining >= gas::WARM_STORAGE_READ_COST && pre_i.stack@.len() < 2 ==> (spec_fail_after_charge(
            pre_i,
            post_i,
            InstructionResult::StackUnderflow,
            gas::WARM_STORAGE_READ_COST,
        ) && post_c == pre_c))
    &&& (spec_enabled(pre_i, SpecId::Cancun) && !pre_i.runtime_flag.is_static
            && pre_i.control.gas.remaining >= gas::WARM_STORAGE_READ_COST && pre_i.stack@.len() >= 2 ==> (spec_op_ok(
            pre_i,
            post_i,
            gas::WARM_STORAGE_READ_COST,
            pre_i.stack@.drop_last().drop_last(),
        ) && post_c.journal.view_state() == (StateView {
            transient: pre_c.journal.view_state().transient.insert(
                (pre_i.input.target_address, pre_i.stack@.last()),
                pre_i.stack@[pre_i.stack@.len() - 2].as_nat(),
            ),
            ..pre_c.journal.view_state()
        })))
}
/// TSTORE: pop key and value and write transient storage (Cancun on);
/// refused in a static context.
pub fn tstore(interpreter: &mut NewInterpreter, ctx: &mut Context)
    requires
        old(interpreter).wf(),
        old(ctx).wf(),
        old(interpreter).control.instruction_result matches InstructionResult::Continue,
    ensures
        spec_tstore_post(*old(interpreter), *final(interpreter), *old(ctx), *final(ctx)),
{
    if !interpreter.runtime_flag.spec_id.is_enabled_in(SpecId::Cancun) {
        interpreter.control.instruction_result = InstructionResult::NotActivated;
        return ;
    }
    if interpreter.runtime_flag.is_static {
        interpreter.control.instruction_result =
        InstructionResult::StateChangeDuringStaticCall;
        return ;
    }
    if !charge(interpreter, gas::WARM_STORAGE_READ_COST) {
        return ;
    }
    if interpreter.stack.len() < 2 {
        interpreter.control.instruction_result = InstructionResult::StackUnderflow;
        return ;
    }
    let key = pop_known(interpreter);
    let value = pop_known(interpreter);
    ctx.journal.tstore(interpreter.input.target_address, key, value);
}

/// Grow the active memory window to cover `end` bytes, charging the
/// quadratic expansion cost; the window only ever grows.
fn resize_memory(interpreter: &mut NewInterpreter, memory: &mut SharedMemory, end: usize) -> (ok:
    bool)
    requires
        old(interpreter).wf(),
        old(memory).wf(),
    ensures
        final(interpreter).wf(),
        spec_env_kept(*old(interpreter), *final(interpreter)),
        final(interpreter).stack == old(interpreter).stack,
        spec_mem_frame(*old(memory), *final(memory)),
        final(interpreter).control.gas.remaining <= old(interpreter).control.gas.remaining,
        ok ==> (final(memory)@ == crate::memory::spec_resize(old(memory)@, end as int) && final(memory)@.len() >= end && final(interpreter).control.instruction_result == old(
            interpreter,
        ).control.instruction_result),
        !ok ==> (*final(memory) == *old(memory) && (final(interpreter).control.instruction_result
            matches InstructionResult::MemoryLimitOOG
            || final(interpreter).control.instruction_result
            matches InstructionResult::MemoryOOG)),
{
    let cur_len = memory.len();
    if end <= cur_len {
        proof {
            let ghost mlen = memory@.len() as int;
            assert(mlen % 32 == 0) by {
                assert(memory.wf());
            }
            assert(crate::memory::spec_round_up_word(end as int) <= mlen) by (nonlinear_arith)
                requires
                    end <= mlen,
                    mlen % 32 == 0,
            ;
            assert(memory@ =~= crate::memory::spec_resize(memory@, end as int));
        }
        return true;
    }
    if end > crate::memory::MEMORY_LIMIT_BYTES {
        interpreter.control.instruction_result = InstructionResult::MemoryLimitOOG;
        return false;
    }
    let words = crate::memory::num_words(end);
    proof {
        assert(words * 32 == crate::memory::spec_round_up_word(end as int)) by (nonlinear_arith)
            requires
                words == (end as int + 31) / 32,
        ;
        assert(words <= 0x200_0001 && words * 32 >= end) by (nonlinear_arith)
            requires
                words == (end as int + 31) / 32,
                0 <= end <= 0x4000_0000,
        ;
    }
    let rounded = words * 32;
    let start = memory.buffer.len() - cur_len;
    if rounded > crate::memory::MEMORY_LIMIT_BYTES - start {
        interpreter.control.instruction_result = InstructionResult::MemoryLimitOOG;
        return false;
    }
    let cur_words = crate::memory::num_words(cur_len);
    proof {
        assert(cur_words <= words && cur_words >= 0) by (nonlinear_arith)
            requires
                cur_words == (cur_len as int + 31) / 32,
                words == (end as int + 31) / 32,
                0 <= cur_len <= end,
        ;
        assert(crate::memory::spec_memory_gas(cur_words as int) <= crate::memory::spec_memory_gas(
            words as int,
        )) by (nonlinear_arith)
            requires
                0 <= cur_words <= words,
        ;
        assert(cur_len <= 0x4000_0000) by {
            assert(old(memory).wf());
        }
        assert(cur_words <= 0x800_0000) by (nonlinear_arith)
            requires
                cur_words == (cur_len as int + 31) / 32,
                0 <= cur_len <= 0x4000_0000,
        ;
    }
    let new_cost = crate::memory::memory_gas(words);
    let cur_cost = crate::memory::memory_gas(cur_words);
    let delta = new_cost - cur_cost;
    if !interpreter.control.gas.record_cost(delta) {
        interpreter.control.instruction_result = InstructionResult::MemoryOOG;
        return false;
    }
    memory.resize(end);
    true
}


/// The exact contract of the matching instruction, as the dispatch states it.
pub open spec fn spec_msize_post(pre_i: NewInterpreter, post_i: NewInterpreter, m: SharedMemory) -> bool {
    &&& (post_i.wf())
    &&& (spec_push_like(pre_i, post_i, gas::BASE, m@.len()))
}
/// MSIZE: push the active memory window's length.
pub fn msize(interpreter: &mut NewInterpreter, memory: &SharedMemory)
    requires
        old(interpreter).wf(),
        memory.wf(),
    ensures
        spec_msize_post(*old(interpreter), *final(interpreter), *memory),
{
    let w = usize_to_word(memory.len());
    push_word(interpreter, gas::BASE, w);
}


/// The exact contract of the matching instruction, as the dispatch states it.
pub open spec fn spec_mstore8_post(pre_i: NewInterpreter, post_i: NewInterpreter, pre_m: SharedMemory, post_m: SharedMemory) -> bool {
    &&& (spec_instr_safe(pre_i, post_i))
    &&& (post_i.wf())
    &&& (spec_env_kept(pre_i, post_i))
    &&& (spec_mem_frame(pre_m, post_m))
    &&& (post_i.control.gas.remaining <= pre_i.control.gas.remaining)
    &&& (!(post_i.control.instruction_result matches InstructionResult::Continue)
            ==> post_m == pre_m)
    &&& (pre_i.control.gas.remaining >= gas::VERYLOW && pre_i.stack@.len() >= 2
            && (post_i.control.instruction_result matches InstructionResult::Continue)
            ==> {
            let offset = pre_i.stack@.last().as_nat();
            let b = pre_i.stack@[pre_i.stack@.len() - 2].as_nat() % 256;
            &&& post_i.stack@ == pre_i.stack@.drop_last().drop_last()
            &&& offset < post_m@.len()
            &&& post_m@ == crate::memory::spec_resize(pre_m@, offset as int + 1).update(
                offset as int,
                b as u8,
            )
        })
}
/// MSTORE8: pop offset and value and store the value's low byte at the
/// offset, growing memory as needed.
pub fn mstore8(interpreter: &mut NewInterpreter, memory: &mut SharedMemory)
    requires
        old(interpreter).wf(),
        old(memory).wf(),
        old(interpreter).control.instruction_result matches InstructionResult::Continue,
    ensures
        spec_mstore8_post(*old(interpreter), *final(interpreter), *old(memory), *final(memory)),
{
    if !charge(interpreter, gas::VERYLOW) {
        return ;
    }
    if interpreter.stack.len() < 2 {
        interpreter.control.instruction_result = InstructionResult::StackUnderflow;
        return ;
    }
    let offset_w = pop_known(interpreter);
    let value = pop_known(interpreter);
    let offset = match offset_w.as_usize() {
        Some(o) => o,
        None => {
            interpreter.control.instruction_result = InstructionResult::InvalidOperandOOG;
            return ;
        },
    };
    if offset >= crate::memory::MEMORY_LIMIT_BYTES {
        interpreter.control.instruction_result = InstructionResult::MemoryLimitOOG;
        return ;
    }
    let ghost mem0 = *memory;
    if !resize_memory(interpreter, memory, offset + 1) {
        return ;
    }
    let b = value.low_byte();
    let mut one_byte: Vec<u8> = Vec::new();
    one_byte.push(b);
    memory.write(offset, one_byte.as_slice());
    proof {
        assert(final(memory)@ =~= crate::memory::spec_resize(mem0@, offset + 1).update(
            offset as int,
            b,
        ));
    }
}


/// The exact contract of the matching instruction, as the dispatch states it.
pub open spec fn spec_mcopy_post(pre_i: NewInterpreter, post_i: NewInterpreter, pre_m: SharedMemory, post_m: SharedMemory) -> bool {
    &&& (spec_instr_safe(pre_i, post_i))
    &&& (post_i.wf())
    &&& (spec_env_kept(pre_i, post_i))
    &&& (spec_mem_frame(pre_m, post_m))
    &&& (post_i.control.gas.remaining <= pre_i.control.gas.remaining)
    &&& (!(post_i.control.instruction_result matches InstructionResult::Continue)
            ==> post_m == pre_m)
    &&& ((post_i.control.instruction_result matches InstructionResult::Continue) && pre_i.stack@.len() >= 3 ==> {
            let dst = pre_i.stack@.last().as_nat();
            let src = pre_i.stack@[pre_i.stack@.len() - 2].as_nat();
            let len = pre_i.stack@[pre_i.stack@.len() - 3].as_nat();
            &&& post_i.stack@ == pre_i.stack@.drop_last().drop_last().drop_last()
            &&& len > 0 ==> {
                let grown = crate::memory::spec_resize(
                    pre_m@,
                    (if dst + len > src + len {
                        dst + len
                    } else {
                        src + len
                    }) as int,
                );
                post_m@ == grown.subrange(0, dst as int) + grown.subrange(
                    src as int,
                    (src + len) as int,
                ) + grown.subrange((dst + len) as int, grown.len() as int)
            }
            &&& len == 0 ==> post_m@ == pre_m@
        })
}
/// MCOPY: pop destination, source, and length and copy within memory,
/// overlap-safe (Cancun on).
pub fn mcopy(interpreter: &mut NewInterpreter, memory: &mut SharedMemory)
    requires
        old(interpreter).wf(),
        old(memory).wf(),
        old(interpreter).control.instruction_result matches InstructionResult::Continue,
    ensures
        spec_mcopy_post(*old(interpreter), *final(interpreter), *old(memory), *final(memory)),
{
    if !interpreter.runtime_flag.spec_id.is_enabled_in(SpecId::Cancun) {
        interpreter.control.instruction_result = InstructionResult::NotActivated;
        return ;
    }
    if interpreter.stack.len() < 3 {
        interpreter.control.instruction_result = InstructionResult::StackUnderflow;
        return ;
    }
    let dst_w = pop_known(interpreter);
    let src_w = pop_known(interpreter);
    let len_w = pop_known(interpreter);
    let len = match len_w.as_usize() {
        Some(l) => l,
        None => {
            interpreter.control.instruction_result = InstructionResult::InvalidOperandOOG;
            return ;
        },
    };
    if len == 0 {
        if !charge(interpreter, gas::VERYLOW) {
            return ;
        }
        return ;
    }
    if len > crate::memory::MEMORY_LIMIT_BYTES {
        interpreter.control.instruction_result = InstructionResult::MemoryLimitOOG;
        return ;
    }
    let (dst, src): (usize, usize) = match (dst_w.as_usize(), src_w.as_usize()) {
        (Some(d), Some(s)) => (d, s),
        _ => {
            interpreter.control.instruction_result = InstructionResult::InvalidOperandOOG;
            return ;
        },
    };
    if dst > crate::memory::MEMORY_LIMIT_BYTES || src > crate::memory::MEMORY_LIMIT_BYTES {
        interpreter.control.instruction_result = InstructionResult::MemoryLimitOOG;
        return ;
    }
    let words = crate::memory::num_words(len);
    proof {
        assert(0 <= words <= 0x200_0001) by (nonlinear_arith)
            requires
                words == (len as int + 31) / 32,
                0 <= len <= 0x4000_0000,
        ;
    }
    let copy_cost = gas::VERYLOW + 3 * (words as u64);
    if !charge(interpreter, copy_cost) {
        return ;
    }
    let end = if dst > src {
        dst + len
    } else {
        src + len
    };
    if !resize_memory(interpreter, memory, end) {
        return ;
    }
    memory.copy_within(dst, src, len);
}

/// Read `len` bytes of memory after growing it; the inner step of RETURN,
/// REVERT, and LOG.
fn read_range(
    interpreter: &mut NewInterpreter,
    memory: &mut SharedMemory,
    offset_w: &U256,
    len_w: &U256,
) -> (r: Option<Vec<u8>>)
    requires
        old(interpreter).wf(),
        old(memory).wf(),
    ensures
        final(interpreter).wf(),
        spec_env_kept(*old(interpreter), *final(interpreter)),
        final(interpreter).stack == old(interpreter).stack,
        spec_mem_frame(*old(memory), *final(memory)),
        final(interpreter).control.gas.remaining <= old(interpreter).control.gas.remaining,
        r is None ==> (*final(memory) == *old(memory) && (final(interpreter).control.instruction_result matches InstructionResult::InvalidOperandOOG || final(interpreter).control.instruction_result matches InstructionResult::MemoryLimitOOG || final(interpreter).control.instruction_result matches InstructionResult::MemoryOOG)),
        r is Some ==> (final(interpreter).control.instruction_result == old(
            interpreter,
        ).control.instruction_result && r->Some_0@.len() == len_w.as_nat() && (len_w.as_nat() > 0
            ==> r->Some_0@ == final(memory)@.subrange(
            offset_w.as_nat() as int,
            (offset_w.as_nat() + len_w.as_nat()) as int,
        ))),
{
    let len = match len_w.as_usize() {
        Some(l) => l,
        None => {
            interpreter.control.instruction_result = InstructionResult::InvalidOperandOOG;
            return None;
        },
    };
    if len == 0 {
        return Some(Vec::new());
    }
    let offset = match offset_w.as_usize() {
        Some(o) => o,
        None => {
            interpreter.control.instruction_result = InstructionResult::InvalidOperandOOG;
            return None;
        },
    };
    if offset > crate::memory::MEMORY_LIMIT_BYTES || len > crate::memory::MEMORY_LIMIT_BYTES {
        interpreter.control.instruction_result = InstructionResult::MemoryLimitOOG;
        return None;
    }
    if !resize_memory(interpreter, memory, offset + len) {
        return None;
    }
    Some(memory.read(offset, len))
}

/// The shared body of RETURN and REVERT: pop offset and length, charge the
/// memory expansion, and yield the output.
fn return_inner(
    interpreter: &mut NewInterpreter,
    memory: &mut SharedMemory,
    result: InstructionResult,
)
    requires
        old(interpreter).wf(),
        old(memory).wf(),
        !(result matches InstructionResult::Continue),
        !(result matches InstructionResult::CallOrCreate),
        old(interpreter).control.next_action matches InterpreterAction::Unset,
    ensures
        final(interpreter).wf(),
        spec_instr_frame(*old(interpreter), *final(interpreter)),
        spec_mem_frame(*old(memory), *final(memory)),
        !(final(interpreter).control.instruction_result matches InstructionResult::Continue),
        !(final(interpreter).control.instruction_result matches InstructionResult::CallOrCreate),
        (final(interpreter).control.next_action matches InterpreterAction::Return(r) ==> (
        r.result == result && final(interpreter).control.instruction_result == result)),
        !(final(interpreter).control.next_action matches InterpreterAction::NewFrame(_)),
        old(interpreter).stack@.len() >= 2 && (final(interpreter).control.next_action
            matches InterpreterAction::Return(_)) ==> {
            let offset = old(interpreter).stack@.last().as_nat();
            let len = old(interpreter).stack@[old(interpreter).stack@.len() - 2].as_nat();
            final(interpreter).control.next_action matches InterpreterAction::Return(r)
                ==> (r.output@.len() == len && (len > 0 ==> r.output@ == final(memory)@.subrange(
                offset as int,
                (offset + len) as int,
            )))
        },
{
    if interpreter.stack.len() < 2 {
        interpreter.control.instruction_result = InstructionResult::StackUnderflow;
        return ;
    }
    let offset_w = pop_known(interpreter);
    let len_w = pop_known(interpreter);
    let output = match read_range(interpreter, memory, &offset_w, &len_w) {
        Some(o) => o,
        None => {
            return ;
        },
    };
    interpreter.control.instruction_result = result;
    let gas_now = interpreter.control.gas;
    interpreter.control.next_action = InterpreterAction::Return(
        InterpreterResult { result, output, gas: gas_now },
    );
}


/// The exact contract of the matching instruction, as the dispatch states it.
pub open spec fn spec_ret_post(pre_i: NewInterpreter, post_i: NewInterpreter, pre_m: SharedMemory, post_m: SharedMemory) -> bool {
    &&& (post_i.wf())
    &&& (spec_instr_frame(pre_i, post_i))
    &&& (spec_mem_frame(pre_m, post_m))
    &&& (!(post_i.control.instruction_result matches InstructionResult::Continue))
    &&& (!(post_i.control.instruction_result matches InstructionResult::CallOrCreate))
    &&& (!(post_i.control.next_action matches InterpreterAction::NewFrame(_)))
    &&& (post_i.control.next_action matches InterpreterAction::Return(r) ==> r.result
            == InstructionResult::Return)
}
/// RETURN: end the frame successfully with the given memory range as output.
pub fn ret(interpreter: &mut NewInterpreter, memory: &mut SharedMemory)
    requires
        old(interpreter).wf(),
        old(memory).wf(),
        old(interpreter).control.next_action matches InterpreterAction::Unset,
    ensures
        spec_ret_post(*old(interpreter), *final(interpreter), *old(memory), *final(memory)),
{
    return_inner(interpreter, memory, InstructionResult::Return);
}


/// The exact contract of the matching instruction, as the dispatch states it.
pub open spec fn spec_revert_post(pre_i: NewInterpreter, post_i: NewInterpreter, pre_m: SharedMemory, post_m: SharedMemory) -> bool {
    &&& (post_i.wf())
    &&& (spec_instr_frame(pre_i, post_i))
    &&& (spec_mem_frame(pre_m, post_m))
    &&& (!(post_i.control.instruction_result matches InstructionResult::Continue))
    &&& (!(post_i.control.instruction_result matches InstructionResult::CallOrCreate))
    &&& (!(post_i.control.next_action matches InterpreterAction::NewFrame(_)))
    &&& (post_i.control.next_action matches InterpreterAction::Return(r) ==> r.result
            == InstructionResult::Revert)
}
/// REVERT: end the frame, roll back its state, keep unused gas, and carry
/// the given memory range as output (Byzantium on).
pub fn revert(interpreter: &mut NewInterpreter, memory: &mut SharedMemory)
    requires
        old(interpreter).wf(),
        old(memory).wf(),
        old(interpreter).control.next_action matches InterpreterAction::Unset,
    ensures
        spec_revert_post(*old(interpreter), *final(interpreter), *old(memory), *final(memory)),
{
    if !interpreter.runtime_flag.spec_id.is_enabled_in(SpecId::Byzantium) {
        interpreter.control.instruction_result = InstructionResult::NotActivated;
        return ;
    }
    return_inner(interpreter, memory, InstructionResult::Revert);
}


/// The exact contract of the matching instruction, as the dispatch states it.
pub open spec fn spec_log_post(pre_i: NewInterpreter, post_i: NewInterpreter, pre_c: Context, post_c: Context, pre_m: SharedMemory, post_m: SharedMemory, n: usize) -> bool {
    &&& (spec_instr_safe(pre_i, post_i))
    &&& (post_i.wf())
    &&& (spec_env_kept(pre_i, post_i))
    &&& (spec_mem_frame(pre_m, post_m))
    &&& (spec_ctx_frame(pre_c, post_c))
    &&& (post_c.journal.refund == pre_c.journal.refund)
    &&& (post_i.control.gas.remaining <= pre_i.control.gas.remaining)
    &&& (pre_i.runtime_flag.is_static ==> (post_i.control.instruction_result
            == InstructionResult::StateChangeDuringStaticCall && post_c == pre_c))
    &&& (!(post_i.control.instruction_result matches InstructionResult::Continue)
            ==> post_c.journal.view_state().logs == pre_c.journal.view_state().logs)
    &&& ((post_i.control.instruction_result matches InstructionResult::Continue) && pre_i.stack@.len() >= 2 + n ==> {
            let offset = pre_i.stack@.last().as_nat();
            let len = pre_i.stack@[pre_i.stack@.len() - 2].as_nat();
            &&& post_i.stack@ == pre_i.stack@.subrange(
                0,
                pre_i.stack@.len() - 2 - n,
            )
            &&& post_c.journal.view_state().logs.len() == pre_c.journal.view_state().logs.len() + 1
            &&& post_c.journal.view_state().logs.last().address == pre_i.input.target_address
            &&& post_c.journal.view_state().logs.last().topics == Seq::new(
                n as nat,
                |i: int| pre_i.stack@[pre_i.stack@.len() - 3 - i],
            )
            &&& post_c.journal.view_state().logs.last().data.len() == len
            &&& len > 0 ==> post_c.journal.view_state().logs.last().data == post_m@.subrange(offset as int, (offset + len) as int)
        })
}
/// LOGn: pop offset, length, and `n` topics, and append a log; refused in a
/// static context.
pub fn log(interpreter: &mut NewInterpreter, memory: &mut SharedMemory, ctx: &mut Context, n: usize)
    requires
        old(interpreter).wf(),
        old(memory).wf(),
        old(ctx).wf(),
        old(interpreter).control.instruction_result matches InstructionResult::Continue,
        n <= 4,
    ensures
        spec_log_post(*old(interpreter), *final(interpreter), *old(ctx), *final(ctx), *old(memory), *final(memory), n),
{
    if interpreter.runtime_flag.is_static {
        interpreter.control.instruction_result =
        InstructionResult::StateChangeDuringStaticCall;
        return ;
    }
    if interpreter.stack.len() < 2 + n {
        interpreter.control.instruction_result = InstructionResult::StackUnderflow;
        return ;
    }
    let offset_w = pop_known(interpreter);
    let len_w = pop_known(interpreter);
    let ghost stack_after_two = interpreter.stack@;
    let mut topics: Vec<U256> = Vec::new();
    let mut i: usize = 0;
    while i < n
        invariant
            old(interpreter).wf(),
            interpreter.wf(),
            i <= n <= 4,
            stack_after_two.len() >= n,
            spec_env_kept(*old(interpreter), *interpreter),
            interpreter.control.gas == old(interpreter).control.gas,
            interpreter.control.instruction_result == old(interpreter).control.instruction_result,
            interpreter.stack@ == stack_after_two.subrange(0, stack_after_two.len() - i),
            topics@ == Seq::new(i as nat, |j: int| stack_after_two[stack_after_two.len() - 1 - j]),
        decreases n - i,
    {
        let t = pop_known(interpreter);
        topics.push(t);
        i = i + 1;
        proof {
            assert(interpreter.stack@ =~= stack_after_two.subrange(
                0,
                stack_after_two.len() - i,
            ));
            assert(topics@ =~= Seq::new(
                i as nat,
                |j: int| stack_after_two[stack_after_two.len() - 1 - j],
            ));
        }
    }
    let len_for_gas = match len_w.as_usize() {
        Some(l) => l,
        None => {
            interpreter.control.instruction_result = InstructionResult::InvalidOperandOOG;
            return ;
        },
    };
    if len_for_gas > crate::memory::MEMORY_LIMIT_BYTES {
        interpreter.control.instruction_result = InstructionResult::MemoryLimitOOG;
        return ;
    }
    let static_cost = gas::LOG + gas::LOGTOPIC * (n as u64) + gas::LOGDATA * (len_for_gas as u64);
    if !charge(interpreter, static_cost) {
        return ;
    }
    let data = match read_range(interpreter, memory, &offset_w, &len_w) {
        Some(d) => d,
        None => {
            return ;
        },
    };
    let entry = Log { address: interpreter.input.target_address, topics, data };
    let ghost entry_view = entry@;
    ctx.journal.emit_log(entry);
    proof {
        assert(final(ctx).journal.view_state().logs.last() == entry_view);
        assert(final(interpreter).stack@ =~= old(interpreter).stack@.subrange(
            0,
            old(interpreter).stack@.len() - 2 - n,
        ));
        assert(entry_view.topics =~= Seq::new(
            n as nat,
            |i: int| old(interpreter).stack@[old(interpreter).stack@.len() - 3 - i],
        ));
    }
}


/// The exact contract of the matching instruction, as the dispatch states it.
pub open spec fn spec_balance_post(pre_i: NewInterpreter, post_i: NewInterpreter, pre_c: Context, post_c: Context) -> bool {
    &&& (spec_instr_safe(pre_i, post_i))
    &&& (post_i.wf())
    &&& (spec_env_kept(pre_i, post_i))
    &&& (spec_ctx_frame(pre_c, post_c))
    &&& (post_c.journal.refund == pre_c.journal.refund)
    &&& (pre_i.stack@.len() < 1 ==> (post_i.control.instruction_result
            == InstructionResult::StackUnderflow && post_c == pre_c))
    &&& (pre_i.stack@.len() >= 1 && (post_i.control.instruction_result
            matches InstructionResult::Continue) ==> (post_i.stack@ == pre_i.stack@.drop_last().push(post_i.stack@.last()) && post_i.stack@.last().as_nat() == pre_c.journal.view_state().accounts[addr_spec(
            pre_i.stack@.last(),
        )].balance))
}
/// BALANCE: pop an address and push its balance, warming the account.
pub fn balance(interpreter: &mut NewInterpreter, ctx: &mut Context)
    requires
        old(interpreter).wf(),
        old(ctx).wf(),
        old(interpreter).control.instruction_result matches InstructionResult::Continue,
    ensures
        spec_balance_post(*old(interpreter), *final(interpreter), *old(ctx), *final(ctx)),
{
    if interpreter.stack.len() < 1 {
        interpreter.control.instruction_result = InstructionResult::StackUnderflow;
        return ;
    }
    let addr_w = pop_known(interpreter);
    let addr = addr_w.into_address();
    let load = ctx.journal.load_account(addr);
    let cost: u64 = if interpreter.runtime_flag.spec_id.is_enabled_in(SpecId::Berlin) {
        if load.is_cold {
            gas::COLD_ACCOUNT_ACCESS_COST
        } else {
            gas::WARM_STORAGE_READ_COST
        }
    } else {
        700
    };
    if !charge(interpreter, cost) {
        return ;
    }
    push_known(interpreter, load.balance);
}

/// The address a word denotes: its low 160 bits.
pub open spec fn addr_spec(w: U256) -> Address {
    Address { hi: (w.hi % 0x1_0000_0000) as u32, lo: w.lo }
}


/// The exact contract of the matching instruction, as the dispatch states it.
pub open spec fn spec_selfbalance_post(pre_i: NewInterpreter, post_i: NewInterpreter, pre_c: Context, post_c: Context) -> bool {
    &&& (spec_instr_safe(pre_i, post_i))
    &&& (post_i.wf())
    &&& (spec_env_kept(pre_i, post_i))
    &&& (spec_ctx_frame(pre_c, post_c))
    &&& (post_c.journal.refund == pre_c.journal.refund)
    &&& (!spec_enabled(pre_i, SpecId::Istanbul) ==> (post_i.control.instruction_result == InstructionResult::NotActivated && post_c == pre_c))
    &&& (spec_enabled(pre_i, SpecId::Istanbul) && pre_i.control.gas.remaining >= gas::LOW && pre_i.stack@.len() < STACK_LIMIT && (
        post_i.control.instruction_result matches InstructionResult::Continue) ==> (
        post_i.stack@ == pre_i.stack@.push(post_i.stack@.last())
            && post_i.stack@.last().as_nat() == pre_c.journal.view_state().accounts[pre_i.input.target_address].balance))
}
/// SELFBALANCE: push the executing account's balance (Istanbul on).
pub fn selfbalance(interpreter: &mut NewInterpreter, ctx: &mut Context)
    requires
        old(interpreter).wf(),
        old(ctx).wf(),
        old(interpreter).control.instruction_result matches InstructionResult::Continue,
    ensures
        spec_selfbalance_post(*old(interpreter), *final(interpreter), *old(ctx), *final(ctx)),
{
    if !interpreter.runtime_flag.spec_id.is_enabled_in(SpecId::Istanbul) {
        interpreter.control.instruction_result = InstructionResult::NotActivated;
        return ;
    }
    let load = ctx.journal.load_account(interpreter.input.target_address);
    if !charge(interpreter, gas::LOW) {
        return ;
    }
    if !interpreter.stack.push(load.balance) {
        interpreter.control.instruction_result = InstructionResult::StackOverflow;
    }
}


/// The exact contract of the matching instruction, as the dispatch states it.
pub open spec fn spec_selfdestruct_post(pre_i: NewInterpreter, post_i: NewInterpreter, pre_c: Context, post_c: Context) -> bool {
    &&& (spec_instr_safe(pre_i, post_i))
    &&& (post_i.wf())
    &&& (spec_env_kept(pre_i, post_i))
    &&& (spec_ctx_frame(pre_c, post_c))
    &&& (pre_i.runtime_flag.is_static ==> (post_i.control.instruction_result
            == InstructionResult::StateChangeDuringStaticCall && post_c == pre_c))
    &&& (!pre_i.runtime_flag.is_static && pre_i.stack@.len() < 1 ==> (post_i.control.instruction_result == InstructionResult::StackUnderflow && post_c == pre_c))
    &&& (!pre_i.runtime_flag.is_static && pre_i.stack@.len() >= 1 && (post_i.control.instruction_result matches InstructionResult::SelfDestruct) ==> {
            let target = addr_spec(pre_i.stack@.last());
            let me = pre_i.input.target_address;
            &&& post_i.stack@ == pre_i.stack@.drop_last()
            &&& post_c.journal.view_state().accounts
                == crate::journal::spec_selfdestruct_accounts(
                (StateView {
                    warm_accounts: pre_c.journal.view_state().warm_accounts.insert(target),
                    ..pre_c.journal.view_state()
                }).accounts,
                me,
                target,
            )
            &&& post_c.journal.view_state().accounts[me].balance == 0
            &&& post_c.journal.view_state().accounts[me].destroyed
        })
    &&& (!(post_i.control.instruction_result matches InstructionResult::Continue)
            || (post_i.control.instruction_result
            matches InstructionResult::SelfDestruct))
}
/// SELFDESTRUCT: pop the beneficiary, move the whole balance there, and
/// mark the account destroyed; refused in a static context. Whether the
/// account is actually deleted is decided when the transaction is finalized
/// (only accounts created in the same transaction, from Cancun on).
pub fn selfdestruct(interpreter: &mut NewInterpreter, ctx: &mut Context)
    requires
        old(interpreter).wf(),
        old(ctx).wf(),
        old(interpreter).control.instruction_result matches InstructionResult::Continue,
    ensures
        spec_selfdestruct_post(*old(interpreter), *final(interpreter), *old(ctx), *final(ctx)),
{
    if interpreter.runtime_flag.is_static {
        interpreter.control.instruction_result =
        InstructionResult::StateChangeDuringStaticCall;
        return ;
    }
    if interpreter.stack.len() < 1 {
        interpreter.control.instruction_result = InstructionResult::StackUnderflow;
        return ;
    }
    let target_w = pop_known(interpreter);
    let target = target_w.into_address();
    let me = interpreter.input.target_address;
    let load = ctx.journal.load_account(target);
    let res = ctx.journal.selfdestruct(me, target);
    let mut cost: u64 = gas::SELFDESTRUCT;
    if interpreter.runtime_flag.spec_id.is_enabled_in(SpecId::Berlin) && load.is_cold {
        cost = cost + gas::COLD_ACCOUNT_ACCESS_COST;
    }
    if interpreter.runtime_flag.spec_id.is_enabled_in(SpecId::SpuriousDragon) && res.had_value
        && !res.target_exists {
        cost = cost + gas::NEWACCOUNT;
    }
    if !charge(interpreter, cost) {
        return ;
    }
    if !interpreter.runtime_flag.spec_id.is_enabled_in(SpecId::London)
        && !res.previously_destroyed {
        ctx.journal.record_refund_saturating(gas::SELFDESTRUCT_REFUND as i64);
    }
    interpreter.control.instruction_result = InstructionResult::SelfDestruct;
}



/// The base cost of a call before forwarding: the account access (cold or
/// warm from Berlin on, the flat pre-Berlin charge before), the value
/// surcharge, and the new-account surcharge for funding an empty account.
pub open spec fn spec_call_base_cost(
    pre_i: NewInterpreter,
    pre_c: Context,
    to: Address,
    value: nat,
) -> int {
    let access: int = if spec_enabled(pre_i, SpecId::Berlin) {
        if !pre_c.journal.view_state().warm_accounts.contains(to) {
            gas::COLD_ACCOUNT_ACCESS_COST as int
        } else {
            gas::WARM_STORAGE_READ_COST as int
        }
    } else {
        700
    };
    access + (if value != 0 {
        gas::CALLVALUE as int
    } else {
        0
    }) + (if value != 0 && spec_enabled(pre_i, SpecId::SpuriousDragon)
        && pre_c.journal.view_state().accounts[to].is_empty() {
        gas::NEWACCOUNT as int
    } else {
        0
    })
}

/// The gas a child call is granted: the 63/64 rule over what remains after
/// the base cost, plus the stipend for a value-carrying call.
pub open spec fn spec_forwarded_gas(requested: nat, left: int, has_value: bool) -> int {
    let cap = left - left / 64;
    let fwd: int = if requested < cap {
        requested as int
    } else {
        cap
    };
    fwd + (if has_value {
        gas::CALL_STIPEND as int
    } else {
        0
    })
}


/// A word value clamped to the u64 range, as the call's gas operand reads.
pub open spec fn spec_u64_saturated(v: nat) -> nat {
    if v <= u64::MAX {
        v
    } else {
        u64::MAX as nat
    }
}

/// The exact contract of the matching instruction, as the dispatch states it.
pub open spec fn spec_call_post(pre_i: NewInterpreter, post_i: NewInterpreter, pre_c: Context, post_c: Context, pre_m: SharedMemory, post_m: SharedMemory, force_static: bool) -> bool {
    &&& (post_i.wf())
    &&& (spec_instr_frame(pre_i, post_i))
    &&& (spec_ctx_frame(pre_c, post_c))
    &&& (spec_mem_frame(pre_m, post_m))
    &&& ((post_i.control.next_action matches InterpreterAction::NewFrame(_)) == (post_i.control.instruction_result matches InstructionResult::CallOrCreate))
    &&& (!(post_i.control.next_action matches InterpreterAction::Return(_)))
    &&& (post_i.control.next_action matches InterpreterAction::NewFrame(fi) ==> (
        spec_frame_input_gas(fi) + post_i.control.gas.remaining < pre_i.control.gas.remaining && (fi matches FrameInput::Call(ci) && ci.caller == pre_i.input.target_address && ci.target_address == addr_spec(
            pre_i.stack@[pre_i.stack@.len() - 2],
        ) && ci.is_static == (pre_i.runtime_flag.is_static || force_static) && (
        force_static ==> ci.value.as_nat() == 0) && ({
            let stipend: int = if ci.value.as_nat() != 0 {
                gas::CALL_STIPEND as int
            } else {
                0
            };
            let forwarded = ci.gas_limit - stipend;
            let left = post_i.control.gas.remaining + forwarded;
            &&& ci.gas_limit == spec_forwarded_gas(
                spec_u64_saturated(pre_i.stack@.last().as_nat()),
                left,
                ci.value.as_nat() != 0,
            )
            &&& left <= pre_i.control.gas.remaining - spec_call_base_cost(
                pre_i,
                pre_c,
                ci.target_address,
                ci.value.as_nat(),
            )
        }))))
    &&& ((post_i.control.instruction_result matches InstructionResult::Continue)
            ==> post_i.control.gas.remaining < pre_i.control.gas.remaining)
}
/// CALL and STATICCALL: build the child frame's inputs, apply the 63/64
/// forwarding rule and the value stipend, and yield to the frame driver.
#[verifier::rlimit(100)]
pub fn call(
    interpreter: &mut NewInterpreter,
    memory: &mut SharedMemory,
    ctx: &mut Context,
    force_static: bool,
)
    requires
        old(interpreter).wf(),
        old(ctx).wf(),
        old(memory).wf(),
        old(interpreter).control.next_action matches InterpreterAction::Unset,
    ensures
        spec_call_post(*old(interpreter), *final(interpreter), *old(ctx), *final(ctx), *old(memory), *final(memory), force_static),
{
    let arity: usize = if force_static {
        6
    } else {
        7
    };
    if interpreter.stack.len() < arity {
        interpreter.control.instruction_result = InstructionResult::StackUnderflow;
        return ;
    }
    let gas_w = pop_known(interpreter);
    let to_w = pop_known(interpreter);
    let value: U256 = if force_static {
        U256::zero()
    } else {
        pop_known(interpreter)
    };
    let in_off_w = pop_known(interpreter);
    let in_len_w = pop_known(interpreter);
    let out_off_w = pop_known(interpreter);
    let out_len_w = pop_known(interpreter);
    if interpreter.runtime_flag.is_static && !value.is_zero() {
        interpreter.control.instruction_result =
        InstructionResult::StateChangeDuringStaticCall;
        return ;
    }
    let in_len = match in_len_w.as_usize() {
        Some(l) => l,
        None => {
            interpreter.control.instruction_result = InstructionResult::InvalidOperandOOG;
            return ;
        },
    };
    let in_off = if in_len == 0 {
        0
    } else {
        match in_off_w.as_usize() {
            Some(o) => o,
            None => {
                interpreter.control.instruction_result = InstructionResult::InvalidOperandOOG;
                return ;
            },
        }
    };
    let out_len = match out_len_w.as_usize() {
        Some(l) => l,
        None => {
            interpreter.control.instruction_result = InstructionResult::InvalidOperandOOG;
            return ;
        },
    };
    let out_off = if out_len == 0 {
        0
    } else {
        match out_off_w.as_usize() {
            Some(o) => o,
            None => {
                interpreter.control.instruction_result = InstructionResult::InvalidOperandOOG;
                return ;
            },
        }
    };
    if in_off > crate::memory::MEMORY_LIMIT_BYTES || in_len > crate::memory::MEMORY_LIMIT_BYTES
        || out_off > crate::memory::MEMORY_LIMIT_BYTES || out_len
        > crate::memory::MEMORY_LIMIT_BYTES {
        interpreter.control.instruction_result = InstructionResult::MemoryLimitOOG;
        return ;
    }
    if in_len > 0 {
        if !resize_memory(interpreter, memory, in_off + in_len) {
            return ;
        }
    }
    if out_len > 0 {
        if !resize_memory(interpreter, memory, out_off + out_len) {
            return ;
        }
    }
    let to = to_w.into_address();
    let load = ctx.journal.load_account(to);
    let mut cost: u64 = if interpreter.runtime_flag.spec_id.is_enabled_in(SpecId::Berlin) {
        if load.is_cold {
            gas::COLD_ACCOUNT_ACCESS_COST
        } else {
            gas::WARM_STORAGE_READ_COST
        }
    } else {
        700
    };
    let has_value = !value.is_zero();
    if has_value {
        cost = cost + gas::CALLVALUE;
        if interpreter.runtime_flag.spec_id.is_enabled_in(SpecId::SpuriousDragon)
            && load.is_empty {
            cost = cost + gas::NEWACCOUNT;
        }
    }
    if !charge(interpreter, cost) {
        return ;
    }
    let gas_req = gas_w.as_u64_saturated();
    let remaining = interpreter.control.gas.remaining();
    let cap = remaining - remaining / 64;
    let forwarded = if gas_req < cap {
        gas_req
    } else {
        cap
    };
    let charged = self_record_cost(interpreter, forwarded);
    proof {
        assert(charged);
    }
    let child_limit = if has_value {
        forwarded + gas::CALL_STIPEND
    } else {
        forwarded
    };
    let input = if in_len > 0 {
        memory.read(in_off, in_len)
    } else {
        Vec::new()
    };
    let inputs = CallInputs {
        caller: interpreter.input.target_address,
        target_address: to,
        value,
        input,
        gas_limit: child_limit,
        is_static: interpreter.runtime_flag.is_static || force_static,
        return_memory_start: out_off,
        return_memory_len: out_len,
    };
    interpreter.control.next_action = InterpreterAction::NewFrame(FrameInput::Call(inputs));
    interpreter.control.instruction_result = InstructionResult::CallOrCreate;
}

/// Push a word the caller knows will fit.
fn push_known(interpreter: &mut NewInterpreter, w: U256)
    requires
        old(interpreter).wf(),
        old(interpreter).stack@.len() < STACK_LIMIT,
    ensures
        final(interpreter).wf(),
        spec_env_kept(*old(interpreter), *final(interpreter)),
        final(interpreter).control.gas == old(interpreter).control.gas,
        final(interpreter).control.instruction_result == old(
            interpreter,
        ).control.instruction_result,
        final(interpreter).stack@ == old(interpreter).stack@.push(w),
{
    let ok = interpreter.stack.push(w);
    proof {
        assert(ok);
    }
}

} // verus!
