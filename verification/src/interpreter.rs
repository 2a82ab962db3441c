//! The interpreter: one frame's bytecode cursor, stack, gas, and loop
//! control, and the fetch-execute-advance driver over them.
//!
//! The loop runs while the control discriminant is `Continue`; every
//! continuing instruction charges at least one unit of gas, so the gas
//! meter bounds execution. An instruction that needs a child frame yields
//! `CallOrCreate` together with the child's inputs, and the frame driver
//! takes over.

use vstd::prelude::*;

use crate::bytecode::{Bytecode, ExtBytecode};
use crate::env::{Context, SpecId};
use crate::gas::Gas;
use crate::journal::JournaledState;
use crate::memory::SharedMemory;
use crate::result::InstructionResult;
use crate::stack::{Stack, STACK_LIMIT};
use crate::word::{Address, U256};

verus! {

/// The inputs a frame was entered with.
pub struct InputsImpl {
    pub caller: Address,
    pub target_address: Address,
    pub value: U256,
    pub call_data: Vec<u8>,
}

/// Flags fixed for the lifetime of one interpreter.
#[derive(Clone, Copy, PartialEq, Eq, Structural, Debug)]
pub struct RuntimeFlags {
    pub spec_id: SpecId,
    pub is_static: bool,
    pub is_eof: bool,
    pub is_eof_init: bool,
}

/// The result of an interpreter run: discriminant, output bytes, and the
/// frame's gas meter.
pub struct InterpreterResult {
    /// The result of the instruction execution.
    pub result: InstructionResult,
    /// The output of the instruction execution.
    pub output: Vec<u8>,
    /// The gas usage information.
    pub gas: Gas,
}

impl InterpreterResult {
    /// A new result from the given values.
    pub fn new(result: InstructionResult, output: Vec<u8>, gas: Gas) -> (r: InterpreterResult)
        ensures
            r.result == result,
            r.output == output,
            r.gas == gas,
    {
        InterpreterResult { result, output, gas }
    }

    /// Whether the instruction result is a success.
    pub fn is_ok(&self) -> (r: bool)
        ensures
            r == self.result.spec_is_ok(),
    {
        self.result.is_ok()
    }

    /// Whether the instruction result is a revert.
    pub fn is_revert(&self) -> (r: bool)
        ensures
            r == self.result.spec_is_revert(),
    {
        self.result.is_revert()
    }

    /// Whether the instruction result is an error.
    pub fn is_error(&self) -> (r: bool)
        ensures
            r == self.result.spec_is_error(),
    {
        self.result.is_error()
    }
}

/// Inputs of a child call frame.
pub struct CallInputs {
    pub caller: Address,
    pub target_address: Address,
    pub value: U256,
    pub input: Vec<u8>,
    pub gas_limit: u64,
    pub is_static: bool,
    /// Start of the parent's output window.
    pub return_memory_start: usize,
    /// Length of the parent's output window.
    pub return_memory_len: usize,
}

/// Inputs of a child create frame. The engine takes the derived address as
/// an input: deriving it needs a keccak-256 hash, which is the embedder's
/// concern.
pub struct CreateInputs {
    pub caller: Address,
    pub value: U256,
    pub init_code: Vec<u8>,
    pub gas_limit: u64,
    pub created_address: Address,
    pub salt: Option<U256>,
}

/// Inputs of an EOF create frame.
pub struct EOFCreateInputs {
    pub caller: Address,
    pub value: U256,
    pub init_container: Vec<u8>,
    pub gas_limit: u64,
    pub created_address: Address,
}

/// A request for a child frame, as the driver receives it.
pub enum FrameInput {
    Call(CallInputs),
    Create(CreateInputs),
    EOFCreate(EOFCreateInputs),
}

/// The gas granted to the requested child frame.
pub open spec fn spec_frame_input_gas(fi: FrameInput) -> int {
    match fi {
        FrameInput::Call(c) => c.gas_limit as int,
        FrameInput::Create(c) => c.gas_limit as int,
        FrameInput::EOFCreate(c) => c.gas_limit as int,
    }
}

/// What the interpreter yields when its loop stops.
pub enum InterpreterAction {
    /// Nothing yet; only seen while the loop is still running.
    Unset,
    /// The frame ended; result, output, and gas.
    Return(InterpreterResult),
    /// A child frame was requested.
    NewFrame(FrameInput),
}

impl InterpreterAction {
    pub fn is_unset(&self) -> (r: bool)
        ensures
            r == (*self matches InterpreterAction::Unset),
    {
        matches!(self, InterpreterAction::Unset)
    }
}

/// Loop control: the current discriminant, the pending action, and the gas
/// meter.
pub struct LoopControl {
    pub instruction_result: InstructionResult,
    pub next_action: InterpreterAction,
    pub gas: Gas,
}

/// The interpreter state of one frame. The shared memory stays with the
/// frame driver and is lent to `run` and `step`.
pub struct NewInterpreter {
    pub bytecode: ExtBytecode,
    pub stack: Stack,
    pub return_data: Vec<u8>,
    pub input: InputsImpl,
    pub runtime_flag: RuntimeFlags,
    pub control: LoopControl,
}

impl NewInterpreter {
    pub open spec fn wf(self) -> bool {
        &&& self.bytecode.wf()
        &&& self.stack.wf()
        &&& self.control.gas.wf()
    }

    /// A fresh interpreter over analyzed bytecode.
    pub fn new(
        bytecode: Bytecode,
        inputs: InputsImpl,
        is_static: bool,
        is_eof_init: bool,
        spec_id: SpecId,
        gas_limit: u64,
    ) -> (r: NewInterpreter)
        requires
            bytecode.wf(),
        ensures
            r.wf(),
            r.bytecode.base.code@ == bytecode.code@,
            r.bytecode.pc == 0,
            r.stack@ == Seq::<U256>::empty(),
            r.return_data@ == Seq::<u8>::empty(),
            r.input == inputs,
            r.runtime_flag == (RuntimeFlags { spec_id, is_static, is_eof: false, is_eof_init }),
            r.control.gas.limit == gas_limit,
            r.control.gas.remaining == gas_limit,
            r.control.gas.refunded == 0,
            r.control.instruction_result == InstructionResult::Continue,
            r.control.next_action matches InterpreterAction::Unset,
    {
        NewInterpreter {
            bytecode: ExtBytecode::new(bytecode),
            stack: Stack::new(),
            return_data: Vec::new(),
            input: inputs,
            runtime_flag: RuntimeFlags { spec_id, is_static, is_eof: false, is_eof_init },
            control: LoopControl {
                instruction_result: InstructionResult::Continue,
                next_action: InterpreterAction::Unset,
                gas: Gas::new(gas_limit),
            },
        }
    }
}

/// The per-step frame invariants: code, inputs and flags are fixed, the gas
/// limit is fixed, and remaining gas never grows.
pub open spec fn spec_instr_frame(pre: NewInterpreter, post: NewInterpreter) -> bool {
    &&& post.bytecode.base.code@ == pre.bytecode.base.code@
    &&& post.input == pre.input
    &&& post.runtime_flag == pre.runtime_flag
    &&& post.control.gas.limit == pre.control.gas.limit
    &&& post.control.gas.remaining <= pre.control.gas.remaining
}

/// The per-step context invariants: the environments are fixed and the
/// journal only moves forward (existing entries and snapshots are kept).
pub open spec fn spec_ctx_frame(pre: Context, post: Context) -> bool {
    &&& post.journal.wf()
    &&& JournaledState::snap_framing(pre.journal, post.journal)
    &&& post.journal.marks@ == pre.journal.marks@
    &&& post.block == pre.block
    &&& post.cfg == pre.cfg
    &&& post.tx == pre.tx
}

/// The per-step memory invariants: well-formed, same context depth, same
/// window start.
pub open spec fn spec_mem_frame(pre: SharedMemory, post: SharedMemory) -> bool {
    &&& post.wf()
    &&& post.frame_starts@ == pre.frame_starts@
}

/// What every instruction guarantees: frame invariants, gas progress while
/// continuing, and exact gas accounting for a requested child frame.
pub open spec fn spec_instr_post(
    pre_i: NewInterpreter,
    post_i: NewInterpreter,
    pre_c: Context,
    post_c: Context,
    pre_m: SharedMemory,
    post_m: SharedMemory,
) -> bool {
    &&& post_i.wf()
    &&& spec_instr_frame(pre_i, post_i)
    &&& spec_ctx_frame(pre_c, post_c)
    &&& spec_mem_frame(pre_m, post_m)
    &&& post_i.control.instruction_result matches InstructionResult::Continue
        ==> post_i.control.gas.remaining < pre_i.control.gas.remaining
    &&& (post_i.control.next_action matches InterpreterAction::NewFrame(_))
        == (post_i.control.instruction_result matches InstructionResult::CallOrCreate)
    &&& post_i.control.next_action matches InterpreterAction::NewFrame(fi) ==> spec_frame_input_gas(
        fi,
    ) + post_i.control.gas.remaining < pre_i.control.gas.remaining
    &&& (post_i.control.next_action matches InterpreterAction::Return(_))
        ==> !(post_i.control.instruction_result matches InstructionResult::Continue)
}


/// The interpreter right after the fetch: the cursor moved past the opcode
/// byte (saturating at the top of the address space).
pub open spec fn spec_fetched(i: NewInterpreter) -> NewInterpreter {
    NewInterpreter {
        bytecode: ExtBytecode {
            base: i.bytecode.base,
            pc: if i.bytecode.pc < usize::MAX {
                (i.bytecode.pc + 1) as usize
            } else {
                i.bytecode.pc
            },
        },
        ..i
    }
}

/// One machine step: fetch the opcode at the cursor, advance past it, and
/// execute exactly that opcode's handler.
pub open spec fn spec_machine_step(
    a_i: NewInterpreter,
    a_c: Context,
    a_m: SharedMemory,
    b_i: NewInterpreter,
    b_c: Context,
    b_m: SharedMemory,
) -> bool {
    crate::instructions::spec_instruction_post(
        crate::bytecode::spec_opcode_at(a_i.bytecode.base.code@, a_i.bytecode.pc as int),
        spec_fetched(a_i),
        b_i,
        a_c,
        b_c,
        a_m,
        b_m,
    )
}

/// The state `b` is reached from `a` by exactly `n` machine steps.
pub open spec fn spec_reaches(
    n: nat,
    a_i: NewInterpreter,
    a_c: Context,
    a_m: SharedMemory,
    b_i: NewInterpreter,
    b_c: Context,
    b_m: SharedMemory,
) -> bool
    decreases n,
{
    if n == 0 {
        b_i == a_i && b_c == a_c && b_m == a_m
    } else {
        exists|m_i: NewInterpreter, m_c: Context, m_m: SharedMemory|
            spec_reaches((n - 1) as nat, a_i, a_c, a_m, m_i, m_c, m_m) && spec_machine_step(
                m_i,
                m_c,
                m_m,
                b_i,
                b_c,
                b_m,
            )
    }
}


/// The run loop's anchor: the final state is reached from the loop's start
/// state by some number of machine steps of the program itself.
#[verifier::opaque]
pub open spec fn spec_ran(
    pre_i: NewInterpreter,
    pre_c: Context,
    pre_m: SharedMemory,
    post_i: NewInterpreter,
    post_c: Context,
    post_m: SharedMemory,
) -> bool {
    exists|n: nat|
        spec_reaches(n, spec_run_start(pre_i), pre_c, pre_m, post_i, post_c, post_m)
}

/// The state the run loop starts from: the continue discriminant and no
/// pending action.
pub open spec fn spec_run_start(i: NewInterpreter) -> NewInterpreter {
    NewInterpreter {
        control: LoopControl {
            instruction_result: InstructionResult::Continue,
            next_action: InterpreterAction::Unset,
            gas: i.control.gas,
        },
        ..i
    }
}

/// Whether two frame inputs carry the same request (equal fields, with byte
/// buffers compared by content).
#[verifier::opaque]
pub open spec fn spec_same_frame_input(a: FrameInput, b: FrameInput) -> bool {
    match a {
        FrameInput::Call(x) => b matches FrameInput::Call(y) && x.caller == y.caller
            && x.target_address == y.target_address && x.value == y.value && x.input@ == y.input@
            && x.gas_limit == y.gas_limit && x.is_static == y.is_static && x.return_memory_start
            == y.return_memory_start && x.return_memory_len == y.return_memory_len,
        FrameInput::Create(x) => b matches FrameInput::Create(y) && x.caller == y.caller && x.value
            == y.value && x.init_code@ == y.init_code@ && x.gas_limit == y.gas_limit
            && x.created_address == y.created_address && x.salt == y.salt,
        FrameInput::EOFCreate(x) => b matches FrameInput::EOFCreate(y) && x.caller == y.caller
            && x.value == y.value && x.init_container@ == y.init_container@ && x.gas_limit
            == y.gas_limit && x.created_address == y.created_address,
    }
}

/// Copy a frame input, field for field.
pub fn clone_frame_input(fi: &FrameInput) -> (r: FrameInput)
    ensures
        spec_same_frame_input(*fi, r),
        spec_frame_input_gas(r) == spec_frame_input_gas(*fi),
{
    proof {
        reveal(spec_same_frame_input);
    }
    match fi {
        FrameInput::Call(c) => FrameInput::Call(
            CallInputs {
                caller: c.caller,
                target_address: c.target_address,
                value: c.value,
                input: crate::state::clone_bytes(&c.input),
                gas_limit: c.gas_limit,
                is_static: c.is_static,
                return_memory_start: c.return_memory_start,
                return_memory_len: c.return_memory_len,
            },
        ),
        FrameInput::Create(c) => FrameInput::Create(
            CreateInputs {
                caller: c.caller,
                value: c.value,
                init_code: crate::state::clone_bytes(&c.init_code),
                gas_limit: c.gas_limit,
                created_address: c.created_address,
                salt: c.salt,
            },
        ),
        FrameInput::EOFCreate(c) => FrameInput::EOFCreate(
            EOFCreateInputs {
                caller: c.caller,
                value: c.value,
                init_container: crate::state::clone_bytes(&c.init_container),
                gas_limit: c.gas_limit,
                created_address: c.created_address,
            },
        ),
    }
}

/// A provider of instruction implementations: the dispatch from opcode bytes
/// to handlers, parameterized so a decorated table (an inspector) can stand
/// in for the plain one.
pub trait InstructionProvider {
    /// Execute the handler of `op`.
    fn exec(
        &self,
        op: u8,
        interpreter: &mut NewInterpreter,
        memory: &mut SharedMemory,
        ctx: &mut Context,
    )
        requires
            old(interpreter).wf(),
            old(ctx).wf(),
            old(memory).wf(),
            old(interpreter).control.next_action matches InterpreterAction::Unset,
            old(interpreter).control.instruction_result matches InstructionResult::Continue,
        ensures
            spec_instr_post(
                *old(interpreter),
                *final(interpreter),
                *old(ctx),
                *final(ctx),
                *old(memory),
                *final(memory),
            ),
            crate::instructions::spec_instruction_post(
                op,
                *old(interpreter),
                *final(interpreter),
                *old(ctx),
                *final(ctx),
                *old(memory),
                *final(memory),
            ),
    ;
}

/// The plain mainnet instruction set.
pub struct EthInstructionProvider {
    /// Marker only: the dispatch is total over the opcode byte.
    pub table_is_total: bool,
}

impl EthInstructionProvider {
    pub fn new() -> (r: EthInstructionProvider)
        ensures
            r.table_is_total,
    {
        EthInstructionProvider { table_is_total: true }
    }
}

impl InstructionProvider for EthInstructionProvider {
    fn exec(
        &self,
        op: u8,
        interpreter: &mut NewInterpreter,
        memory: &mut SharedMemory,
        ctx: &mut Context,
    ) {
        crate::instructions::instruction_dispatch(op, interpreter, memory, ctx);
    }
}

/// A marker for the mainnet interpreter configuration: the stack, memory,
/// bytecode, and control types this module wires together.
pub struct EthInterpreter {
    pub mainnet: bool,
}

impl NewInterpreter {
    /// Execute the instruction at the program counter and advance past it.
    pub fn step<I: InstructionProvider>(
        &mut self,
        table: &I,
        memory: &mut SharedMemory,
        ctx: &mut Context,
    )
        requires
            old(self).wf(),
            old(ctx).wf(),
            old(memory).wf(),
            old(self).control.next_action matches InterpreterAction::Unset,
            old(self).control.instruction_result matches InstructionResult::Continue,
        ensures
            spec_instr_post(
                *old(self),
                *final(self),
                *old(ctx),
                *final(ctx),
                *old(memory),
                *final(memory),
            ),
            spec_machine_step(
                *old(self),
                *old(ctx),
                *old(memory),
                *final(self),
                *final(ctx),
                *final(memory),
            ),
    {
        let op = self.bytecode.opcode();
        if self.bytecode.pc() < usize::MAX {
            self.bytecode.relative_jump(1);
        }
        proof {
            assert(*self == spec_fetched(*old(self)));
        }
        table.exec(op, self, memory, ctx);
    }

    /// Run the interpreter until it halts or requests a child frame, and
    /// yield the action. The gas meter bounds the loop: every continuing
    /// instruction consumes gas.
    pub fn run<I: InstructionProvider>(
        &mut self,
        table: &I,
        memory: &mut SharedMemory,
        ctx: &mut Context,
    ) -> (action: InterpreterAction)
        requires
            old(self).wf(),
            old(ctx).wf(),
            old(memory).wf(),
        ensures
            final(self).wf(),
            spec_instr_frame(*old(self), *final(self)),
            spec_ctx_frame(*old(ctx), *final(ctx)),
            spec_mem_frame(*old(memory), *final(memory)),
            !(final(self).control.instruction_result matches InstructionResult::Continue),
            spec_ran(
                *old(self),
                *old(ctx),
                *old(memory),
                *final(self),
                *final(ctx),
                *final(memory),
            ),
            final(self).control.next_action matches InterpreterAction::Unset ==> (
            action matches InterpreterAction::Return(r) && r.result == final(self).control.instruction_result && r.gas == final(self).control.gas && r.output@ == Seq::<
                u8,
            >::empty()),
            final(self).control.next_action matches InterpreterAction::Return(r0) ==> (
            action matches InterpreterAction::Return(r) && r.result == final(self).control.instruction_result && r.gas == final(self).control.gas && r.output@
                == r0.output@),
            final(self).control.next_action matches InterpreterAction::NewFrame(f0) ==> (
            action matches InterpreterAction::NewFrame(f) && spec_same_frame_input(f0, f)),
            action matches InterpreterAction::Return(r) ==> (r.result == final(self).control.instruction_result && r.gas == final(self).control.gas),
            action matches InterpreterAction::NewFrame(fi) ==> (final(self).control.instruction_result matches InstructionResult::CallOrCreate
                && spec_frame_input_gas(fi) + final(self).control.gas.remaining < old(self).control.gas.remaining),
            !(action matches InterpreterAction::Unset),
            (final(self).control.next_action matches InterpreterAction::NewFrame(_)) == (final(self).control.instruction_result matches InstructionResult::CallOrCreate),
    {
        self.control.instruction_result = InstructionResult::Continue;
        self.control.next_action = InterpreterAction::Unset;
        let ghost start = *self;
        let ghost start_ctx = *ctx;
        let ghost start_mem = *memory;
        let ghost mut steps: nat = 0nat;
        proof {
            assert(spec_reaches(0nat, start, start_ctx, start_mem, *self, *ctx, *memory));
        }
        while self.control.instruction_result.is_continue()
            invariant
                self.wf(),
                ctx.wf(),
                memory.wf(),
                spec_instr_frame(start, *self),
                spec_ctx_frame(start_ctx, *ctx),
                spec_mem_frame(start_mem, *memory),
                spec_reaches(steps, start, start_ctx, start_mem, *self, *ctx, *memory),
                self.control.instruction_result matches InstructionResult::Continue
                    ==> self.control.next_action matches InterpreterAction::Unset,
                (self.control.next_action matches InterpreterAction::NewFrame(_))
                    == (self.control.instruction_result matches InstructionResult::CallOrCreate),
                self.control.next_action matches InterpreterAction::NewFrame(fi)
                    ==> spec_frame_input_gas(fi) + self.control.gas.remaining
                    < start.control.gas.remaining,
            decreases spec_loop_measure(*self),
        {
            let ghost pre = *self;
            let ghost pre_ctx = *ctx;
            let ghost pre_mem = *memory;
            self.step(table, memory, ctx);
            proof {
                lemma_ctx_frame_trans(start_ctx, pre_ctx, *ctx);
                steps = steps + 1;
                assert(spec_reaches(steps, start, start_ctx, start_mem, *self, *ctx, *memory)) by {
                    assert(spec_reaches(
                        (steps - 1) as nat,
                        start,
                        start_ctx,
                        start_mem,
                        pre,
                        pre_ctx,
                        pre_mem,
                    ));
                    assert(spec_machine_step(pre, pre_ctx, pre_mem, *self, *ctx, *memory));
                }
            }
        }
        proof {
            reveal(spec_ran);
        }
        match &self.control.next_action {
            InterpreterAction::Unset => InterpreterAction::Return(
                InterpreterResult {
                    result: self.control.instruction_result,
                    output: Vec::new(),
                    gas: self.control.gas,
                },
            ),
            InterpreterAction::Return(r0) => InterpreterAction::Return(
                InterpreterResult {
                    result: self.control.instruction_result,
                    output: crate::state::clone_bytes(&r0.output),
                    gas: self.control.gas,
                },
            ),
            InterpreterAction::NewFrame(f0) => InterpreterAction::NewFrame(clone_frame_input(f0)),
        }
    }
}

/// The loop measure: remaining gas, plus one while the loop will go on.
/// Every continuing instruction costs gas, so the measure falls each step.
pub open spec fn spec_loop_measure(i: NewInterpreter) -> int {
    if (i.control.instruction_result matches InstructionResult::Continue) {
        i.control.gas.remaining + 1
    } else {
        i.control.gas.remaining as int
    }
}

/// Context framing composes.
pub proof fn lemma_ctx_frame_trans(a: Context, b: Context, c: Context)
    requires
        spec_ctx_frame(a, b),
        spec_ctx_frame(b, c),
    ensures
        spec_ctx_frame(a, c),
{
    crate::journal::lemma_snap_framing_trans(a.journal, b.journal, c.journal);
}

} // verus!
