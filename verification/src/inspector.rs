//! Inspection hooks: a passive decorator around the instruction dispatch and
//! the frame boundaries.
//!
//! An inspector receives `step`/`step_end` around every instruction,
//! `frame_start`/`frame_end` at frame boundaries, and the emitted logs and
//! selfdestructs. It may cut a frame short only by answering `frame_start`
//! with a synthetic result; it cannot touch the interpreter itself, which
//! the contracts of [`InspectorInstructionProvider`] enforce.

use vstd::prelude::*;

use crate::env::Context;
use crate::frames::{CallOutcome, CreateOutcome, FrameResult};
use crate::instructions::instruction_dispatch;
use crate::interpreter::{
    spec_instr_post, FrameInput, InstructionProvider, InterpreterAction, NewInterpreter,
};
use crate::journal::{JournalEntry, JournaledState};
use crate::memory::SharedMemory;
use crate::result::InstructionResult;
use crate::state::Log;
use crate::word::{Address, U256};

verus! {

/// Observations an inspector collects, one record per event. The engine
/// computes the records; printing them is the embedder's business.
pub struct StepRecord {
    /// Frame depth of the observed interpreter.
    pub depth: usize,
    /// Program counter before the instruction.
    pub pc: usize,
    /// The opcode byte.
    pub opcode: u8,
    /// Gas remaining before the instruction.
    pub gas_remaining: u64,
    /// Refund counter of the journal.
    pub refund: i64,
    /// Stack depth before the instruction.
    pub stack_len: usize,
    /// Memory window length before the instruction.
    pub memory_size: usize,
}

/// Interpreter callbacks. Every hook defaults to doing nothing, so an
/// inspector implements only what it observes.
pub trait Inspector {
    /// Called before the interpreter of a new frame starts.
    fn initialize_interp(&mut self, interp: &NewInterpreter, context: &Context);

    /// Called on each step of the interpreter, before the instruction, with
    /// the active memory window's length.
    fn step(&mut self, interp: &NewInterpreter, context: &Context, memory_size: usize);

    /// Called after the instruction has executed, with the active memory
    /// window's length.
    fn step_end(&mut self, interp: &NewInterpreter, context: &Context, memory_size: usize);

    /// Called when a log is emitted.
    fn log(&mut self, interp: &NewInterpreter, context: &Context, log: &Log);

    /// Called before a call child frame opens; `Some` overrides the call
    /// with a synthetic outcome.
    fn call(&mut self, context: &Context, inputs: &FrameInput) -> (r: Option<CallOutcome>);

    /// Called when a call child frame has concluded.
    fn call_end(&mut self, context: &Context, inputs: &FrameInput, outcome: &CallOutcome);

    /// Called before a create child frame opens; `Some` overrides it.
    fn create(&mut self, context: &Context, inputs: &FrameInput) -> (r: Option<CreateOutcome>);

    /// Called when a create child frame has concluded.
    fn create_end(&mut self, context: &Context, inputs: &FrameInput, outcome: &CreateOutcome);

    /// Called before an EOF create child frame opens; `Some` overrides it.
    fn eofcreate(&mut self, context: &Context, inputs: &FrameInput) -> (r: Option<
        CreateOutcome,
    >);

    /// Called when an EOF create child frame has concluded.
    fn eofcreate_end(&mut self, context: &Context, inputs: &FrameInput, outcome: &CreateOutcome);

    /// Called when an account selfdestructs.
    fn selfdestruct(&mut self, contract: Address, target: Address, value: U256);
}

/// An inspector that records one step record per executed instruction; an
/// embedder prints them. The original prints directly; computing the record
/// is the part that belongs to the engine.
pub struct StepPrintInspector {
    /// The collected records, in execution order.
    pub records: Vec<StepRecord>,
}

impl StepPrintInspector {
    pub fn new() -> (r: StepPrintInspector)
        ensures
            r.records@.len() == 0,
    {
        StepPrintInspector { records: Vec::new() }
    }
}

/// Build the record `step` observes.
pub fn step_record(interp: &NewInterpreter, ctx: &Context, memory_size: usize, depth: usize) -> (r:
    StepRecord)
    ensures
        r.depth == depth,
        r.pc == interp.bytecode.pc,
        r.opcode == crate::bytecode::spec_opcode_at(interp.bytecode.base.code@, interp.bytecode.pc as int),
        r.gas_remaining == interp.control.gas.remaining,
        r.refund == ctx.journal.refund,
        r.stack_len == interp.stack@.len(),
        r.memory_size == memory_size,
{
    StepRecord {
        depth,
        pc: interp.bytecode.pc(),
        opcode: interp.bytecode.opcode(),
        gas_remaining: interp.control.gas.remaining(),
        refund: ctx.journal.refund,
        stack_len: interp.stack.len(),
        memory_size,
    }
}

impl Inspector for StepPrintInspector {
    /// Record the interpreter's position and resources before the step.
    fn step(&mut self, interp: &NewInterpreter, context: &Context, memory_size: usize) {
        let depth = context.journal.depth();
        let record = step_record(interp, context, memory_size, depth);
        self.records.push(record);
    }

    fn initialize_interp(&mut self, interp: &NewInterpreter, context: &Context) {
    }

    fn step_end(&mut self, interp: &NewInterpreter, context: &Context, memory_size: usize) {
    }

    fn log(&mut self, interp: &NewInterpreter, context: &Context, log: &Log) {
    }

    fn call(&mut self, context: &Context, inputs: &FrameInput) -> (r: Option<CallOutcome>) {
        None
    }

    fn call_end(&mut self, context: &Context, inputs: &FrameInput, outcome: &CallOutcome) {
    }

    fn create(&mut self, context: &Context, inputs: &FrameInput) -> (r: Option<
        CreateOutcome,
    >) {
        None
    }

    fn create_end(&mut self, context: &Context, inputs: &FrameInput, outcome: &CreateOutcome) {
    }

    fn eofcreate(&mut self, context: &Context, inputs: &FrameInput) -> (r: Option<
        CreateOutcome,
    >) {
        None
    }

    fn eofcreate_end(
        &mut self,
        context: &Context,
        inputs: &FrameInput,
        outcome: &CreateOutcome,
    ) {
    }

    fn selfdestruct(&mut self, contract: Address, target: Address, value: U256) {
    }
}

/// A step tracer that also keeps the records, for debugging sessions.
pub struct CustomPrintTracer {
    /// The collected records, in execution order.
    pub records: Vec<StepRecord>,
}

impl CustomPrintTracer {
    pub fn new() -> (r: CustomPrintTracer)
        ensures
            r.records@.len() == 0,
    {
        CustomPrintTracer { records: Vec::new() }
    }
}

impl Inspector for CustomPrintTracer {
    fn initialize_interp(&mut self, interp: &NewInterpreter, context: &Context) {
    }

    /// Record position, gas, refund, stack depth and memory size.
    fn step(&mut self, interp: &NewInterpreter, context: &Context, memory_size: usize) {
        let depth = context.journal.depth();
        let record = step_record(interp, context, memory_size, depth);
        self.records.push(record);
    }

    fn step_end(&mut self, interp: &NewInterpreter, context: &Context, memory_size: usize) {
    }

    fn log(&mut self, interp: &NewInterpreter, context: &Context, log: &Log) {
    }

    fn call(&mut self, context: &Context, inputs: &FrameInput) -> (r: Option<CallOutcome>) {
        None
    }

    fn call_end(&mut self, context: &Context, inputs: &FrameInput, outcome: &CallOutcome) {
    }

    fn create(&mut self, context: &Context, inputs: &FrameInput) -> (r: Option<
        CreateOutcome,
    >) {
        None
    }

    fn create_end(&mut self, context: &Context, inputs: &FrameInput, outcome: &CreateOutcome) {
    }

    fn eofcreate(&mut self, context: &Context, inputs: &FrameInput) -> (r: Option<
        CreateOutcome,
    >) {
        None
    }

    fn eofcreate_end(
        &mut self,
        context: &Context,
        inputs: &FrameInput,
        outcome: &CreateOutcome,
    ) {
    }

    fn selfdestruct(&mut self, contract: Address, target: Address, value: U256) {
    }
}

/// Provides access to an inspector instance.
pub trait GetInspector {
    type TheInspector: Inspector;

    /// Returns the associated inspector.
    fn get_inspector(&mut self) -> (r: &mut Self::TheInspector);
}

impl<INSP: Inspector> GetInspector for INSP {
    type TheInspector = INSP;

    fn get_inspector(&mut self) -> (r: &mut INSP) {
        self
    }
}

/// Read access to the journal, for inspectors: the logs and the last journal
/// entry.
pub trait JournalExt {
    /// The logs emitted so far.
    fn logs(&self) -> (r: &Vec<Log>);

    /// The number of entries in the journal.
    fn journal_len(&self) -> (r: usize);
}

impl JournalExt for JournaledState {
    fn logs(&self) -> (r: &Vec<Log>) {
        &self.logs
    }

    fn journal_len(&self) -> (r: usize) {
        self.journal.len()
    }
}

/// Access to a [`JournalExt`] value.
pub trait JournalExtGetter {
    type TheJournalExt: JournalExt;

    fn journal_ext(&self) -> (r: &Self::TheJournalExt);
}

/// Frame-boundary callbacks, as the frame driver sees them.
pub trait InspectorCtx {
    fn step(&mut self, interp: &NewInterpreter, ctx: &Context, memory_size: usize);

    fn step_end(&mut self, interp: &NewInterpreter, ctx: &Context, memory_size: usize);

    fn initialize_interp(&mut self, interp: &NewInterpreter, ctx: &Context);

    /// How many frame inputs the context has remembered for end hooks.
    spec fn pending_frames(&self) -> nat;

    /// `Some` short-circuits the frame with a synthetic result of the
    /// input's own kind; on `None` the input is remembered for the matching
    /// `frame_end`.
    fn frame_start(&mut self, ctx: &Context, frame_input: &FrameInput) -> (r: Option<
        FrameResult,
    >)
        ensures
            r matches Some(fr) ==> (((fr matches FrameResult::Call(_)) == (*frame_input
                matches FrameInput::Call(_))) && ((fr matches FrameResult::Create(_)) == (
            *frame_input matches FrameInput::Create(_))) && final(self).pending_frames() == old(self).pending_frames()),
            r is None ==> final(self).pending_frames() == old(self).pending_frames() + 1,
    ;

    /// Pair the outcome with the most recently remembered input.
    fn frame_end(&mut self, ctx: &Context, frame_output: &FrameResult)
        requires
            old(self).pending_frames() > 0,
        ensures
            final(self).pending_frames() == old(self).pending_frames() - 1,
    ;

    fn inspector_selfdestruct(&mut self, contract: Address, target: Address, value: U256);

    fn inspector_log(&mut self, interp: &NewInterpreter, ctx: &Context, log: &Log);
}

/// The engine context paired with an inspector: what the inspected frame
/// driver runs over. Frame inputs are stacked at `frame_start` and popped at
/// `frame_end`, so the end hook sees the matching inputs.
pub struct InspectorContext<INSP> {
    pub inspector: INSP,
    pub frame_input_stack: Vec<FrameInput>,
}

impl<INSP: Inspector> InspectorCtx for InspectorContext<INSP> {
    open spec fn pending_frames(&self) -> nat {
        self.frame_input_stack@.len()
    }

    fn step(&mut self, interp: &NewInterpreter, ctx: &Context, memory_size: usize) {
        self.inspector.step(interp, ctx, memory_size);
    }

    fn step_end(&mut self, interp: &NewInterpreter, ctx: &Context, memory_size: usize) {
        self.inspector.step_end(interp, ctx, memory_size);
    }

    fn initialize_interp(&mut self, interp: &NewInterpreter, ctx: &Context) {
        self.inspector.initialize_interp(interp, ctx);
    }

    /// Route the frame input to the matching hook; remember it for the end
    /// hook when the frame really opens.
    fn frame_start(&mut self, ctx: &Context, frame_input: &FrameInput) -> (r: Option<
        FrameResult,
    >) {
        match frame_input {
            FrameInput::Call(_) => {
                if let Some(output) = self.inspector.call(ctx, frame_input) {
                    return Some(FrameResult::Call(output));
                }
            },
            FrameInput::Create(_) => {
                if let Some(output) = self.inspector.create(ctx, frame_input) {
                    return Some(FrameResult::Create(output));
                }
            },
            FrameInput::EOFCreate(_) => {
                if let Some(output) = self.inspector.eofcreate(ctx, frame_input) {
                    return Some(FrameResult::EOFCreate(output));
                }
            },
        }
        self.frame_input_stack.push(clone_frame_input(frame_input));
        None
    }

    /// Pair the outcome with the remembered inputs and route it to the
    /// matching end hook.
    fn frame_end(&mut self, ctx: &Context, frame_output: &FrameResult) {
        let frame_input = match self.frame_input_stack.pop() {
            Some(i) => i,
            None => {
                proof {
                    assert(false);
                }
                return ;
            },
        };
        match frame_output {
            FrameResult::Call(outcome) => {
                self.inspector.call_end(ctx, &frame_input, outcome);
            },
            FrameResult::Create(outcome) => {
                self.inspector.create_end(ctx, &frame_input, outcome);
            },
            FrameResult::EOFCreate(outcome) => {
                self.inspector.eofcreate_end(ctx, &frame_input, outcome);
            },
        }
    }

    fn inspector_selfdestruct(&mut self, contract: Address, target: Address, value: U256) {
        self.inspector.selfdestruct(contract, target, value);
    }

    fn inspector_log(&mut self, interp: &NewInterpreter, ctx: &Context, log: &Log) {
        self.inspector.log(interp, ctx, log);
    }
}

/// Copy a frame input, so the end hook can see what the start hook saw.
fn clone_frame_input(fi: &FrameInput) -> (r: FrameInput)
    ensures
        (*fi matches FrameInput::Call(_)) == (r matches FrameInput::Call(_)),
        (*fi matches FrameInput::Create(_)) == (r matches FrameInput::Create(_)),
{
    match fi {
        FrameInput::Call(c) => FrameInput::Call(
            crate::interpreter::CallInputs {
                caller: c.caller,
                target_address: c.target_address,
                value: c.value,
                input: crate::state::clone_bytes(&c.input),
                gas_limit: c.gas_limit,
                is_static: c.is_static,
                return_memory_start: c.return_memory_start,
                return_memory_len: c.return_memory_len,
            },
        ),
        FrameInput::Create(c) => FrameInput::Create(
            crate::interpreter::CreateInputs {
                caller: c.caller,
                value: c.value,
                init_code: crate::state::clone_bytes(&c.init_code),
                gas_limit: c.gas_limit,
                created_address: c.created_address,
                salt: c.salt,
            },
        ),
        FrameInput::EOFCreate(c) => FrameInput::EOFCreate(
            crate::interpreter::EOFCreateInputs {
                caller: c.caller,
                value: c.value,
                init_container: crate::state::clone_bytes(&c.init_container),
                gas_limit: c.gas_limit,
                created_address: c.created_address,
            },
        ),
    }
}


/// Copy a vector of words.
pub fn clone_words(v: &Vec<U256>) -> (r: Vec<U256>)
    ensures
        r@ == v@,
{
    let mut r: Vec<U256> = Vec::new();
    let mut i: usize = 0;
    while i < v.len()
        invariant
            i <= v@.len(),
            r@ == v@.subrange(0, i as int),
        decreases v@.len() - i,
    {
        r.push(v[i]);
        i = i + 1;
        proof {
            assert(r@ =~= v@.subrange(0, i as int));
        }
    }
    proof {
        assert(r@ =~= v@);
    }
    r
}

/// One decorated instruction: the inspector's step hooks around the plain
/// handler. The hooks never touch the interpreter, so the decorated
/// instruction keeps the plain instruction's guarantees.
pub struct InspectorInstruction {
    /// The opcode this instruction decorates.
    pub opcode: u8,
}

impl InspectorInstruction {
    /// Run the hooks around the plain handler.
    pub fn exec<INSP: Inspector>(
        &self,
        insp_ctx: &mut InspectorContext<INSP>,
        interpreter: &mut NewInterpreter,
        memory: &mut SharedMemory,
        ctx: &mut Context,
    )
        requires
            old(interpreter).wf(),
            old(ctx).wf(),
            old(memory).wf(),
            old(interpreter).control.next_action matches InterpreterAction::Unset,
            old(interpreter).control.instruction_result matches InstructionResult::Continue,
        ensures
            spec_instr_post(
                *old(interpreter),
                *final(interpreter),
                *old(ctx),
                *final(ctx),
                *old(memory),
                *final(memory),
            ),
            crate::instructions::spec_instruction_post(
                self.opcode,
                *old(interpreter),
                *final(interpreter),
                *old(ctx),
                *final(ctx),
                *old(memory),
                *final(memory),
            ),
    {
        let pre_size = memory.len();
        insp_ctx.step(interpreter, ctx, pre_size);
        let ghost pre_i = *interpreter;
        let ghost pre_c = *ctx;
        let ghost pre_m = *memory;
        instruction_dispatch(self.opcode, interpreter, memory, ctx);
        proof {
            crate::interpreter::lemma_ctx_frame_trans(*old(ctx), pre_c, *ctx);
        }
        // Decorations of the original table: report a fresh log, and a
        // selfdestruct with the pre-images its journal entry recorded.
        if 0xA0 <= self.opcode && self.opcode <= 0xA4 {
            if interpreter.control.instruction_result.is_continue() {
                match ctx.journal.last_log() {
                    Some(l) => {
                        let observed = Log {
                            address: l.address,
                            topics: crate::inspector::clone_words(&l.topics),
                            data: crate::state::clone_bytes(&l.data),
                        };
                        insp_ctx.inspector_log(interpreter, ctx, &observed);
                    },
                    None => {},
                }
            }
        }
        if self.opcode == 0xFF {
            if interpreter.control.instruction_result == InstructionResult::SelfDestruct {
                match ctx.journal.last_entry() {
                    Some(e) => match e {
                        JournalEntry::AccountDestroyed { address, target, had_balance, .. } => {
                            let (a, t, b) = (*address, *target, *had_balance);
                            insp_ctx.inspector_selfdestruct(a, t, b);
                        },
                        JournalEntry::BalanceTransfer { from, to, balance } => {
                            let (a, t, b) = (*from, *to, *balance);
                            insp_ctx.inspector_selfdestruct(a, t, b);
                        },
                        _ => {},
                    },
                    None => {},
                }
            }
        }
        let post_size = memory.len();
        insp_ctx.step_end(interpreter, ctx, post_size);
    }

    /// Wrap a plain opcode.
    pub fn from_base(opcode: u8) -> (r: InspectorInstruction)
        ensures
            r.opcode == opcode,
    {
        InspectorInstruction { opcode }
    }
}

/// The inspected instruction set: the plain dispatch with the step hooks
/// around every opcode. The decoration is total over the opcode byte, like
/// the plain table.
pub struct InspectorInstructionProvider<INSP> {
    /// The inspector context the hooks run against.
    pub insp: InspectorContext<INSP>,
}

impl<INSP: Inspector> InspectorInstructionProvider<INSP> {
    /// Wrap an inspector around the plain instruction set.
    pub fn new(inspector: INSP) -> (r: InspectorInstructionProvider<INSP>)
        ensures
            r.insp.frame_input_stack@.len() == 0,
    {
        InspectorInstructionProvider {
            insp: InspectorContext { inspector, frame_input_stack: Vec::new() },
        }
    }

    /// Execute one decorated instruction.
    pub fn exec(
        &mut self,
        op: u8,
        interpreter: &mut NewInterpreter,
        memory: &mut SharedMemory,
        ctx: &mut Context,
    )
        requires
            old(interpreter).wf(),
            old(ctx).wf(),
            old(memory).wf(),
            old(interpreter).control.next_action matches InterpreterAction::Unset,
            old(interpreter).control.instruction_result matches InstructionResult::Continue,
        ensures
            spec_instr_post(
                *old(interpreter),
                *final(interpreter),
                *old(ctx),
                *final(ctx),
                *old(memory),
                *final(memory),
            ),
            crate::instructions::spec_instruction_post(
                op,
                *old(interpreter),
                *final(interpreter),
                *old(ctx),
                *final(ctx),
                *old(memory),
                *final(memory),
            ),
    {
        let instruction = InspectorInstruction::from_base(op);
        instruction.exec(&mut self.insp, interpreter, memory, ctx);
    }
}

/// The inspected frame runner: the step hooks around every instruction of
/// one frame's run.
pub struct InspectorEthFrame<INSP> {
    /// The decorated instruction set.
    pub provider: InspectorInstructionProvider<INSP>,
}

impl<INSP: Inspector> InspectorEthFrame<INSP> {
    pub fn new(inspector: INSP) -> (r: InspectorEthFrame<INSP>) {
        InspectorEthFrame { provider: InspectorInstructionProvider::new(inspector) }
    }

    /// Run one frame's interpreter to its next action, with the step hooks
    /// around every instruction; the interpreter-level guarantees are those
    /// of the plain run.
    pub fn run(
        &mut self,
        interpreter: &mut NewInterpreter,
        memory: &mut SharedMemory,
        ctx: &mut Context,
    ) -> (action: InterpreterAction)
        requires
            old(interpreter).wf(),
            old(ctx).wf(),
            old(memory).wf(),
        ensures
            final(interpreter).wf(),
            crate::interpreter::spec_instr_frame(*old(interpreter), *final(interpreter)),
            crate::interpreter::spec_ctx_frame(*old(ctx), *final(ctx)),
            crate::interpreter::spec_mem_frame(*old(memory), *final(memory)),
            !(final(interpreter).control.instruction_result matches InstructionResult::Continue),
            crate::interpreter::spec_ran(
                *old(interpreter),
                *old(ctx),
                *old(memory),
                *final(interpreter),
                *final(ctx),
                *final(memory),
            ),
            final(interpreter).control.next_action matches InterpreterAction::Unset ==> (
            action matches InterpreterAction::Return(r) && r.result == final(interpreter).control.instruction_result && r.gas == final(interpreter).control.gas && r.output@
                == Seq::<u8>::empty()),
            final(interpreter).control.next_action matches InterpreterAction::Return(r0) ==> (
            action matches InterpreterAction::Return(r) && r.result == final(interpreter).control.instruction_result && r.gas == final(interpreter).control.gas && r.output@
                == r0.output@),
            final(interpreter).control.next_action matches InterpreterAction::NewFrame(f0) ==> (
            action matches InterpreterAction::NewFrame(f)
                && crate::interpreter::spec_same_frame_input(f0, f)),
            action matches InterpreterAction::NewFrame(fi) ==> (final(interpreter).control.instruction_result matches InstructionResult::CallOrCreate
                && crate::interpreter::spec_frame_input_gas(fi) + final(interpreter).control.gas.remaining < old(interpreter).control.gas.remaining),
            !(action matches InterpreterAction::Unset),
    {
        interpreter.control.instruction_result = InstructionResult::Continue;
        interpreter.control.next_action = InterpreterAction::Unset;
        let ghost start = *interpreter;
        let ghost start_ctx = *ctx;
        let ghost start_mem = *memory;
        let ghost mut steps: nat = 0nat;
        proof {
            assert(crate::interpreter::spec_reaches(
                0nat,
                start,
                start_ctx,
                start_mem,
                *interpreter,
                *ctx,
                *memory,
            ));
        }
        while interpreter.control.instruction_result.is_continue()
            invariant
                interpreter.wf(),
                ctx.wf(),
                memory.wf(),
                crate::interpreter::spec_instr_frame(start, *interpreter),
                crate::interpreter::spec_ctx_frame(start_ctx, *ctx),
                crate::interpreter::spec_mem_frame(start_mem, *memory),
                crate::interpreter::spec_reaches(
                    steps,
                    start,
                    start_ctx,
                    start_mem,
                    *interpreter,
                    *ctx,
                    *memory,
                ),
                interpreter.control.instruction_result matches InstructionResult::Continue
                    ==> interpreter.control.next_action matches InterpreterAction::Unset,
                (interpreter.control.next_action matches InterpreterAction::NewFrame(_)) == (
                interpreter.control.instruction_result matches InstructionResult::CallOrCreate),
                interpreter.control.next_action matches InterpreterAction::NewFrame(fi)
                    ==> crate::interpreter::spec_frame_input_gas(fi)
                    + interpreter.control.gas.remaining < start.control.gas.remaining,
            decreases crate::interpreter::spec_loop_measure(*interpreter),
        {
            let ghost pre = *interpreter;
            let ghost pre_ctx = *ctx;
            let ghost pre_mem = *memory;
            let op = interpreter.bytecode.opcode();
            if interpreter.bytecode.pc() < usize::MAX {
                interpreter.bytecode.relative_jump(1);
            }
            proof {
                assert(*interpreter == crate::interpreter::spec_fetched(pre));
            }
            self.provider.exec(op, interpreter, memory, ctx);
            proof {
                crate::interpreter::lemma_ctx_frame_trans(start_ctx, pre_ctx, *ctx);
                steps = steps + 1;
                assert(crate::interpreter::spec_reaches(
                    steps,
                    start,
                    start_ctx,
                    start_mem,
                    *interpreter,
                    *ctx,
                    *memory,
                )) by {
                    assert(crate::interpreter::spec_reaches(
                        (steps - 1) as nat,
                        start,
                        start_ctx,
                        start_mem,
                        pre,
                        pre_ctx,
                        pre_mem,
                    ));
                    assert(crate::interpreter::spec_machine_step(
                        pre,
                        pre_ctx,
                        pre_mem,
                        *interpreter,
                        *ctx,
                        *memory,
                    ));
                }
            }
        }
        proof {
            reveal(crate::interpreter::spec_ran);
        }
        match &interpreter.control.next_action {
            InterpreterAction::Unset => InterpreterAction::Return(
                crate::interpreter::InterpreterResult {
                    result: interpreter.control.instruction_result,
                    output: Vec::new(),
                    gas: interpreter.control.gas,
                },
            ),
            InterpreterAction::Return(r0) => InterpreterAction::Return(
                crate::interpreter::InterpreterResult {
                    result: interpreter.control.instruction_result,
                    output: crate::state::clone_bytes(&r0.output),
                    gas: interpreter.control.gas,
                },
            ),
            InterpreterAction::NewFrame(f0) => InterpreterAction::NewFrame(
                crate::interpreter::clone_frame_input(f0),
            ),
        }
    }
}

} // verus!
