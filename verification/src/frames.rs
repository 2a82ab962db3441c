//! Call-stack frames: one per open call or create, each carrying its journal
//! checkpoint and its interpreter, and the outcomes they resolve to.

use vstd::prelude::*;

use crate::gas::Gas;
use crate::interpreter::{InterpreterResult, NewInterpreter};
use crate::journal::JournalCheckpoint;
use crate::result::InstructionResult;
use crate::word::Address;

verus! {

/// The outcome of a call frame: the result plus the parent's output window.
pub struct CallOutcome {
    pub result: InterpreterResult,
    /// Start of the parent memory window the output is copied into.
    pub memory_start: usize,
    /// Length of that window.
    pub memory_len: usize,
}

/// The outcome of a create frame: the result plus the created address when
/// the creation succeeded.
pub struct CreateOutcome {
    pub result: InterpreterResult,
    pub address: Option<Address>,
}

/// A transaction's execution output: call output bytes, or create output
/// bytes with the created address.
pub enum Output {
    Call(Vec<u8>),
    Create(Vec<u8>, Option<Address>),
}

impl Output {
    /// The raw output bytes.
    pub open spec fn spec_data(self) -> Seq<u8> {
        match self {
            Output::Call(d) => d@,
            Output::Create(d, _) => d@,
        }
    }

    /// Discard the created address, keeping the bytes.
    pub fn into_data(self) -> (r: Vec<u8>)
        ensures
            r@ == self.spec_data(),
    {
        match self {
            Output::Call(d) => d,
            Output::Create(d, _) => d,
        }
    }
}

/// The result a finished frame hands to its parent.
pub enum FrameResult {
    Call(CallOutcome),
    Create(CreateOutcome),
    EOFCreate(CreateOutcome),
}

impl FrameResult {
    /// The interpreter result inside, whichever kind of frame it was.
    pub open spec fn spec_interpreter_result(self) -> InterpreterResult {
        match self {
            FrameResult::Call(outcome) => outcome.result,
            FrameResult::Create(outcome) => outcome.result,
            FrameResult::EOFCreate(outcome) => outcome.result,
        }
    }

    /// Casts the frame result to its interpreter result.
    pub fn into_interpreter_result(self) -> (r: InterpreterResult)
        ensures
            r == self.spec_interpreter_result(),
    {
        match self {
            FrameResult::Call(outcome) => outcome.result,
            FrameResult::Create(outcome) => outcome.result,
            FrameResult::EOFCreate(outcome) => outcome.result,
        }
    }

    /// The execution output: call bytes, or create bytes with the address.
    pub fn output(&self) -> (r: Output)
        ensures
            r.spec_data() == self.spec_interpreter_result().output@,
            (*self matches FrameResult::Call(_)) ==> r matches Output::Call(_),
            self matches FrameResult::Create(o) ==> (r matches Output::Create(d, a) && a
                == o.address),
            self matches FrameResult::EOFCreate(o) ==> (r matches Output::Create(d, a) && a
                == o.address),
    {
        match self {
            FrameResult::Call(outcome) => Output::Call(
                crate::state::clone_bytes(&outcome.result.output),
            ),
            FrameResult::Create(outcome) => Output::Create(
                crate::state::clone_bytes(&outcome.result.output),
                outcome.address,
            ),
            FrameResult::EOFCreate(outcome) => Output::Create(
                crate::state::clone_bytes(&outcome.result.output),
                outcome.address,
            ),
        }
    }

    /// The frame's gas meter.
    pub fn gas(&self) -> (r: &Gas)
        ensures
            r == self.spec_interpreter_result().gas,
    {
        match self {
            FrameResult::Call(outcome) => &outcome.result.gas,
            FrameResult::Create(outcome) => &outcome.result.gas,
            FrameResult::EOFCreate(outcome) => &outcome.result.gas,
        }
    }

    /// Mutable access to the frame's gas meter.
    pub fn gas_mut(&mut self) -> (r: &mut Gas)
        ensures
            *r == old(self).spec_interpreter_result().gas,
            final(self).spec_interpreter_result().gas == *final(r),
            final(self).spec_interpreter_result().result == old(
                self,
            ).spec_interpreter_result().result,
            final(self).spec_interpreter_result().output == old(
                self,
            ).spec_interpreter_result().output,
            ((*final(self)) matches FrameResult::Call(_)) == ((*old(self)) matches FrameResult::Call(_)),
            ((*final(self)) matches FrameResult::Create(_)) == (old(
                self,
            ) matches FrameResult::Create(_)),
    {
        match self {
            FrameResult::Call(outcome) => &mut outcome.result.gas,
            FrameResult::Create(outcome) => &mut outcome.result.gas,
            FrameResult::EOFCreate(outcome) => &mut outcome.result.gas,
        }
    }

    /// The interpreter result inside.
    pub fn interpreter_result(&self) -> (r: &InterpreterResult)
        ensures
            *r == self.spec_interpreter_result(),
    {
        match self {
            FrameResult::Call(outcome) => &outcome.result,
            FrameResult::Create(outcome) => &outcome.result,
            FrameResult::EOFCreate(outcome) => &outcome.result,
        }
    }

    /// The interpreter result inside, through a mutable frame result.
    pub fn interpreter_result_mut(&mut self) -> (r: &InterpreterResult)
        ensures
            *r == old(self).spec_interpreter_result(),
            *final(self) == *old(self),
    {
        match self {
            FrameResult::Call(outcome) => &outcome.result,
            FrameResult::Create(outcome) => &outcome.result,
            FrameResult::EOFCreate(outcome) => &outcome.result,
        }
    }

    /// The instruction-level discriminant of the frame result.
    pub fn instruction_result(&self) -> (r: InstructionResult)
        ensures
            r == self.spec_interpreter_result().result,
    {
        self.interpreter_result().result
    }
}

/// What every frame kind shares: its checkpoint and its interpreter.
pub struct FrameData {
    /// Journal checkpoint opened when the frame was entered.
    pub checkpoint: JournalCheckpoint,
    /// The frame's interpreter.
    pub interpreter: NewInterpreter,
}

/// A call frame, with the parent window its output is copied into.
pub struct CallFrame {
    /// Start and length of the parent's output window.
    pub return_memory_range: (usize, usize),
    /// Frame data.
    pub frame_data: FrameData,
}

/// A create frame, with the address being created.
pub struct CreateFrame {
    /// The address of the account being created.
    pub created_address: Address,
    /// Frame data.
    pub frame_data: FrameData,
}

/// An EOF create frame.
pub struct EOFCreateFrame {
    pub created_address: Address,
    pub frame_data: FrameData,
}

/// A call stack frame.
pub enum Frame {
    Call(Box<CallFrame>),
    Create(Box<CreateFrame>),
    EOFCreate(Box<EOFCreateFrame>),
}

impl Frame {
    /// The frame data, whichever kind of frame this is.
    pub open spec fn spec_frame_data(self) -> FrameData {
        match self {
            Frame::Call(f) => f.frame_data,
            Frame::Create(f) => f.frame_data,
            Frame::EOFCreate(f) => f.frame_data,
        }
    }

    pub fn new_create(
        created_address: Address,
        checkpoint: JournalCheckpoint,
        interpreter: NewInterpreter,
    ) -> (r: Frame)
        ensures
            r matches Frame::Create(f) && f.created_address == created_address
                && f.frame_data.checkpoint == checkpoint && f.frame_data.interpreter == interpreter,
    {
        Frame::Create(
            Box::new(CreateFrame { created_address, frame_data: FrameData { checkpoint, interpreter } }),
        )
    }

    pub fn new_call(
        return_memory_range: (usize, usize),
        checkpoint: JournalCheckpoint,
        interpreter: NewInterpreter,
    ) -> (r: Frame)
        ensures
            r matches Frame::Call(f) && f.return_memory_range == return_memory_range
                && f.frame_data.checkpoint == checkpoint && f.frame_data.interpreter == interpreter,
    {
        Frame::Call(
            Box::new(
                CallFrame { return_memory_range, frame_data: FrameData { checkpoint, interpreter } },
            ),
        )
    }

    /// Whether this is a call frame.
    pub fn is_call(&self) -> (r: bool)
        ensures
            r == (*self matches Frame::Call(_)),
    {
        matches!(self, Frame::Call { .. })
    }

    /// Whether this is a create frame.
    pub fn is_create(&self) -> (r: bool)
        ensures
            r == (*self matches Frame::Create(_)),
    {
        matches!(self, Frame::Create { .. })
    }

    /// The created address, for a create frame.
    pub fn created_address(&self) -> (r: Option<Address>)
        ensures
            self matches Frame::Create(f) ==> r == Some(f.created_address),
            !(*self matches Frame::Create(_)) ==> r is None,
    {
        match self {
            Frame::Create(create_frame) => Some(create_frame.created_address),
            _ => None,
        }
    }

    /// Takes the frame and returns its frame data.
    pub fn into_frame_data(self) -> (r: FrameData)
        ensures
            r == self.spec_frame_data(),
    {
        match self {
            Frame::Call(call_frame) => call_frame.frame_data,
            Frame::Create(create_frame) => create_frame.frame_data,
            Frame::EOFCreate(eof_create_frame) => eof_create_frame.frame_data,
        }
    }

    /// The frame data.
    pub fn frame_data(&self) -> (r: &FrameData)
        ensures
            *r == self.spec_frame_data(),
    {
        match self {
            Frame::Call(call_frame) => &call_frame.frame_data,
            Frame::Create(create_frame) => &create_frame.frame_data,
            Frame::EOFCreate(eof_create_frame) => &eof_create_frame.frame_data,
        }
    }

    /// The frame data, mutably.
    pub fn frame_data_mut(&mut self) -> (r: &mut FrameData)
        ensures
            *r == old(self).spec_frame_data(),
            final(self).spec_frame_data() == *final(r),
            ((*final(self)) matches Frame::Call(_)) == ((*old(self)) matches Frame::Call(_)),
            ((*final(self)) matches Frame::Create(_)) == ((*old(self)) matches Frame::Create(_)),
            (*old(self)) matches Frame::Create(f) ==> ((*final(self)) matches Frame::Create(g)
                && g.created_address == f.created_address),
            (*old(self)) matches Frame::Call(f) ==> ((*final(self)) matches Frame::Call(g)
                && g.return_memory_range == f.return_memory_range),
            (*old(self)) matches Frame::EOFCreate(f) ==> ((*final(self)) matches Frame::EOFCreate(g)
                && g.created_address == f.created_address),
    {
        match self {
            Frame::Call(call_frame) => &mut call_frame.frame_data,
            Frame::Create(create_frame) => &mut create_frame.frame_data,
            Frame::EOFCreate(eof_create_frame) => &mut eof_create_frame.frame_data,
        }
    }

    /// The frame's interpreter.
    pub fn interpreter(&self) -> (r: &NewInterpreter)
        ensures
            *r == self.spec_frame_data().interpreter,
    {
        &self.frame_data().interpreter
    }

    /// The frame's interpreter, mutably.
    pub fn interpreter_mut(&mut self) -> (r: &mut NewInterpreter)
        ensures
            *r == old(self).spec_frame_data().interpreter,
            final(self).spec_frame_data().interpreter == *final(r),
            final(self).spec_frame_data().checkpoint == old(self).spec_frame_data().checkpoint,
            ((*final(self)) matches Frame::Call(_)) == ((*old(self)) matches Frame::Call(_)),
            ((*final(self)) matches Frame::Create(_)) == ((*old(self)) matches Frame::Create(_)),
            (*old(self)) matches Frame::Create(f) ==> ((*final(self)) matches Frame::Create(g)
                && g.created_address == f.created_address),
            (*old(self)) matches Frame::Call(f) ==> ((*final(self)) matches Frame::Call(g)
                && g.return_memory_range == f.return_memory_range),
            (*old(self)) matches Frame::EOFCreate(f) ==> ((*final(self)) matches Frame::EOFCreate(g)
                && g.created_address == f.created_address),
    {
        &mut self.frame_data_mut().interpreter
    }
}

} // verus!
