//! Instruction results and their classification.
//!
//! Every opcode handler leaves one of these discriminants in the loop
//! control; the frame driver classifies it as success, revert, or halt.

use vstd::prelude::*;

verus! {

/// The discriminant an instruction leaves behind: continue, a successful
/// stop, an explicit revert, a request for a child frame, or a halting error.
#[derive(Clone, Copy, PartialEq, Eq, Structural, Debug)]
pub enum InstructionResult {
    /// Keep executing the next instruction.
    Continue,
    /// STOP: success with empty output.
    Stop,
    /// RETURN: success with output.
    Return,
    /// SELFDESTRUCT: success, frame ends.
    SelfDestruct,
    /// The instruction requested a child call or create; the driver takes over.
    CallOrCreate,
    /// REVERT: state is rolled back, unused gas is kept, output is preserved.
    Revert,
    /// The call stack is already 1024 frames deep.
    CallTooDeep,
    /// The caller's balance cannot cover the transferred value.
    OutOfFunds,
    /// Plain out-of-gas while charging an instruction.
    OutOfGas,
    /// Out of gas while expanding memory.
    MemoryOOG,
    /// Memory expansion beyond the hard memory limit.
    MemoryLimitOOG,
    /// Out of gas inside a precompile.
    PrecompileOOG,
    /// An operand so large a gas computation would overflow.
    InvalidOperandOOG,
    /// JUMP/JUMPI to a target that is not a valid jump destination.
    InvalidJump,
    /// An undefined opcode byte.
    InvalidOpcode,
    /// An opcode not yet active under the configured hardfork.
    NotActivated,
    /// A pop from an empty region of the stack.
    StackUnderflow,
    /// A push onto a full stack.
    StackOverflow,
    /// RETURNDATACOPY past the end of the return-data buffer.
    ReturnDataOutOfBounds,
    /// CREATE/CREATE2 target address already occupied.
    CreateCollision,
    /// A precompile reported an error.
    PrecompileError,
    /// Nonce increment would overflow a 64-bit counter.
    NonceOverflow,
    /// Deployed code exceeds the maximum contract size.
    CreateContractSizeLimit,
    /// Deployed code starts with the reserved 0xEF byte.
    CreateContractStartingWithEF,
    /// Init code exceeds the Shanghai initcode size limit.
    CreateInitCodeSizeLimit,
    /// A state-mutating opcode inside a static call.
    StateChangeDuringStaticCall,
    /// A database failure; aborts the whole transaction.
    FatalExternalError,
}

impl InstructionResult {
    /// Results in the success range: the frame (or loop) may go on or has
    /// ended without error.
    pub open spec fn spec_is_ok(self) -> bool {
        self matches InstructionResult::Continue || self matches InstructionResult::Stop
            || self matches InstructionResult::Return
            || self matches InstructionResult::SelfDestruct
            || self matches InstructionResult::CallOrCreate
    }

    pub open spec fn spec_is_revert(self) -> bool {
        self matches InstructionResult::Revert
    }

    /// Halting errors: everything that is neither success nor revert.
    pub open spec fn spec_is_error(self) -> bool {
        !self.spec_is_ok() && !self.spec_is_revert()
    }

    pub fn is_continue(&self) -> (r: bool)
        ensures
            r == (*self matches InstructionResult::Continue),
    {
        *self == InstructionResult::Continue
    }

    pub fn is_ok(&self) -> (r: bool)
        ensures
            r == self.spec_is_ok(),
    {
        matches!(
            *self,
            InstructionResult::Continue
            | InstructionResult::Stop
            | InstructionResult::Return
            | InstructionResult::SelfDestruct
            | InstructionResult::CallOrCreate
        )
    }

    pub fn is_revert(&self) -> (r: bool)
        ensures
            r == self.spec_is_revert(),
    {
        *self == InstructionResult::Revert
    }

    pub fn is_error(&self) -> (r: bool)
        ensures
            r == self.spec_is_error(),
    {
        !self.is_ok() && !self.is_revert()
    }
}

/// Why a transaction ended successfully.
#[derive(Clone, Copy, PartialEq, Eq, Structural, Debug)]
pub enum SuccessReason {
    Stop,
    Return,
    SelfDestruct,
}

/// Why a transaction halted, consuming all gas of the halting frame.
#[derive(Clone, Copy, PartialEq, Eq, Structural, Debug)]
pub enum HaltReason {
    OutOfGas,
    MemoryOOG,
    MemoryLimitOOG,
    PrecompileOOG,
    InvalidOperandOOG,
    InvalidJump,
    InvalidOpcode,
    NotActivated,
    StackUnderflow,
    StackOverflow,
    ReturnDataOutOfBounds,
    CreateCollision,
    PrecompileError,
    NonceOverflow,
    CreateContractSizeLimit,
    CreateContractStartingWithEF,
    CreateInitCodeSizeLimit,
    StateChangeDuringStaticCall,
    OutOfFunds,
    CallTooDeep,
}

/// A frame-level result folded into the transaction-level taxonomy.
#[derive(Clone, Copy, PartialEq, Eq, Structural, Debug)]
pub enum SuccessOrHalt {
    Success(SuccessReason),
    Revert,
    Halt(HaltReason),
    FatalExternalError,
    /// A discriminant that never leaves the interpreter loop.
    Internal,
}

/// The classification each instruction result maps to.
pub open spec fn spec_success_or_halt(r: InstructionResult) -> SuccessOrHalt {
    match r {
        InstructionResult::Continue => SuccessOrHalt::Internal,
        InstructionResult::Stop => SuccessOrHalt::Success(SuccessReason::Stop),
        InstructionResult::Return => SuccessOrHalt::Success(SuccessReason::Return),
        InstructionResult::SelfDestruct => SuccessOrHalt::Success(SuccessReason::SelfDestruct),
        InstructionResult::CallOrCreate => SuccessOrHalt::Internal,
        InstructionResult::Revert => SuccessOrHalt::Revert,
        InstructionResult::CallTooDeep => SuccessOrHalt::Halt(HaltReason::CallTooDeep),
        InstructionResult::OutOfFunds => SuccessOrHalt::Halt(HaltReason::OutOfFunds),
        InstructionResult::OutOfGas => SuccessOrHalt::Halt(HaltReason::OutOfGas),
        InstructionResult::MemoryOOG => SuccessOrHalt::Halt(HaltReason::MemoryOOG),
        InstructionResult::MemoryLimitOOG => SuccessOrHalt::Halt(HaltReason::MemoryLimitOOG),
        InstructionResult::PrecompileOOG => SuccessOrHalt::Halt(HaltReason::PrecompileOOG),
        InstructionResult::InvalidOperandOOG => SuccessOrHalt::Halt(HaltReason::InvalidOperandOOG),
        InstructionResult::InvalidJump => SuccessOrHalt::Halt(HaltReason::InvalidJump),
        InstructionResult::InvalidOpcode => SuccessOrHalt::Halt(HaltReason::InvalidOpcode),
        InstructionResult::NotActivated => SuccessOrHalt::Halt(HaltReason::NotActivated),
        InstructionResult::StackUnderflow => SuccessOrHalt::Halt(HaltReason::StackUnderflow),
        InstructionResult::StackOverflow => SuccessOrHalt::Halt(HaltReason::StackOverflow),
        InstructionResult::ReturnDataOutOfBounds => SuccessOrHalt::Halt(
            HaltReason::ReturnDataOutOfBounds,
        ),
        InstructionResult::CreateCollision => SuccessOrHalt::Halt(HaltReason::CreateCollision),
        InstructionResult::PrecompileError => SuccessOrHalt::Halt(HaltReason::PrecompileError),
        InstructionResult::NonceOverflow => SuccessOrHalt::Halt(HaltReason::NonceOverflow),
        InstructionResult::CreateContractSizeLimit => SuccessOrHalt::Halt(
            HaltReason::CreateContractSizeLimit,
        ),
        InstructionResult::CreateContractStartingWithEF => SuccessOrHalt::Halt(
            HaltReason::CreateContractStartingWithEF,
        ),
        InstructionResult::CreateInitCodeSizeLimit => SuccessOrHalt::Halt(
            HaltReason::CreateInitCodeSizeLimit,
        ),
        InstructionResult::StateChangeDuringStaticCall => SuccessOrHalt::Halt(
            HaltReason::StateChangeDuringStaticCall,
        ),
        InstructionResult::FatalExternalError => SuccessOrHalt::FatalExternalError,
    }
}

/// Classify an instruction result as success, revert, halt, or fatal error.
pub fn success_or_halt(r: InstructionResult) -> (s: SuccessOrHalt)
    ensures
        s == spec_success_or_halt(r),
{
    match r {
        InstructionResult::Continue => SuccessOrHalt::Internal,
        InstructionResult::Stop => SuccessOrHalt::Success(SuccessReason::Stop),
        InstructionResult::Return => SuccessOrHalt::Success(SuccessReason::Return),
        InstructionResult::SelfDestruct => SuccessOrHalt::Success(SuccessReason::SelfDestruct),
        InstructionResult::CallOrCreate => SuccessOrHalt::Internal,
        InstructionResult::Revert => SuccessOrHalt::Revert,
        InstructionResult::CallTooDeep => SuccessOrHalt::Halt(HaltReason::CallTooDeep),
        InstructionResult::OutOfFunds => SuccessOrHalt::Halt(HaltReason::OutOfFunds),
        InstructionResult::OutOfGas => SuccessOrHalt::Halt(HaltReason::OutOfGas),
        InstructionResult::MemoryOOG => SuccessOrHalt::Halt(HaltReason::MemoryOOG),
        InstructionResult::MemoryLimitOOG => SuccessOrHalt::Halt(HaltReason::MemoryLimitOOG),
        InstructionResult::PrecompileOOG => SuccessOrHalt::Halt(HaltReason::PrecompileOOG),
        InstructionResult::InvalidOperandOOG => SuccessOrHalt::Halt(HaltReason::InvalidOperandOOG),
        InstructionResult::InvalidJump => SuccessOrHalt::Halt(HaltReason::InvalidJump),
        InstructionResult::InvalidOpcode => SuccessOrHalt::Halt(HaltReason::InvalidOpcode),
        InstructionResult::NotActivated => SuccessOrHalt::Halt(HaltReason::NotActivated),
        InstructionResult::StackUnderflow => SuccessOrHalt::Halt(HaltReason::StackUnderflow),
        InstructionResult::StackOverflow => SuccessOrHalt::Halt(HaltReason::StackOverflow),
        InstructionResult::ReturnDataOutOfBounds => SuccessOrHalt::Halt(
            HaltReason::ReturnDataOutOfBounds,
        ),
        InstructionResult::CreateCollision => SuccessOrHalt::Halt(HaltReason::CreateCollision),
        InstructionResult::PrecompileError => SuccessOrHalt::Halt(HaltReason::PrecompileError),
        InstructionResult::NonceOverflow => SuccessOrHalt::Halt(HaltReason::NonceOverflow),
        InstructionResult::CreateContractSizeLimit => SuccessOrHalt::Halt(
            HaltReason::CreateContractSizeLimit,
        ),
        InstructionResult::CreateContractStartingWithEF => SuccessOrHalt::Halt(
            HaltReason::CreateContractStartingWithEF,
        ),
        InstructionResult::CreateInitCodeSizeLimit => SuccessOrHalt::Halt(
            HaltReason::CreateInitCodeSizeLimit,
        ),
        InstructionResult::StateChangeDuringStaticCall => SuccessOrHalt::Halt(
            HaltReason::StateChangeDuringStaticCall,
        ),
        InstructionResult::FatalExternalError => SuccessOrHalt::FatalExternalError,
    }
}

} // verus!
