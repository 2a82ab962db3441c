//! A verified core of an Ethereum-style virtual machine.
//!
//! The crate provides the interpreter building blocks (a 1024-deep word
//! stack, expandable shared memory, a gas meter, bytecode with a
//! jump-destination analysis), a journaled state overlay whose checkpoints
//! can be committed or reverted, the per-call frame machinery, and the
//! transaction driver that ties them together.

pub mod assoc;
pub mod bytecode;
pub mod env;
pub mod frames;
pub mod gas;
pub mod handler;
pub mod inspector;
pub mod instructions;
pub mod interpreter;
pub mod journal;
pub mod memory;
pub mod result;
pub mod stack;
pub mod state;
pub mod tx;
pub mod word;

pub use word::{Address, U256};
