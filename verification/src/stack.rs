//! The interpreter's word stack: a LIFO of 256-bit words, at most 1024 deep.
//!
//! Every operation checks for underflow or overflow before it touches
//! anything, so the depth invariant of [`Stack::wf`] holds in every
//! reachable state.

use vstd::prelude::*;

use crate::word::U256;

verus! {

/// The maximum stack depth.
pub const STACK_LIMIT: usize = 1024;

/// A 1024-deep LIFO of 256-bit words. The view is the sequence of words from
/// bottom to top.
#[derive(Clone, Debug)]
pub struct Stack {
    data: Vec<U256>,
}

impl View for Stack {
    type V = Seq<U256>;

    closed spec fn view(&self) -> Seq<U256> {
        self.data@
    }
}

impl Stack {
    /// The stack never holds more than `STACK_LIMIT` words.
    pub open spec fn wf(self) -> bool {
        self@.len() <= STACK_LIMIT
    }

    pub fn new() -> (r: Stack)
        ensures
            r.wf(),
            r@ == Seq::<U256>::empty(),
    {
        Stack { data: Vec::new() }
    }

    pub fn len(&self) -> (r: usize)
        ensures
            r == self@.len(),
    {
        self.data.len()
    }

    /// Push a word; fails (without effect) when the stack is full.
    pub fn push(&mut self, value: U256) -> (ok: bool)
        requires
            old(self).wf(),
        ensures
            final(self).wf(),
            ok == (old(self)@.len() < STACK_LIMIT),
            ok ==> final(self)@ == old(self)@.push(value),
            !ok ==> final(self)@ == old(self)@,
    {
        if self.data.len() < STACK_LIMIT {
            self.data.push(value);
            true
        } else {
            false
        }
    }

    /// Pop the top word; `None` (without effect) when the stack is empty.
    pub fn pop(&mut self) -> (r: Option<U256>)
        requires
            old(self).wf(),
        ensures
            final(self).wf(),
            old(self)@.len() == 0 ==> r is None && final(self)@ == old(self)@,
            old(self)@.len() > 0 ==> r == Some(old(self)@.last()) && final(self)@ == old(
                self,
            )@.drop_last(),
    {
        self.data.pop()
    }

    /// The word `n` positions below the top (0 is the top itself).
    pub fn peek(&self, n: usize) -> (r: Option<U256>)
        ensures
            n < self@.len() ==> r == Some(self@[self@.len() - 1 - n]),
            n >= self@.len() ==> r is None,
    {
        if n < self.data.len() {
            Some(self.data[self.data.len() - 1 - n])
        } else {
            None
        }
    }

    /// Duplicate the `n`-th word from the top (1 duplicates the top itself),
    /// as the DUP opcodes do. Fails without effect on underflow or overflow.
    pub fn dup(&mut self, n: usize) -> (ok: bool)
        requires
            old(self).wf(),
            1 <= n,
        ensures
            final(self).wf(),
            ok == (n <= old(self)@.len() && old(self)@.len() < STACK_LIMIT),
            ok ==> final(self)@ == old(self)@.push(old(self)@[old(self)@.len() - n]),
            !ok ==> final(self)@ == old(self)@,
    {
        if n <= self.data.len() && self.data.len() < STACK_LIMIT {
            let v = self.data[self.data.len() - n];
            self.data.push(v);
            true
        } else {
            false
        }
    }

    /// Exchange the top word with the word `n` positions below it (1 swaps
    /// the two topmost words), as the SWAP opcodes do. Fails without effect
    /// on underflow.
    pub fn swap(&mut self, n: usize) -> (ok: bool)
        requires
            old(self).wf(),
            1 <= n,
        ensures
            final(self).wf(),
            ok == (n < old(self)@.len()),
            ok ==> final(self)@ == old(self)@.update(
                old(self)@.len() - 1,
                old(self)@[old(self)@.len() - 1 - n],
            ).update(old(self)@.len() - 1 - n, old(self)@[old(self)@.len() - 1]),
            !ok ==> final(self)@ == old(self)@,
    {
        if n < self.data.len() {
            let top = self.data.len() - 1;
            let lower = top - n;
            let a = self.data[top];
            let b = self.data[lower];
            self.data.set(top, b);
            self.data.set(lower, a);
            true
        } else {
            false
        }
    }

    /// All the words, bottom to top; for callers outside the engine.
    pub fn data(&self) -> (r: &Vec<U256>)
        ensures
            r@ == self@,
    {
        &self.data
    }
}

/// Stack depth invariant: the length of a well-formed stack lies between 0
/// and 1024.
pub proof fn lemma_stack_len_bounded(s: Stack)
    requires
        s.wf(),
    ensures
        0 <= s@.len() <= 1024,
{
}

} // verus!
