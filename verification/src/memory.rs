//! Shared interpreter memory: one grow-only byte buffer, lent to the active
//! frame as a window.
//!
//! Each frame sees the bytes from its own start mark to the end of the
//! buffer. Opening a child context marks the current end; closing it
//! truncates back to the mark, so the parent window reappears untouched.
//! Window lengths are always multiples of 32, and growing is the only way a
//! window changes size: resizing to a smaller size is a no-op
//! (see [`lemma_resize_shrink_noop`]).

use vstd::prelude::*;

verus! {

/// Hard upper bound on the byte length of one memory window (1 GiB); real
/// expansion stops far earlier because of the quadratic gas cost.
pub const MEMORY_LIMIT_BYTES: usize = 0x4000_0000;

/// `len` rounded up to a whole number of 32-byte words.
pub open spec fn spec_round_up_word(len: int) -> int {
    ((len + 31) / 32) * 32
}

/// The number of 32-byte words needed to hold `len` bytes.
pub open spec fn spec_num_words(len: int) -> int {
    (len + 31) / 32
}

/// The total memory gas for a window of `w` words: `3*w + w*w/512`.
pub open spec fn spec_memory_gas(w: int) -> int {
    3 * w + (w * w) / 512
}

/// The window a resize to `new_len` bytes leaves behind: unchanged when the
/// rounded-up target does not exceed the current length, zero-extended to the
/// target otherwise.
pub open spec fn spec_resize(window: Seq<u8>, new_len: int) -> Seq<u8> {
    let target = spec_round_up_word(new_len);
    if target <= window.len() {
        window
    } else {
        window + Seq::new((target - window.len()) as nat, |i: int| 0u8)
    }
}

/// The shared memory buffer with the stack of frame start marks. The view is
/// the active frame's window.
#[derive(Clone, Debug)]
pub struct SharedMemory {
    /// All bytes, across every open frame.
    pub buffer: Vec<u8>,
    /// Start offset of each open frame's window, innermost last.
    pub frame_starts: Vec<usize>,
}

impl View for SharedMemory {
    type V = Seq<u8>;

    open spec fn view(&self) -> Seq<u8> {
        self.buffer@.subrange(self.spec_start(), self.buffer@.len() as int)
    }
}

impl SharedMemory {
    /// Start offset of the active window.
    pub open spec fn spec_start(&self) -> int {
        self.frame_starts@.last() as int
    }

    /// Well-formedness: at least the root context is open, marks are
    /// word-aligned, within the buffer, and ascending, the buffer length is
    /// word-aligned and bounded.
    pub open spec fn wf(&self) -> bool {
        &&& self.frame_starts@.len() >= 1
        &&& self.frame_starts@[0] == 0
        &&& forall|i: int|
            0 <= i < self.frame_starts@.len() ==> (#[trigger] self.frame_starts@[i]) % 32 == 0
                && self.frame_starts@[i] <= self.buffer@.len()
        &&& forall|i: int, j: int|
            0 <= i <= j < self.frame_starts@.len() ==> #[trigger] self.frame_starts@[i]
                <= #[trigger] self.frame_starts@[j]
        &&& self.buffer@.len() % 32 == 0
        &&& self.buffer@.len() <= MEMORY_LIMIT_BYTES
    }

    pub fn new() -> (r: SharedMemory)
        ensures
            r.wf(),
            r@ == Seq::<u8>::empty(),
            r.frame_starts@.len() == 1,
    {
        let mut frame_starts = Vec::new();
        frame_starts.push(0usize);
        let r = SharedMemory { buffer: Vec::new(), frame_starts };
        proof {
            assert(r@ =~= Seq::<u8>::empty());
        }
        r
    }

    /// Length of the active window.
    pub fn len(&self) -> (r: usize)
        requires
            self.wf(),
        ensures
            r == self@.len(),
    {
        self.buffer.len() - self.frame_starts[self.frame_starts.len() - 1]
    }

    /// Number of open contexts.
    pub fn context_depth(&self) -> (r: usize)
        ensures
            r == self.frame_starts@.len(),
    {
        self.frame_starts.len()
    }

    /// Open a child context: the child's window starts empty at the current
    /// end of the buffer.
    pub fn new_context(&mut self)
        requires
            old(self).wf(),
        ensures
            final(self).wf(),
            final(self).buffer == old(self).buffer,
            final(self).frame_starts@ == old(self).frame_starts@.push(old(self).buffer@.len() as usize),
            final(self)@ == Seq::<u8>::empty(),
    {
        let mark = self.buffer.len();
        self.frame_starts.push(mark);
        proof {
            assert(final(self)@ =~= Seq::<u8>::empty());
        }
    }

    /// Close the innermost context: its bytes are discarded and the parent's
    /// window reappears exactly as it was.
    pub fn free_context(&mut self)
        requires
            old(self).wf(),
            old(self).frame_starts@.len() >= 2,
        ensures
            final(self).wf(),
            final(self).frame_starts@ == old(self).frame_starts@.drop_last(),
            final(self).buffer@ == old(self).buffer@.subrange(0, old(self).spec_start()),
    {
        let mark = self.frame_starts[self.frame_starts.len() - 1];
        self.frame_starts.pop();
        self.buffer.truncate(mark);
        proof {
            assert(final(self).buffer@ =~= old(self).buffer@.subrange(
                0,
                old(self).spec_start(),
            ));
        }
    }

    /// Grow the active window to hold `new_len` bytes, rounded up to whole
    /// words and zero-filled; a target not larger than the current window is
    /// a no-op.
    pub fn resize(&mut self, new_len: usize)
        requires
            old(self).wf(),
            old(self).spec_start() + spec_round_up_word(new_len as int) <= MEMORY_LIMIT_BYTES,
        ensures
            final(self).wf(),
            final(self).frame_starts == old(self).frame_starts,
            final(self)@ == spec_resize(old(self)@, new_len as int),
            final(self).buffer@.subrange(0, old(self).spec_start()) == old(
                self,
            ).buffer@.subrange(0, old(self).spec_start()),
            final(self)@.len() >= old(self)@.len(),
    {
        let words = (new_len / 32) + (if new_len % 32 == 0 {
            0
        } else {
            1
        });
        proof {
            assert(words * 32 == spec_round_up_word(new_len as int)) by (nonlinear_arith)
                requires
                    words == new_len as int / 32 + (if new_len as int % 32 == 0 {
                        0int
                    } else {
                        1int
                    }),
                    new_len >= 0,
            ;
        }
        let start = self.frame_starts[self.frame_starts.len() - 1];
        let target = start + words * 32;
        let ghost old_self = *self;
        while self.buffer.len() < target
            invariant
                old_self.wf(),
                target == old_self.spec_start() + spec_round_up_word(new_len as int),
                target % 32 == 0,
                target <= MEMORY_LIMIT_BYTES,
                self.frame_starts == old_self.frame_starts,
                self.buffer@.len() >= old_self.buffer@.len(),
                self.buffer@.subrange(0, old_self.buffer@.len() as int) == old_self.buffer@,
                forall|i: int|
                    old_self.buffer@.len() <= i < self.buffer@.len() ==> self.buffer@[i] == 0u8,
                self.buffer@.len() <= target || self.buffer@ == old_self.buffer@,
            decreases target - self.buffer@.len(),
        {
            self.buffer.push(0u8);
            proof {
                assert(self.buffer@.subrange(0, old_self.buffer@.len() as int)
                    =~= old_self.buffer@);
            }
        }
        proof {
            let st = old_self.spec_start();
            assert(st % 32 == 0 && st <= old_self.buffer@.len());
            if target <= old_self.buffer@.len() as int {
                assert(self.buffer@ =~= old_self.buffer@);
                assert(spec_round_up_word(new_len as int) <= old_self@.len());
                assert(final(self)@ =~= spec_resize(old_self@, new_len as int));
            } else {
                assert(self.buffer@.len() == target);
                assert(final(self)@ =~= spec_resize(old_self@, new_len as int));
                assert(final(self).buffer@.subrange(0, st) =~= old_self.buffer@.subrange(0, st));
            }
            assert(spec_round_up_word(new_len as int) >= 0) by (nonlinear_arith);
        }
    }

    /// Read `len` bytes at `offset` of the active window.
    pub fn read(&self, offset: usize, len: usize) -> (r: Vec<u8>)
        requires
            self.wf(),
            offset + len <= self@.len(),
        ensures
            r@ == self@.subrange(offset as int, offset + len),
    {
        let start = self.frame_starts[self.frame_starts.len() - 1];
        let mut r: Vec<u8> = Vec::new();
        let mut i: usize = 0;
        while i < len
            invariant
                self.wf(),
                offset + len <= self@.len(),
                start == self.spec_start(),
                i <= len,
                r@ == self@.subrange(offset as int, offset + i),
            decreases len - i,
        {
            r.push(self.buffer[start + offset + i]);
            i = i + 1;
            proof {
                assert(r@ =~= self@.subrange(offset as int, offset + i));
            }
        }
        r
    }

    /// Write `data` at `offset` of the active window.
    pub fn write(&mut self, offset: usize, data: &[u8])
        requires
            old(self).wf(),
            offset + data@.len() <= old(self)@.len(),
        ensures
            final(self).wf(),
            final(self).frame_starts == old(self).frame_starts,
            final(self)@.len() == old(self)@.len(),
            final(self)@ == old(self)@.subrange(0, offset as int) + data@ + old(self)@.subrange(
                offset + data@.len(),
                old(self)@.len() as int,
            ),
            final(self).buffer@.subrange(0, old(self).spec_start()) == old(
                self,
            ).buffer@.subrange(0, old(self).spec_start()),
    {
        let start = self.frame_starts[self.frame_starts.len() - 1];
        let ghost old_self = *self;
        let mut i: usize = 0;
        while i < data.len()
            invariant
                old_self.wf(),
                offset + data@.len() <= old_self@.len(),
                start == old_self.spec_start(),
                i <= data@.len(),
                self.frame_starts == old_self.frame_starts,
                self.buffer@.len() == old_self.buffer@.len(),
                self.buffer@.subrange(0, start as int) == old_self.buffer@.subrange(
                    0,
                    start as int,
                ),
                forall|j: int|
                    0 <= j < old_self@.len() && !(offset <= j < offset + i) ==> self@[j]
                        == old_self@[j],
                forall|j: int| 0 <= j < i ==> self@[offset + j] == data@[j],
            decreases data@.len() - i,
        {
            self.buffer.set(start + offset + i, data[i]);
            i = i + 1;
            proof {
                assert(self.buffer@.subrange(0, start as int) =~= old_self.buffer@.subrange(
                    0,
                    start as int,
                ));
            }
        }
        proof {
            assert(final(self)@ =~= old_self@.subrange(0, offset as int) + data@
                + old_self@.subrange(offset + data@.len(), old_self@.len() as int));
        }
    }

    /// Copy `len` bytes from `src` to `dst` inside the active window;
    /// overlapping ranges behave as a move through a scratch copy.
    pub fn copy_within(&mut self, dst: usize, src: usize, len: usize)
        requires
            old(self).wf(),
            src + len <= old(self)@.len(),
            dst + len <= old(self)@.len(),
        ensures
            final(self).wf(),
            final(self).frame_starts == old(self).frame_starts,
            final(self)@.len() == old(self)@.len(),
            final(self)@ == old(self)@.subrange(0, dst as int) + old(self)@.subrange(
                src as int,
                src + len,
            ) + old(self)@.subrange(dst + len, old(self)@.len() as int),
            final(self).buffer@.subrange(0, old(self).spec_start()) == old(
                self,
            ).buffer@.subrange(0, old(self).spec_start()),
    {
        let tmp = self.read(src, len);
        self.write(dst, tmp.as_slice());
    }

    /// The memory gas already covered by the active window.
    pub fn current_expansion_cost(&self) -> (r: u64)
        requires
            self.wf(),
        ensures
            r == spec_memory_gas(spec_num_words(self@.len() as int)),
    {
        let l = self.len();
        memory_gas(num_words(l))
    }
}

/// The number of 32-byte words needed for `len` bytes.
pub fn num_words(len: usize) -> (r: usize)
    requires
        len <= MEMORY_LIMIT_BYTES,
    ensures
        r == spec_num_words(len as int),
{
    (len / 32) + (if len % 32 == 0 {
        0
    } else {
        1
    })
}

/// The total memory gas for a window of `w` words.
pub fn memory_gas(w: usize) -> (r: u64)
    requires
        w <= 0x800_0000,
    ensures
        r == spec_memory_gas(w as int),
{
    proof {
        assert(w * w <= 0x800_0000 * 0x800_0000) by (nonlinear_arith)
            requires
                w <= 0x800_0000,
        ;
    }
    let w64 = w as u64;
    3 * w64 + (w64 * w64) / 512
}

/// Resizing is monotone and idempotent downward: after growing to `n` bytes,
/// a resize to any `m <= n` changes nothing.
pub proof fn lemma_resize_shrink_noop(window: Seq<u8>, n: int, m: int)
    requires
        0 <= m <= n,
    ensures
        spec_resize(spec_resize(window, n), m) == spec_resize(window, n),
{
    assert(spec_round_up_word(m) <= spec_round_up_word(n)) by (nonlinear_arith)
        requires
            0 <= m <= n,
    ;
    assert(spec_round_up_word(n) >= n) by (nonlinear_arith)
        requires
            n >= 0,
    ;
    assert(spec_resize(window, n).len() >= spec_round_up_word(n));
}

} // verus!
