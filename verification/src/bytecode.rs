//! Bytecode with a precomputed jump-destination table, and the program
//! counter cursor over it.
//!
//! Legacy bytecode is scanned once: starting at position 0, each opcode
//! advances the scan by one plus the length of its PUSH immediate, so a byte
//! inside an immediate is never an opcode. A position is a valid jump target
//! exactly when the scan visits it and finds the JUMPDEST byte there
//! (see [`lemma_jump_target_characterization`]).

use vstd::prelude::*;

verus! {

/// The JUMPDEST opcode byte.
pub const OP_JUMPDEST: u8 = 0x5B;

/// Immediate length of an opcode: `n` for PUSHn (0x60 is PUSH1), 0 for
/// everything else.
pub open spec fn spec_imm_len(op: u8) -> int {
    if 0x60 <= op <= 0x7F {
        op - 0x5F
    } else {
        0
    }
}

/// Exec mirror of [`spec_imm_len`].
pub fn imm_len(op: u8) -> (r: usize)
    ensures
        r == spec_imm_len(op),
{
    if 0x60 <= op && op <= 0x7F {
        (op - 0x5F) as usize
    } else {
        0
    }
}

/// The position the scan moves to from opcode position `i`, clamped to the
/// end of the code.
pub open spec fn spec_next_pos(code: Seq<u8>, i: int) -> int {
    let next = i + 1 + spec_imm_len(code[i]);
    if next > code.len() {
        code.len() as int
    } else {
        next
    }
}

/// Whether the scan that starts at position `i` visits position `p`; visited
/// positions are exactly the opcode positions.
pub open spec fn spec_is_code_position_from(code: Seq<u8>, i: int, p: int) -> bool
    decreases code.len() - i when 0 <= i <= code.len()
{
    if i >= code.len() || p < i {
        false
    } else if i == p {
        true
    } else {
        spec_is_code_position_from(code, spec_next_pos(code, i), p)
    }
}

/// Whether `p` is an opcode position of `code`: the scan from 0 visits it.
pub open spec fn spec_is_code_position(code: Seq<u8>, p: int) -> bool {
    spec_is_code_position_from(code, 0, p)
}

/// Whether `p` is a valid jump target of `code`: an opcode position holding
/// the JUMPDEST byte.
pub open spec fn spec_is_jump_target(code: Seq<u8>, p: int) -> bool {
    spec_is_code_position(code, p) && 0 <= p < code.len() && code[p] == OP_JUMPDEST
}

/// The scan only visits positions of the half-open interval it was started
/// in.
proof fn lemma_code_position_in_range(code: Seq<u8>, i: int, p: int)
    requires
        0 <= i <= code.len(),
        spec_is_code_position_from(code, i, p),
    ensures
        i <= p < code.len(),
    decreases code.len() - i,
{
    if i >= code.len() || p < i {
    } else if i == p {
    } else {
        lemma_code_position_in_range(code, spec_next_pos(code, i), p);
    }
}

/// Two positions the same scan visits, in order: the later one is visited by
/// the scan continuing from the earlier one's successor.
proof fn lemma_chain_step(code: Seq<u8>, i: int, q: int, p: int)
    requires
        0 <= i <= code.len(),
        spec_is_code_position_from(code, i, q),
        spec_is_code_position_from(code, i, p),
        q < p,
    ensures
        spec_is_code_position_from(code, spec_next_pos(code, q), p),
    decreases code.len() - i,
{
    if i == q {
    } else {
        lemma_chain_step(code, spec_next_pos(code, i), q, p);
    }
}

/// A position the scan skips lies inside the immediate of some visited
/// opcode.
proof fn lemma_skipped_is_immediate(code: Seq<u8>, i: int, p: int)
    requires
        0 <= i <= code.len(),
        i <= p < code.len(),
        !spec_is_code_position_from(code, i, p),
    ensures
        exists|q: int|
            spec_is_code_position_from(code, i, q) && q < p < q + 1 + spec_imm_len(code[q]),
    decreases code.len() - i,
{
    if i == p {
        assert(spec_is_code_position_from(code, i, p));
    } else {
        let next = spec_next_pos(code, i);
        if p < next {
            assert(spec_is_code_position_from(code, i, i));
            assert(i < p < i + 1 + spec_imm_len(code[i]));
        } else {
            lemma_skipped_is_immediate(code, next, p);
            let q = choose|q: int|
                spec_is_code_position_from(code, next, q) && q < p < q + 1 + spec_imm_len(
                    code[q],
                );
            assert(spec_is_code_position_from(code, i, q));
        }
    }
}

/// The jump-target characterization: a position is a valid jump target
/// exactly when it holds the JUMPDEST byte and does not lie inside the
/// immediate of any opcode before it.
pub proof fn lemma_jump_target_characterization(code: Seq<u8>, p: int)
    requires
        0 <= p < code.len(),
    ensures
        spec_is_jump_target(code, p) <==> (code[p] == OP_JUMPDEST && !(exists|q: int|
            spec_is_code_position(code, q) && q < p < q + 1 + spec_imm_len(code[q]))),
{
    if spec_is_code_position(code, p) {
        if exists|q: int| spec_is_code_position(code, q) && q < p < q + 1 + spec_imm_len(code[q]) {
            let q = choose|q: int|
                spec_is_code_position(code, q) && q < p < q + 1 + spec_imm_len(code[q]);
            lemma_code_position_in_range(code, 0, q);
            lemma_chain_step(code, 0, q, p);
            lemma_code_position_in_range(code, spec_next_pos(code, q), p);
            assert(p >= spec_next_pos(code, q));
            assert(false);
        }
    } else {
        assert(!spec_is_jump_target(code, p));
        lemma_skipped_is_immediate(code, 0, p);
        let q = choose|q: int|
            spec_is_code_position_from(code, 0, q) && q < p < q + 1 + spec_imm_len(code[q]);
        assert(spec_is_code_position(code, q) && q < p < q + 1 + spec_imm_len(code[q]));
        assert(exists|w: int|
            spec_is_code_position(code, w) && w < p < w + 1 + spec_imm_len(code[w]));
    }
}

/// Immutable bytecode with its jump-destination table.
#[derive(Debug)]
pub struct Bytecode {
    /// The raw code bytes.
    pub code: Vec<u8>,
    /// `jump_table[p]` iff `p` is a valid jump target.
    pub jump_table: Vec<bool>,
}

impl Bytecode {
    /// The table has one entry per byte and agrees with the scan.
    #[verifier::opaque]
    pub open spec fn wf(&self) -> bool {
        &&& self.jump_table@.len() == self.code@.len()
        &&& forall|p: int|
            0 <= p < self.code@.len() ==> #[trigger] self.jump_table@[p] == spec_is_jump_target(
                self.code@,
                p,
            )
    }

    /// Analyze raw code: scan it once and record every valid jump target.
    /// The code itself is kept unchanged.
    pub fn analyze(code: Vec<u8>) -> (r: Bytecode)
        ensures
            r.wf(),
            r.code@ == code@,
    {
        proof {
            reveal(Bytecode::wf);
        }
        let n = code.len();
        let mut jump_table: Vec<bool> = Vec::new();
        let mut k: usize = 0;
        while k < n
            invariant
                jump_table@.len() == k <= n,
                forall|p: int| 0 <= p < k ==> !(#[trigger] jump_table@[p]),
            decreases n - k,
        {
            jump_table.push(false);
            k = k + 1;
        }
        let mut i: usize = 0;
        while i < n
            invariant
                n == code@.len(),
                jump_table@.len() == n,
                0 <= i <= n,
                forall|p: int|
                    0 <= p < i ==> #[trigger] jump_table@[p] == spec_is_jump_target(code@, p),
                forall|p: int| i <= p < n ==> !(#[trigger] jump_table@[p]),
                forall|p: int|
                    i <= p < n ==> #[trigger] spec_is_code_position(code@, p)
                        == spec_is_code_position_from(code@, i as int, p),
            decreases n - i,
        {
            let ghost old_i = i as int;
            let op = code[i];
            if op == OP_JUMPDEST {
                jump_table.set(i, true);
                i = i + 1;
            } else {
                let skip = imm_len(op);
                if n - i <= skip {
                    i = n;
                } else {
                    i = i + 1 + skip;
                }
            }
            proof {
                assert(i as int == spec_next_pos(code@, old_i));
                assert forall|p: int| i <= p < n implies #[trigger] spec_is_code_position(
                    code@,
                    p,
                ) == spec_is_code_position_from(code@, i as int, p) by {
                    assert(spec_is_code_position_from(code@, old_i, p)
                        == spec_is_code_position_from(code@, i as int, p));
                }
                assert forall|p: int| old_i <= p < i implies #[trigger] jump_table@[p]
                    == spec_is_jump_target(code@, p) by {
                    if p == old_i {
                        assert(spec_is_code_position_from(code@, old_i, p));
                    } else {
                        assert(spec_is_code_position_from(code@, old_i, p)
                            == spec_is_code_position_from(code@, i as int, p));
                        assert(!spec_is_code_position_from(code@, i as int, p));
                    }
                }
            }
        }
        Bytecode { code, jump_table }
    }

    pub fn code_len(&self) -> (r: usize)
        ensures
            r == self.code@.len(),
    {
        self.code.len()
    }

    /// Whether `target` is a valid jump destination.
    pub fn is_valid_jumpdest(&self, target: usize) -> (r: bool)
        requires
            self.wf(),
        ensures
            r == spec_is_jump_target(self.code@, target as int),
    {
        proof {
            reveal(Bytecode::wf);
        }
        if target < self.jump_table.len() {
            self.jump_table[target]
        } else {
            proof {
                if spec_is_code_position(self.code@, target as int) {
                    lemma_code_position_in_range(self.code@, 0, target as int);
                }
            }
            false
        }
    }
}

/// The validator is deterministic: two analyzed bytecodes over the same code
/// carry the same jump table.
pub proof fn lemma_validator_deterministic(a: Bytecode, b: Bytecode)
    requires
        a.wf(),
        b.wf(),
        a.code@ == b.code@,
    ensures
        a.jump_table@ == b.jump_table@,
{
    reveal(Bytecode::wf);
    assert(a.jump_table@ =~= b.jump_table@);
}

/// The validator is idempotent: analysis keeps the code unchanged, so
/// analyzing an already-analyzed bytecode's code reproduces code and jump
/// table exactly.
pub proof fn lemma_validator_idempotent(a: Bytecode, b: Bytecode)
    requires
        a.wf(),
        b.wf(),
        b.code@ == a.code@,
    ensures
        b.code@ == a.code@,
        b.jump_table@ == a.jump_table@,
{
    lemma_validator_deterministic(a, b);
}

/// The program-counter cursor over an analyzed bytecode. Reading past the
/// end yields the STOP opcode, so execution always halts at the padding.
#[derive(Debug)]
pub struct ExtBytecode {
    /// The analyzed bytecode.
    pub base: Bytecode,
    /// The program counter.
    pub pc: usize,
}

impl ExtBytecode {
    pub open spec fn wf(&self) -> bool {
        self.base.wf()
    }

    pub fn new(base: Bytecode) -> (r: ExtBytecode)
        requires
            base.wf(),
        ensures
            r.wf(),
            r.base.code@ == base.code@,
            r.pc == 0,
    {
        ExtBytecode { base, pc: 0 }
    }

    pub fn pc(&self) -> (r: usize)
        ensures
            r == self.pc,
    {
        self.pc
    }

    /// The opcode at the program counter; STOP (0) past the end.
    pub fn opcode(&self) -> (r: u8)
        ensures
            r == spec_opcode_at(self.base.code@, self.pc as int),
    {
        if self.pc < self.base.code.len() {
            self.base.code[self.pc]
        } else {
            0
        }
    }

    /// Advance the program counter by `n`.
    pub fn relative_jump(&mut self, n: usize)
        requires
            old(self).wf(),
            old(self).pc + n <= usize::MAX,
        ensures
            final(self).wf(),
            final(self).base == old(self).base,
            final(self).pc == old(self).pc + n,
    {
        self.pc = self.pc + n;
    }

    /// Jump to an absolute target; reports whether the target was a valid
    /// jump destination, and moves only when it was.
    pub fn absolute_jump(&mut self, target: usize) -> (ok: bool)
        requires
            old(self).wf(),
        ensures
            final(self).wf(),
            final(self).base == old(self).base,
            ok == spec_is_jump_target(old(self).base.code@, target as int),
            ok ==> final(self).pc == target,
            !ok ==> final(self).pc == old(self).pc,
    {
        if self.base.is_valid_jumpdest(target) {
            self.pc = target;
            true
        } else {
            false
        }
    }
}

/// The byte at `pc`, or STOP (0) when `pc` is past the end of the code.
pub open spec fn spec_opcode_at(code: Seq<u8>, pc: int) -> u8 {
    if 0 <= pc < code.len() {
        code[pc]
    } else {
        0
    }
}

} // verus!
