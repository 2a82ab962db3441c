//! 256-bit words and 160-bit account addresses.
//!
//! A word is stored as two 128-bit limbs; its mathematical value is given by
//! [`U256::as_nat`]. An address is stored as a 32-bit high part and a 128-bit
//! low part, 160 bits in all.

use vstd::prelude::*;

verus! {

/// 2^128, the weight of the high limb of a word.
pub open spec fn pow128() -> nat {
    0x1_0000_0000_0000_0000_0000_0000_0000_0000nat
}

/// 2^256, the modulus of word arithmetic.
pub open spec fn pow256() -> nat {
    pow128() * pow128()
}

/// Addition of word values, modulo 2^256.
pub open spec fn spec_add_mod256(a: nat, b: nat) -> nat {
    (((a + b) as int) % (pow256() as int)) as nat
}

/// Subtraction of word values, modulo 2^256.
pub open spec fn spec_sub_mod256(a: nat, b: nat) -> nat {
    ((a as int - b as int) % (pow256() as int)) as nat
}

/// The two wrapping operations cancel each other below 2^256.
pub proof fn lemma_mod256_cancel(a: nat, b: nat)
    requires
        a < pow256(),
        b < pow256(),
    ensures
        spec_sub_mod256(spec_add_mod256(a, b), b) == a,
        spec_add_mod256(spec_sub_mod256(a, b), b) == a,
{
    let p = pow256() as int;
    assert(p > 1) by (nonlinear_arith)
        requires
            p == pow256() as int,
            pow256() == pow128() * pow128(),
            pow128() > 1,
    ;
    if a + b < p {
        vstd::arithmetic::div_mod::lemma_small_mod((a + b) as nat, p as nat);
        vstd::arithmetic::div_mod::lemma_small_mod(a, p as nat);
    } else {
        vstd::arithmetic::div_mod::lemma_mod_sub_multiples_vanish((a + b) as int, p);
        vstd::arithmetic::div_mod::lemma_small_mod((a + b - p) as nat, p as nat);
        vstd::arithmetic::div_mod::lemma_small_mod(a, p as nat);
        vstd::arithmetic::div_mod::lemma_mod_add_multiples_vanish(a + b - p - b, p);
    }
    if a >= b {
        vstd::arithmetic::div_mod::lemma_small_mod((a - b) as nat, p as nat);
        vstd::arithmetic::div_mod::lemma_small_mod(a, p as nat);
    } else {
        vstd::arithmetic::div_mod::lemma_mod_add_multiples_vanish(a - b, p);
        vstd::arithmetic::div_mod::lemma_small_mod((a - b + p) as nat, p as nat);
        vstd::arithmetic::div_mod::lemma_mod_sub_multiples_vanish(a - b + p + b, p);
        vstd::arithmetic::div_mod::lemma_small_mod(a, p as nat);
    }
}

/// An unsigned 256-bit integer: stack cells, storage keys and values,
/// balances, and most opcode operands.
#[derive(Clone, Copy, PartialEq, Eq, Structural, Debug, Hash)]
pub struct U256 {
    pub hi: u128,
    pub lo: u128,
}

impl U256 {
    /// The mathematical value of the word.
    pub open spec fn as_nat(self) -> nat {
        (self.hi * pow128() + self.lo) as nat
    }

    pub fn zero() -> (r: U256)
        ensures
            r.as_nat() == 0,
    {
        U256 { hi: 0, lo: 0 }
    }

    pub fn one() -> (r: U256)
        ensures
            r.as_nat() == 1,
    {
        U256 { hi: 0, lo: 1 }
    }

    pub fn from_u64(x: u64) -> (r: U256)
        ensures
            r.as_nat() == x,
    {
        U256 { hi: 0, lo: x as u128 }
    }

    pub fn from_u128(x: u128) -> (r: U256)
        ensures
            r.as_nat() == x,
    {
        U256 { hi: 0, lo: x }
    }

    pub fn is_zero(&self) -> (r: bool)
        ensures
            r == (self.as_nat() == 0),
    {
        proof {
            if self.hi != 0 {
                assert(self.as_nat() >= pow128()) by (nonlinear_arith)
                    requires
                        self.as_nat() == self.hi * pow128() + self.lo,
                        self.hi >= 1,
                ;
            }
        }
        self.hi == 0 && self.lo == 0
    }

    /// Strict order on the mathematical values.
    pub fn lt(&self, other: &U256) -> (r: bool)
        ensures
            r == (self.as_nat() < other.as_nat()),
    {
        proof {
            lemma_limbs_order(*self, *other);
        }
        self.hi < other.hi || (self.hi == other.hi && self.lo < other.lo)
    }

    pub fn le(&self, other: &U256) -> (r: bool)
        ensures
            r == (self.as_nat() <= other.as_nat()),
    {
        proof {
            lemma_limbs_order(*self, *other);
            lemma_limbs_order(*other, *self);
            lemma_as_nat_injective(*self, *other);
        }
        self.hi < other.hi || (self.hi == other.hi && self.lo <= other.lo)
    }

    /// Addition modulo 2^256.
    pub fn wrapping_add(&self, other: &U256) -> (r: U256)
        ensures
            self.as_nat() + other.as_nat() < pow256() ==> r.as_nat() == self.as_nat()
                + other.as_nat(),
            self.as_nat() + other.as_nat() >= pow256() ==> r.as_nat() + pow256() == self.as_nat()
                + other.as_nat(),
            r.as_nat() == spec_add_mod256(self.as_nat(), other.as_nat()),
    {
        let (lo, carry): (u128, u128) = if self.lo <= u128::MAX - other.lo {
            (self.lo + other.lo, 0)
        } else {
            ((self.lo - (u128::MAX - other.lo)) - 1, 1)
        };
        let hi_wide_overflows: bool = {
            let room = u128::MAX - other.hi;
            self.hi > room || (self.hi == room && carry > 0) || (carry > 0 && other.hi == u128::MAX
                && self.hi == 0 && room < carry)
        };
        let hi: u128 = if self.hi <= u128::MAX - other.hi {
            if carry <= u128::MAX - (self.hi + other.hi) {
                self.hi + other.hi + carry
            } else {
                0
            }
        } else {
            ((self.hi - (u128::MAX - other.hi)) - 1) + carry
        };
        let _ = hi_wide_overflows;
        let r = U256 { hi, lo };
        proof {
            let a = self.as_nat();
            let b = other.as_nat();
            let c = carry as nat;
            let p = pow128();
            assert(lo as nat + c * p == self.lo + other.lo);
            let full_hi = self.hi as nat + other.hi as nat + c;
            assert(hi as nat == full_hi || hi as nat + p == full_hi);
            if hi as nat == full_hi {
                assert(r.as_nat() == a + b) by (nonlinear_arith)
                    requires
                        r.as_nat() == hi * p + lo,
                        hi as nat == self.hi + other.hi + c,
                        lo as nat + c * p == self.lo + other.lo,
                        a == self.hi * p + self.lo,
                        b == other.hi * p + other.lo,
                ;
                assert(a + b < pow256()) by (nonlinear_arith)
                    requires
                        a + b == hi * p + lo,
                        hi < p,
                        lo < p,
                        pow256() == p * p,
                ;
            } else {
                assert(r.as_nat() + p * p == a + b) by (nonlinear_arith)
                    requires
                        r.as_nat() == hi * p + lo,
                        hi as nat + p == self.hi + other.hi + c,
                        lo as nat + c * p == self.lo + other.lo,
                        a == self.hi * p + self.lo,
                        b == other.hi * p + other.lo,
                ;
            }
            let av = self.as_nat();
            let bv = other.as_nat();
            lemma_u256_bound(*self);
            lemma_u256_bound(*other);
            if av + bv < pow256() {
                vstd::arithmetic::div_mod::lemma_small_mod((av + bv) as nat, pow256());
            } else {
                vstd::arithmetic::div_mod::lemma_mod_add_multiples_vanish(
                    av + bv - pow256() as int,
                    pow256() as int,
                );
                vstd::arithmetic::div_mod::lemma_small_mod((av + bv - pow256()) as nat, pow256());
            }
        }
        r
    }

    /// Addition that reports overflow instead of wrapping.
    pub fn checked_add(&self, other: &U256) -> (r: Option<U256>)
        ensures
            self.as_nat() + other.as_nat() < pow256() ==> (r is Some
                && r->Some_0.as_nat() == self.as_nat() + other.as_nat()),
            self.as_nat() + other.as_nat() >= pow256() ==> r is None,
    {
        let lo_overflow = self.lo > u128::MAX - other.lo;
        let hi_sum_overflow = self.hi > u128::MAX - other.hi;
        if hi_sum_overflow {
            proof {
                assert(self.as_nat() + other.as_nat() >= pow256()) by (nonlinear_arith)
                    requires
                        self.as_nat() == self.hi * pow128() + self.lo,
                        other.as_nat() == other.hi * pow128() + other.lo,
                        self.hi + other.hi >= pow128(),
                        pow256() == pow128() * pow128(),
                ;
            }
            return None;
        }
        let hi_sum = self.hi + other.hi;
        if lo_overflow && hi_sum == u128::MAX {
            proof {
                assert(self.as_nat() + other.as_nat() >= pow256()) by (nonlinear_arith)
                    requires
                        self.as_nat() == self.hi * pow128() + self.lo,
                        other.as_nat() == other.hi * pow128() + other.lo,
                        self.hi + other.hi + 1 >= pow128(),
                        self.lo + other.lo >= pow128(),
                        pow256() == pow128() * pow128(),
                ;
            }
            return None;
        }
        proof {
            assert(self.as_nat() + other.as_nat() < pow256()) by (nonlinear_arith)
                requires
                    self.as_nat() == self.hi * pow128() + self.lo,
                    other.as_nat() == other.hi * pow128() + other.lo,
                    self.lo < pow128(),
                    other.lo < pow128(),
                    self.lo + other.lo < pow128() || self.hi + other.hi + 1 < pow128(),
                    self.hi + other.hi < pow128(),
                    pow256() == pow128() * pow128(),
            ;
        }
        Some(self.wrapping_add(other))
    }

    /// Saturating addition.
    pub fn saturating_add(&self, other: &U256) -> (r: U256)
        ensures
            self.as_nat() + other.as_nat() < pow256() ==> r.as_nat() == self.as_nat()
                + other.as_nat(),
            self.as_nat() + other.as_nat() >= pow256() ==> r.as_nat() == pow256() - 1,
    {
        match self.checked_add(other) {
            Some(r) => r,
            None => {
                let r = U256 { hi: u128::MAX, lo: u128::MAX };
                proof {
                    assert(r.as_nat() == pow256() - 1) by (nonlinear_arith)
                        requires
                            r.as_nat() == (pow128() - 1) * pow128() + (pow128() - 1),
                            pow256() == pow128() * pow128(),
                    ;
                }
                r
            },
        }
    }

    /// Subtraction that reports underflow.
    pub fn checked_sub(&self, other: &U256) -> (r: Option<U256>)
        ensures
            self.as_nat() >= other.as_nat() ==> (r is Some
                && r->Some_0.as_nat() == self.as_nat() - other.as_nat()),
            self.as_nat() < other.as_nat() ==> r is None,
    {
        proof {
            lemma_limbs_order(*self, *other);
            lemma_limbs_order(*other, *self);
            lemma_as_nat_injective(*self, *other);
        }
        if self.hi < other.hi || (self.hi == other.hi && self.lo < other.lo) {
            return None;
        }
        let (lo, borrow): (u128, u128) = if self.lo >= other.lo {
            (self.lo - other.lo, 0)
        } else {
            (u128::MAX - (other.lo - self.lo - 1), 1)
        };
        let hi = self.hi - other.hi - borrow;
        let r = U256 { hi, lo };
        proof {
            assert(r.as_nat() == self.as_nat() - other.as_nat()) by (nonlinear_arith)
                requires
                    r.as_nat() == hi * pow128() + lo,
                    hi as nat == self.hi - other.hi - borrow,
                    lo as nat == self.lo + borrow * pow128() - other.lo,
                    self.as_nat() == self.hi * pow128() + self.lo,
                    other.as_nat() == other.hi * pow128() + other.lo,
            ;
        }
        Some(r)
    }

    /// Subtraction modulo 2^256.
    pub fn wrapping_sub(&self, other: &U256) -> (r: U256)
        ensures
            self.as_nat() >= other.as_nat() ==> r.as_nat() == self.as_nat() - other.as_nat(),
            self.as_nat() < other.as_nat() ==> r.as_nat() == pow256() + self.as_nat()
                - other.as_nat(),
            r.as_nat() == spec_sub_mod256(self.as_nat(), other.as_nat()),
    {
        proof {
            let av = self.as_nat();
            let bv = other.as_nat();
            lemma_u256_bound(*self);
            lemma_u256_bound(*other);
            if av >= bv {
                vstd::arithmetic::div_mod::lemma_small_mod((av - bv) as nat, pow256());
            } else {
                vstd::arithmetic::div_mod::lemma_mod_add_multiples_vanish(
                    av as int - bv as int,
                    pow256() as int,
                );
                vstd::arithmetic::div_mod::lemma_small_mod((pow256() + av - bv) as nat, pow256());
            }
        }
        match self.checked_sub(other) {
            Some(r) => r,
            None => {
                // self < other: compute (2^256 - other) + self, which cannot wrap again.
                let not_other = U256 { hi: u128::MAX - other.hi, lo: u128::MAX - other.lo };
                proof {
                    assert(not_other.as_nat() == pow256() - 1 - other.as_nat())
                        by (nonlinear_arith)
                        requires
                            not_other.as_nat() == (pow128() - 1 - other.hi) * pow128() + (pow128()
                                - 1 - other.lo),
                            other.as_nat() == other.hi * pow128() + other.lo,
                            other.hi < pow128(),
                            other.lo < pow128(),
                            pow256() == pow128() * pow128(),
                    ;
                }
                let one = U256 { hi: 0, lo: 1 };
                let tmp = not_other.wrapping_add(&one);
                tmp.wrapping_add(self)
            },
        }
    }
}

/// Every word value lies below 2^256.
pub proof fn lemma_u256_bound(a: U256)
    ensures
        a.as_nat() < pow256(),
{
    assert(a.as_nat() < pow256()) by (nonlinear_arith)
        requires
            a.as_nat() == a.hi * pow128() + a.lo,
            a.hi < pow128(),
            a.lo < pow128(),
            pow256() == pow128() * pow128(),
    ;
}

/// 2^160, the modulus of address arithmetic.
pub open spec fn pow160() -> nat {
    0x1_0000_0000_0000_0000_0000_0000_0000_0000_0000_0000nat
}

/// 2^32.
pub open spec fn pow32() -> nat {
    0x1_0000_0000nat
}

impl U256 {
    /// Truncate the word to an address: its low 160 bits.
    pub fn into_address(&self) -> (r: Address)
        ensures
            r.as_nat() == self.as_nat() % pow160(),
            r == (Address { hi: (self.hi % 0x1_0000_0000) as u32, lo: self.lo }),
    {
        let hi32 = (self.hi % 0x1_0000_0000) as u32;
        let r = Address { hi: hi32, lo: self.lo };
        proof {
            let q = self.hi as int / pow32() as int;
            vstd::arithmetic::div_mod::lemma_fundamental_div_mod(self.hi as int, pow32() as int);
            assert(self.as_nat() == q * pow160() + r.as_nat()) by (nonlinear_arith)
                requires
                    self.as_nat() == self.hi * pow128() + self.lo,
                    r.as_nat() == (self.hi % (pow32() as u128)) * pow128() + self.lo,
                    self.hi == q * pow32() + (self.hi % (pow32() as u128)),
                    pow160() == pow32() * pow128(),
            ;
            assert(r.as_nat() < pow160()) by (nonlinear_arith)
                requires
                    r.as_nat() == (self.hi % (pow32() as u128)) * pow128() + self.lo,
                    self.hi % (pow32() as u128) < pow32(),
                    self.lo < pow128(),
                    pow160() == pow32() * pow128(),
            ;
            assert(q >= 0) by (nonlinear_arith)
                requires
                    q == self.hi as int / pow32() as int,
                    self.hi >= 0,
                    pow32() > 0,
            ;
            vstd::arithmetic::div_mod::lemma_fundamental_div_mod_converse(
                self.as_nat() as int,
                pow160() as int,
                q,
                r.as_nat() as int,
            );
        }
        r
    }

    /// The word as a u64, saturating above the range.
    pub fn as_u64_saturated(&self) -> (r: u64)
        ensures
            self.as_nat() <= u64::MAX ==> r == self.as_nat(),
            self.as_nat() > u64::MAX ==> r == u64::MAX,
    {
        proof {
            if self.hi != 0 {
                assert(self.as_nat() >= pow128()) by (nonlinear_arith)
                    requires
                        self.as_nat() == self.hi * pow128() + self.lo,
                        self.hi >= 1,
                ;
            }
        }
        if self.hi == 0 && self.lo <= u64::MAX as u128 {
            self.lo as u64
        } else {
            u64::MAX
        }
    }

    /// The word as a usize, when it fits.
    pub fn as_usize(&self) -> (r: Option<usize>)
        ensures
            self.as_nat() <= usize::MAX ==> r == Some(self.as_nat() as usize),
            self.as_nat() > usize::MAX ==> r is None,
    {
        proof {
            if self.hi != 0 {
                assert(self.as_nat() >= pow128()) by (nonlinear_arith)
                    requires
                        self.as_nat() == self.hi * pow128() + self.lo,
                        self.hi >= 1,
                ;
            }
        }
        if self.hi == 0 && self.lo <= usize::MAX as u128 {
            Some(self.lo as usize)
        } else {
            None
        }
    }

    /// The low byte of the word.
    pub fn low_byte(&self) -> (r: u8)
        ensures
            r == self.as_nat() % 256,
    {
        proof {
            let q = self.as_nat() as int / 256;
            vstd::arithmetic::div_mod::lemma_fundamental_div_mod(self.lo as int, 256);
            assert(self.as_nat() == (self.hi * (pow128() / 256) + self.lo as int / 256) * 256 + (
            self.lo as int % 256)) by (nonlinear_arith)
                requires
                    self.as_nat() == self.hi * pow128() + self.lo,
                    self.lo as int == (self.lo as int / 256) * 256 + (self.lo as int % 256),
                    pow128() == (pow128() / 256) * 256,
            ;
            vstd::arithmetic::div_mod::lemma_fundamental_div_mod_converse(
                self.as_nat() as int,
                256,
                self.hi as int * (pow128() as int / 256) + self.lo as int / 256,
                self.lo as int % 256,
            );
        }
        (self.lo % 256) as u8
    }
}

/// 2^64.
pub open spec fn pow64() -> nat {
    0x1_0000_0000_0000_0000nat
}

/// The exact product of a u128 and a u64, as a word.
pub fn mul_u128_u64(a: u128, b: u64) -> (r: U256)
    ensures
        r.as_nat() == a * b,
{
    let a_hi = a / 0x1_0000_0000_0000_0000u128;
    let a_lo = a % 0x1_0000_0000_0000_0000u128;
    proof {
        assert(a_hi < pow64() && a_lo < pow64()) by (nonlinear_arith)
            requires
                a_hi == a as int / pow64() as int,
                a_lo == a as int % pow64() as int,
                a < pow64() * pow64(),
                pow64() > 0,
        ;
        assert(a_hi * b < pow128() && a_lo * b < pow128()) by (nonlinear_arith)
            requires
                a_hi < pow64(),
                a_lo < pow64(),
                b < pow64(),
                pow128() == pow64() * pow64(),
        ;
    }
    let p_hi = a_hi * (b as u128);
    let p_lo = a_lo * (b as u128);
    let hi1 = p_hi / 0x1_0000_0000_0000_0000u128;
    let lo1_part = p_hi % 0x1_0000_0000_0000_0000u128;
    proof {
        assert(lo1_part * pow64() < pow128() && lo1_part * pow64() + pow128() <= pow128()
            + pow128()) by (nonlinear_arith)
            requires
                lo1_part < pow64(),
                pow128() == pow64() * pow64(),
        ;
    }
    let r1 = U256 { hi: hi1, lo: lo1_part * 0x1_0000_0000_0000_0000u128 };
    let r2 = U256 { hi: 0, lo: p_lo };
    proof {
        vstd::arithmetic::div_mod::lemma_fundamental_div_mod(p_hi as int, pow64() as int);
        assert(r1.as_nat() == p_hi * pow64()) by (nonlinear_arith)
            requires
                r1.as_nat() == hi1 * pow128() + lo1_part * pow64(),
                p_hi == hi1 * pow64() + lo1_part,
                pow128() == pow64() * pow64(),
        ;
        vstd::arithmetic::div_mod::lemma_fundamental_div_mod(a as int, pow64() as int);
        assert(a * b == p_hi * pow64() + p_lo) by (nonlinear_arith)
            requires
                a == a_hi * pow64() + a_lo,
                p_hi == a_hi * b,
                p_lo == a_lo * b,
        ;
        assert(r1.as_nat() + r2.as_nat() < pow256()) by (nonlinear_arith)
            requires
                r1.as_nat() == p_hi * pow64(),
                r2.as_nat() == p_lo,
                p_hi < pow128(),
                p_lo < pow128(),
                pow256() == pow128() * pow128(),
                pow128() == pow64() * pow64(),
                pow128() >= pow64(),
        ;
    }
    r1.wrapping_add(&r2)
}

/// Word equality coincides with equality of the mathematical values.
pub proof fn lemma_word_eq_nat(a: U256, b: U256)
    ensures
        (a == b) == (a.as_nat() == b.as_nat()),
{
    lemma_as_nat_injective(a, b);
}

/// Ordering of the limb pairs matches ordering of the values.
proof fn lemma_limbs_order(a: U256, b: U256)
    ensures
        a.hi < b.hi ==> a.as_nat() < b.as_nat(),
        a.hi == b.hi && a.lo < b.lo ==> a.as_nat() < b.as_nat(),
{
    if a.hi < b.hi {
        assert(a.as_nat() < b.as_nat()) by (nonlinear_arith)
            requires
                a.as_nat() == a.hi * pow128() + a.lo,
                b.as_nat() == b.hi * pow128() + b.lo,
                a.hi < b.hi,
                a.lo < pow128(),
        ;
    }
    if a.hi == b.hi && a.lo < b.lo {
        assert(a.as_nat() < b.as_nat()) by (nonlinear_arith)
            requires
                a.as_nat() == a.hi * pow128() + a.lo,
                b.as_nat() == b.hi * pow128() + b.lo,
                a.hi == b.hi,
                a.lo < b.lo,
        ;
    }
}

/// Distinct limb pairs have distinct values.
proof fn lemma_as_nat_injective(a: U256, b: U256)
    ensures
        a.as_nat() == b.as_nat() ==> a == b,
{
    lemma_limbs_order(a, b);
    lemma_limbs_order(b, a);
}

/// A 20-byte (160-bit) account identifier, stored as a 32-bit high part and
/// a 128-bit low part.
#[derive(Clone, Copy, PartialEq, Eq, Structural, Debug, Hash)]
pub struct Address {
    pub hi: u32,
    pub lo: u128,
}

impl Address {
    /// The mathematical value of the address, below 2^160.
    pub open spec fn as_nat(self) -> nat {
        (self.hi * pow128() + self.lo) as nat
    }

    pub fn zero() -> (r: Address)
        ensures
            r.as_nat() == 0,
    {
        Address { hi: 0, lo: 0 }
    }

    pub fn from_u64(x: u64) -> (r: Address)
        ensures
            r.as_nat() == x,
    {
        Address { hi: 0, lo: x as u128 }
    }

    /// The address zero-extended to a word, as the ORIGIN and CALLER opcodes
    /// push it.
    pub fn into_word(&self) -> (r: U256)
        ensures
            r.as_nat() == self.as_nat(),
    {
        U256 { hi: self.hi as u128, lo: self.lo }
    }
}

} // verus!
