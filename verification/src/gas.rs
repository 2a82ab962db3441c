//! The gas meter: limit, remaining, and refund accounting.
//!
//! The meter keeps `remaining <= limit`; the spent amount is by definition
//! `limit - remaining`, so `spent + remaining == limit` holds in every
//! reachable state (see [`lemma_gas_conservation`]).

use vstd::prelude::*;

use crate::env::{spec_fork_rank, SpecId};

verus! {

/// Gas for the cheapest opcodes.
pub const BASE: u64 = 2;

/// Gas for very cheap opcodes (pushes, arithmetic).
pub const VERYLOW: u64 = 3;

/// Gas for cheap opcodes.
pub const LOW: u64 = 5;

/// Gas for medium opcodes (JUMP).
pub const MID: u64 = 8;

/// Gas for JUMPI.
pub const HIGH: u64 = 10;

/// Gas for the JUMPDEST marker itself.
pub const JUMPDEST: u64 = 1;

/// Warm storage or account access (EIP-2929).
pub const WARM_STORAGE_READ_COST: u64 = 100;

/// Cold storage slot access surcharge base (EIP-2929).
pub const COLD_SLOAD_COST: u64 = 2100;

/// Cold account access (EIP-2929).
pub const COLD_ACCOUNT_ACCESS_COST: u64 = 2600;

/// Setting a storage slot from zero.
pub const SSTORE_SET: u64 = 20000;

/// Resetting a storage slot to another value.
pub const SSTORE_RESET: u64 = 5000;

/// Refund for clearing a slot, before London.
pub const REFUND_SSTORE_CLEARS: u64 = 15000;

/// Refund for clearing a slot, London on (EIP-3529).
pub const LONDON_SSTORE_CLEARS: u64 = 4800;

/// The EIP-2200 sentry: SSTORE needs more than this much gas left.
pub const SSTORE_SENTRY: u64 = 2300;

/// Base cost of a LOG opcode.
pub const LOG: u64 = 375;

/// Per byte of log data.
pub const LOGDATA: u64 = 8;

/// Per log topic.
pub const LOGTOPIC: u64 = 375;

/// Gas stipend handed to the callee of a value-carrying call.
pub const CALL_STIPEND: u64 = 2300;

/// Surcharge for a value-carrying call.
pub const CALLVALUE: u64 = 9000;

/// Surcharge for a value-carrying call to an empty account.
pub const NEWACCOUNT: u64 = 25000;

/// Base cost of SELFDESTRUCT.
pub const SELFDESTRUCT: u64 = 5000;

/// Refund for a first selfdestruct, before London removed it.
pub const SELFDESTRUCT_REFUND: u64 = 24000;

/// The SLOAD cost before Berlin (Istanbul value).
pub const ISTANBUL_SLOAD: u64 = 800;

/// The gas an SSTORE charges, by hardfork, the slot's original and present
/// values, the new value, and whether the slot is cold (EIP-2200 with
/// EIP-2929 cold pricing).
pub open spec fn spec_sstore_cost(
    spec_id: SpecId,
    original: nat,
    present: nat,
    new: nat,
    is_cold: bool,
) -> int {
    let berlin = spec_fork_rank(spec_id) >= spec_fork_rank(SpecId::Berlin);
    let sload_cost: int = if berlin {
        WARM_STORAGE_READ_COST as int
    } else {
        ISTANBUL_SLOAD as int
    };
    let reset_cost: int = if berlin {
        SSTORE_RESET - COLD_SLOAD_COST
    } else {
        SSTORE_RESET as int
    };
    let base: int = if new == present {
        sload_cost
    } else if present == original && original == 0 {
        SSTORE_SET as int
    } else if present == original {
        reset_cost
    } else {
        sload_cost
    };
    if berlin && is_cold {
        base + COLD_SLOAD_COST
    } else {
        base
    }
}

/// The refund delta an SSTORE records (EIP-2200, with the EIP-3529 clearing
/// schedule from London on).
pub open spec fn spec_sstore_refund(spec_id: SpecId, original: nat, present: nat, new: nat) -> int {
    let berlin = spec_fork_rank(spec_id) >= spec_fork_rank(SpecId::Berlin);
    let clears: int = if spec_fork_rank(spec_id) >= spec_fork_rank(SpecId::London) {
        LONDON_SSTORE_CLEARS as int
    } else {
        REFUND_SSTORE_CLEARS as int
    };
    let sload_cost: int = if berlin {
        WARM_STORAGE_READ_COST as int
    } else {
        ISTANBUL_SLOAD as int
    };
    let reset_cost: int = if berlin {
        SSTORE_RESET - COLD_SLOAD_COST
    } else {
        SSTORE_RESET as int
    };
    if new == present {
        0
    } else if present == original && new == 0 && original != 0 {
        clears
    } else {
        let part_clears: int = if original != 0 && present == 0 {
            -clears
        } else if original != 0 && new == 0 && present != original {
            clears
        } else {
            0
        };
        let part_restore: int = if original == new && original == 0 {
            SSTORE_SET - sload_cost
        } else if original == new {
            reset_cost - sload_cost
        } else {
            0
        };
        part_clears + part_restore
    }
}

/// Exec mirror of [`spec_sstore_cost`].
pub fn sstore_cost(spec_id: SpecId, original: &crate::word::U256, present: &crate::word::U256, new: &crate::word::U256, is_cold: bool) -> (r: u64)
    ensures
        r == spec_sstore_cost(spec_id, original.as_nat(), present.as_nat(), new.as_nat(), is_cold),
{
    let berlin = spec_id.is_enabled_in(SpecId::Berlin);
    let sload_cost: u64 = if berlin {
        WARM_STORAGE_READ_COST
    } else {
        ISTANBUL_SLOAD
    };
    let reset_cost: u64 = if berlin {
        SSTORE_RESET - COLD_SLOAD_COST
    } else {
        SSTORE_RESET
    };
    let base: u64 = if new == present {
        sload_cost
    } else if present == original && original.is_zero() {
        SSTORE_SET
    } else if present == original {
        reset_cost
    } else {
        sload_cost
    };
    proof {
        crate::word::lemma_word_eq_nat(*new, *present);
        crate::word::lemma_word_eq_nat(*present, *original);
    }
    if berlin && is_cold {
        base + COLD_SLOAD_COST
    } else {
        base
    }
}

/// Exec mirror of [`spec_sstore_refund`].
pub fn sstore_refund(spec_id: SpecId, original: &crate::word::U256, present: &crate::word::U256, new: &crate::word::U256) -> (r: i64)
    ensures
        r == spec_sstore_refund(spec_id, original.as_nat(), present.as_nat(), new.as_nat()),
{
    proof {
        crate::word::lemma_word_eq_nat(*new, *present);
        crate::word::lemma_word_eq_nat(*present, *original);
        crate::word::lemma_word_eq_nat(*original, *new);
    }
    let berlin = spec_id.is_enabled_in(SpecId::Berlin);
    let clears: i64 = if spec_id.is_enabled_in(SpecId::London) {
        LONDON_SSTORE_CLEARS as i64
    } else {
        REFUND_SSTORE_CLEARS as i64
    };
    let sload_cost: i64 = if berlin {
        WARM_STORAGE_READ_COST as i64
    } else {
        ISTANBUL_SLOAD as i64
    };
    let reset_cost: i64 = if berlin {
        (SSTORE_RESET - COLD_SLOAD_COST) as i64
    } else {
        SSTORE_RESET as i64
    };
    if new == present {
        0
    } else if present == original && new.is_zero() && !original.is_zero() {
        clears
    } else {
        let part_clears: i64 = if !original.is_zero() && present.is_zero() {
            -clears
        } else if !original.is_zero() && new.is_zero() && present != original {
            clears
        } else {
            0
        };
        let part_restore: i64 = if original == new && original.is_zero() {
            (SSTORE_SET as i64) - sload_cost
        } else if original == new {
            reset_cost - sload_cost
        } else {
            0
        };
        part_clears + part_restore
    }
}

/// Gas accounting for one interpreter frame.
#[derive(Clone, Copy, PartialEq, Eq, Structural, Debug)]
pub struct Gas {
    /// The gas limit the frame was given.
    pub limit: u64,
    /// Gas still available.
    pub remaining: u64,
    /// Accumulated refund; may be adjusted downward by storage restores.
    pub refunded: i64,
}

impl Gas {
    /// The meter never has more gas remaining than its limit.
    pub open spec fn wf(self) -> bool {
        self.remaining <= self.limit
    }

    /// Gas spent so far: the limit minus what remains.
    pub open spec fn spec_spent(self) -> nat {
        (self.limit - self.remaining) as nat
    }

    pub fn new(limit: u64) -> (r: Gas)
        ensures
            r.wf(),
            r.limit == limit,
            r.remaining == limit,
            r.refunded == 0,
            r.spec_spent() == 0,
    {
        Gas { limit, remaining: limit, refunded: 0 }
    }

    pub fn limit(&self) -> (r: u64)
        ensures
            r == self.limit,
    {
        self.limit
    }

    pub fn remaining(&self) -> (r: u64)
        ensures
            r == self.remaining,
    {
        self.remaining
    }

    pub fn refunded(&self) -> (r: i64)
        ensures
            r == self.refunded,
    {
        self.refunded
    }

    pub fn spent(&self) -> (r: u64)
        requires
            self.wf(),
        ensures
            r == self.spec_spent(),
    {
        self.limit - self.remaining
    }

    /// Charge `cost` gas. On success the cost is deducted; when the meter
    /// cannot cover it, nothing changes and the caller must halt with an
    /// out-of-gas result.
    pub fn record_cost(&mut self, cost: u64) -> (ok: bool)
        requires
            old(self).wf(),
        ensures
            final(self).wf(),
            ok == (cost <= old(self).remaining),
            ok ==> *final(self) == (Gas {
                remaining: (old(self).remaining - cost) as u64,
                ..*old(self)
            }),
            !ok ==> *final(self) == *old(self),
            final(self).limit == old(self).limit,
            final(self).refunded == old(self).refunded,
    {
        if cost <= self.remaining {
            self.remaining = self.remaining - cost;
            true
        } else {
            false
        }
    }

    /// Consume all remaining gas, as a halting error does.
    pub fn spend_all(&mut self)
        requires
            old(self).wf(),
        ensures
            final(self).wf(),
            *final(self) == (Gas { remaining: 0u64, ..*old(self) }),
    {
        self.remaining = 0;
    }

    /// Return `returned` gas to the meter, undoing part of an earlier charge.
    pub fn erase_cost(&mut self, returned: u64)
        requires
            old(self).wf(),
            returned <= old(self).spec_spent(),
        ensures
            final(self).wf(),
            *final(self) == (Gas {
                remaining: (old(self).remaining + returned) as u64,
                ..*old(self)
            }),
    {
        self.remaining = self.remaining + returned;
    }

    /// Adjust the refund counter by a signed amount.
    pub fn record_refund(&mut self, delta: i64)
        requires
            old(self).wf(),
            i64::MIN <= old(self).refunded + delta <= i64::MAX,
        ensures
            final(self).wf(),
            *final(self) == (Gas {
                refunded: (old(self).refunded + delta) as i64,
                ..*old(self)
            }),
    {
        self.refunded = self.refunded + delta;
    }

    /// Clamp the refund at the end of the transaction: to a fifth of the gas
    /// spent from London on, to half of it before.
    pub fn set_final_refund(&mut self, is_london: bool)
        requires
            old(self).wf(),
        ensures
            final(self).wf(),
            final(self).limit == old(self).limit,
            final(self).remaining == old(self).remaining,
            final(self).refunded == spec_capped_refund(
                old(self).refunded,
                old(self).spec_spent(),
                is_london,
            ),
    {
        let max_refund = self.spent() / (if is_london {
            5
        } else {
            2
        });
        let positive: u64 = if self.refunded > 0 {
            self.refunded as u64
        } else {
            0
        };
        let capped: u64 = if positive < max_refund {
            positive
        } else {
            max_refund
        };
        self.refunded = capped as i64;
    }
}

/// The refund that `set_final_refund` leaves: the accumulated refund, never
/// negative, capped at `spent / 5` (London on) or `spent / 2` (before).
pub open spec fn spec_capped_refund(refunded: i64, spent: nat, is_london: bool) -> int {
    let quotient: int = if is_london {
        5
    } else {
        2
    };
    let cap: int = spent as int / quotient;
    let positive: int = if refunded > 0 {
        refunded as int
    } else {
        0
    };
    if positive < cap {
        positive
    } else {
        cap
    }
}

/// Gas conservation: in every well-formed meter, spent and remaining gas sum
/// to the limit.
pub proof fn lemma_gas_conservation(g: Gas)
    requires
        g.wf(),
    ensures
        g.spec_spent() + g.remaining == g.limit,
{
}

} // verus!
