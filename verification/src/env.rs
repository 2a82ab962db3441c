//! The execution environment: hardfork identifiers, block and transaction
//! environments, configuration, and the context the interpreter runs in.

use vstd::prelude::*;

use crate::journal::JournaledState;
use crate::word::{Address, U256};

verus! {

/// The hardfork the engine executes under.
#[derive(Clone, Copy, PartialEq, Eq, Structural, Debug)]
pub enum SpecId {
    Frontier,
    Homestead,
    Tangerine,
    SpuriousDragon,
    Byzantium,
    Constantinople,
    Petersburg,
    Istanbul,
    Berlin,
    London,
    Merge,
    Shanghai,
    Cancun,
    Prague,
}

/// The rank of a hardfork in activation order.
pub open spec fn spec_fork_rank(s: SpecId) -> int {
    match s {
        SpecId::Frontier => 0,
        SpecId::Homestead => 1,
        SpecId::Tangerine => 2,
        SpecId::SpuriousDragon => 3,
        SpecId::Byzantium => 4,
        SpecId::Constantinople => 5,
        SpecId::Petersburg => 6,
        SpecId::Istanbul => 7,
        SpecId::Berlin => 8,
        SpecId::London => 9,
        SpecId::Merge => 10,
        SpecId::Shanghai => 11,
        SpecId::Cancun => 12,
        SpecId::Prague => 13,
    }
}

impl SpecId {
    fn rank(self) -> (r: u8)
        ensures
            r == spec_fork_rank(self),
    {
        match self {
            SpecId::Frontier => 0,
            SpecId::Homestead => 1,
            SpecId::Tangerine => 2,
            SpecId::SpuriousDragon => 3,
            SpecId::Byzantium => 4,
            SpecId::Constantinople => 5,
            SpecId::Petersburg => 6,
            SpecId::Istanbul => 7,
            SpecId::Berlin => 8,
            SpecId::London => 9,
            SpecId::Merge => 10,
            SpecId::Shanghai => 11,
            SpecId::Cancun => 12,
            SpecId::Prague => 13,
        }
    }

    /// Whether this hardfork includes `other`'s rules.
    pub fn is_enabled_in(self, other: SpecId) -> (r: bool)
        ensures
            r == (spec_fork_rank(self) >= spec_fork_rank(other)),
    {
        self.rank() >= other.rank()
    }
}

/// The block-level environment the opcodes read.
#[derive(Clone, Copy, Debug)]
pub struct BlockEnv {
    pub number: u64,
    pub timestamp: u64,
    pub gas_limit: u64,
    pub basefee: u128,
    pub coinbase: Address,
    pub prevrandao: U256,
    pub blob_base_fee: u128,
}

/// Whether a transaction calls an existing account or creates a new one.
#[derive(Clone, Copy, PartialEq, Eq, Structural, Debug)]
pub enum TxKind {
    Call(Address),
    Create,
}

/// The transaction-level environment.
#[derive(Debug)]
pub struct TxEnv {
    pub caller: Address,
    pub kind: TxKind,
    pub value: U256,
    pub gas_limit: u64,
    /// The legacy gas price, or the maximum fee for fee-market transactions.
    pub gas_price: u128,
    /// The priority fee cap, for fee-market transactions.
    pub max_priority_fee: Option<u128>,
    pub data: Vec<u8>,
    pub nonce: u64,
    pub chain_id: u64,
    pub blob_versioned_hashes: Vec<U256>,
}

/// The price per gas unit actually paid: the legacy price as it stands, or
/// `min(max_fee, basefee + priority)` under the fee market.
pub open spec fn spec_effective_gas_price(gas_price: u128, max_priority_fee: Option<u128>, basefee: u128) -> int {
    match max_priority_fee {
        None => gas_price as int,
        Some(prio) => {
            let with_prio = basefee + prio;
            if with_prio < gas_price {
                with_prio
            } else {
                gas_price as int
            }
        },
    }
}

impl TxEnv {
    /// The effective gas price against the given base fee.
    pub fn effective_gas_price(&self, basefee: u128) -> (r: u128)
        ensures
            r == spec_effective_gas_price(self.gas_price, self.max_priority_fee, basefee),
    {
        match self.max_priority_fee {
            None => self.gas_price,
            Some(prio) => {
                if basefee <= u128::MAX - prio && basefee + prio < self.gas_price {
                    basefee + prio
                } else {
                    proof {
                        if basefee > u128::MAX - prio {
                            assert(basefee + prio > u128::MAX >= self.gas_price);
                        }
                    }
                    self.gas_price
                }
            },
        }
    }
}

/// Engine configuration.
#[derive(Clone, Copy, Debug)]
pub struct CfgEnv {
    pub spec_id: SpecId,
    pub chain_id: u64,
}

/// Everything the interpreter reaches the world through: the journaled state
/// and the environments.
pub struct Context {
    pub journal: JournaledState,
    pub block: BlockEnv,
    pub tx: TxEnv,
    pub cfg: CfgEnv,
}

impl Context {
    pub open spec fn wf(self) -> bool {
        self.journal.wf()
    }

    pub fn tx(&self) -> (r: &TxEnv)
        ensures
            r == &self.tx,
    {
        &self.tx
    }

    pub fn block(&self) -> (r: &BlockEnv)
        ensures
            r == &self.block,
    {
        &self.block
    }

    pub fn cfg(&self) -> (r: &CfgEnv)
        ensures
            r == &self.cfg,
    {
        &self.cfg
    }
}

} // verus!
