//! Transaction variants: the common field surface every transaction offers,
//! and the rollup-style extension that adds deposit transactions with an
//! enveloped wire form.

use vstd::prelude::*;

use crate::env::TxKind;
use crate::word::{Address, U256};

verus! {

/// The base transaction types.
#[derive(Clone, Copy, PartialEq, Eq, Structural, Debug)]
pub enum TransactionType {
    Legacy,
    Eip2930,
    Eip1559,
    Eip4844,
    Eip7702,
    /// A type the base protocol does not know.
    Custom,
}

/// The fields every transaction shares.
pub trait CommonTxFields {
    /// The transaction signer.
    fn caller(&self) -> Address;

    /// The maximum amount of gas the transaction can use.
    fn gas_limit(&self) -> u64;

    /// The value sent to the recipient.
    fn value(&self) -> U256;

    /// The input data of the transaction.
    fn input(&self) -> &Vec<u8>;

    /// The nonce of the transaction.
    fn nonce(&self) -> u64;
}

/// A typed transaction.
pub trait Transaction: CommonTxFields {
    /// Which base type this transaction has.
    fn tx_type(&self) -> TransactionType;
}

/// A deposit transaction: minted on the rollup from a source event.
pub trait DepositTransaction: CommonTxFields {
    /// Hash that uniquely identifies the source of the deposit.
    fn source_hash(&self) -> U256;

    /// The recipient, or a creation.
    fn to(&self) -> TxKind;

    /// The value to mint on the rollup.
    fn mint(&self) -> Option<u128>;

    /// Whether this transaction is exempt from the rollup gas limit.
    fn is_system_transaction(&self) -> bool;
}

/// A deposit transaction's fields.
pub struct TxDeposit {
    /// Hash that uniquely identifies the source of the deposit.
    pub source_hash: U256,
    /// The address of the sender account.
    pub from: Address,
    /// The address of the recipient account, or a creation.
    pub to: TxKind,
    /// The value to mint on the rollup.
    pub mint: Option<u128>,
    /// The value to send to the recipient account.
    pub value: U256,
    /// The gas limit for the rollup transaction.
    pub gas_limit: u64,
    /// Whether this transaction is exempt from the rollup gas limit.
    pub is_system_transaction: bool,
    /// Input data; calldata for a call, init code for a creation.
    pub input: Vec<u8>,
}

impl CommonTxFields for TxDeposit {
    fn caller(&self) -> (r: Address)
        ensures
            r == self.from,
    {
        self.from
    }

    fn gas_limit(&self) -> (r: u64)
        ensures
            r == self.gas_limit,
    {
        self.gas_limit
    }

    fn value(&self) -> (r: U256)
        ensures
            r == self.value,
    {
        self.value
    }

    fn input(&self) -> (r: &Vec<u8>)
        ensures
            r == &self.input,
    {
        &self.input
    }

    /// A deposit transaction carries no nonce; it reports zero.
    fn nonce(&self) -> (r: u64)
        ensures
            r == 0,
    {
        0
    }
}

impl DepositTransaction for TxDeposit {
    fn source_hash(&self) -> (r: U256)
        ensures
            r == self.source_hash,
    {
        self.source_hash
    }

    fn to(&self) -> (r: TxKind)
        ensures
            r == self.to,
    {
        self.to
    }

    fn mint(&self) -> (r: Option<u128>)
        ensures
            r == self.mint,
    {
        self.mint
    }

    fn is_system_transaction(&self) -> (r: bool)
        ensures
            r == self.is_system_transaction,
    {
        self.is_system_transaction
    }
}

/// A base transaction type, or the rollup's deposit type.
#[derive(Clone, Copy, PartialEq, Eq, Structural, Debug)]
pub enum OpTransactionType {
    /// A transaction type supported by the base protocol.
    Base(TransactionType),
    /// A rollup deposit transaction.
    Deposit,
}

impl OpTransactionType {
    /// Fold into the base taxonomy: a deposit counts as a custom type.
    pub fn into_tx_type(self) -> (r: TransactionType)
        ensures
            self matches OpTransactionType::Base(t) ==> r == t,
            self matches OpTransactionType::Deposit ==> r == TransactionType::Custom,
    {
        match self {
            OpTransactionType::Base(tx_type) => tx_type,
            OpTransactionType::Deposit => TransactionType::Custom,
        }
    }
}

/// A base transaction extended with the rollup's deposit variant. A base
/// transaction may carry its enveloped wire form, which the rollup uses to
/// compute the settlement-layer cost.
pub enum OpTransaction<T: Transaction> {
    Base {
        tx: T,
        /// The enveloped wire form of the transaction, when known.
        enveloped_tx: Option<Vec<u8>>,
    },
    Deposit(TxDeposit),
}

/// The rollup's transaction surface: the deposit accessor and the enveloped
/// wire form.
pub trait OpTxTrait {
    type DepositTx: DepositTransaction;

    /// Whether this is a deposit transaction.
    spec fn is_deposit(&self) -> bool;

    /// The deposit transaction; only deposits have one.
    fn deposit(&self) -> &Self::DepositTx
        requires
            self.is_deposit(),
    ;

    /// The enveloped wire form, when this is a base transaction that knows
    /// it.
    fn enveloped_tx(&self) -> Option<&Vec<u8>>;
}

impl<T: Transaction> OpTransaction<T> {
    /// Which type this transaction has.
    pub fn tx_type(&self) -> (r: OpTransactionType)
        ensures
            (*self matches OpTransaction::Deposit(_)) == (r matches OpTransactionType::Deposit),
            (*self matches OpTransaction::Base { .. }) == (r matches OpTransactionType::Base(_)),
    {
        match self {
            OpTransaction::Base { tx, .. } => OpTransactionType::Base(tx.tx_type()),
            OpTransaction::Deposit(_) => OpTransactionType::Deposit,
        }
    }

    /// The base transaction; only base transactions have one.
    pub fn base(&self) -> (r: &T)
        requires
            old_self_is_base(self),
        ensures
            self matches OpTransaction::Base { tx, .. } ==> r == tx,
    {
        match self {
            OpTransaction::Base { tx, .. } => tx,
            OpTransaction::Deposit(_) => {
                proof {
                    assert(false);
                }
                loop
                    invariant
                        false,
                    decreases 0int,
                {
                }
            },
        }
    }
}

/// Whether an extended transaction is a base transaction.
pub open spec fn old_self_is_base<T: Transaction>(t: &OpTransaction<T>) -> bool {
    *t matches OpTransaction::Base { .. }
}

impl<T: Transaction> OpTxTrait for OpTransaction<T> {
    type DepositTx = TxDeposit;

    open spec fn is_deposit(&self) -> bool {
        *self matches OpTransaction::Deposit(_)
    }

    fn deposit(&self) -> (r: &TxDeposit)
        ensures
            self matches OpTransaction::Deposit(d) ==> r == d,
    {
        match self {
            OpTransaction::Base { .. } => {
                proof {
                    assert(false);
                }
                loop
                    invariant
                        false,
                    decreases 0int,
                {
                }
            },
            OpTransaction::Deposit(deposit) => deposit,
        }
    }

    fn enveloped_tx(&self) -> (r: Option<&Vec<u8>>)
        ensures
            self matches OpTransaction::Deposit(_) ==> r is None,
            self matches OpTransaction::Base { enveloped_tx: Some(b), .. } ==> (r matches Some(v)
                && v@ == b@),
            self matches OpTransaction::Base { enveloped_tx: None, .. } ==> r is None,
    {
        match self {
            OpTransaction::Base { enveloped_tx, .. } => match enveloped_tx {
                Some(b) => Some(b),
                None => None,
            },
            OpTransaction::Deposit(_) => None,
        }
    }
}

} // verus!
