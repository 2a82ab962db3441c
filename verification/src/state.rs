//! The data model of the world state: accounts, storage slots, logs, the
//! read-only backing database, and the mathematical view of an overlay state.

use vstd::prelude::*;

use crate::assoc::{spec_lookup, spec_unique_keys};
use crate::word::{Address, U256};

verus! {

/// The persistent fields of an account, as the database holds them.
#[derive(Debug)]
pub struct AccountInfo {
    pub nonce: u64,
    pub balance: U256,
    pub code: Vec<u8>,
}

/// An account in the overlay cache: the database fields plus the per-
/// transaction flags.
#[derive(Debug)]
pub struct CachedAccount {
    pub info: AccountInfo,
    /// Created within the current transaction.
    pub created: bool,
    /// Selfdestructed within the current transaction.
    pub destroyed: bool,
    /// Touched within the current transaction.
    pub touched: bool,
}

/// A cached storage slot: the value committed at transaction start and the
/// present value.
#[derive(Clone, Copy, PartialEq, Eq, Structural, Debug)]
pub struct StorageSlot {
    pub original: U256,
    pub present: U256,
}

/// One emitted log: address, up to four topics, and payload bytes.
#[derive(Debug)]
pub struct Log {
    pub address: Address,
    pub topics: Vec<U256>,
    pub data: Vec<u8>,
}

/// The mathematical content of a log.
pub struct LogView {
    pub address: Address,
    pub topics: Seq<U256>,
    pub data: Seq<u8>,
}

impl View for Log {
    type V = LogView;

    open spec fn view(&self) -> LogView {
        LogView { address: self.address, topics: self.topics@, data: self.data@ }
    }
}

/// The mathematical content of an account as the overlay shows it.
pub struct AccountView {
    pub nonce: u64,
    pub balance: nat,
    pub code: Seq<u8>,
    pub created: bool,
    pub destroyed: bool,
    pub touched: bool,
}

impl AccountView {
    /// An account is empty iff its nonce is 0, its balance is 0, and it has
    /// no code.
    pub open spec fn is_empty(self) -> bool {
        self.nonce == 0 && self.balance == 0 && self.code.len() == 0
    }
}

impl View for CachedAccount {
    type V = AccountView;

    open spec fn view(&self) -> AccountView {
        AccountView {
            nonce: self.info.nonce,
            balance: self.info.balance.as_nat(),
            code: self.info.code@,
            created: self.created,
            destroyed: self.destroyed,
            touched: self.touched,
        }
    }
}

/// The view a database account presents before the transaction touches it:
/// its stored fields with all per-transaction flags clear.
pub open spec fn spec_db_account_view(info: Option<AccountInfo>) -> AccountView {
    match info {
        Some(i) => AccountView {
            nonce: i.nonce,
            balance: i.balance.as_nat(),
            code: i.code@,
            created: false,
            destroyed: false,
            touched: false,
        },
        None => AccountView {
            nonce: 0,
            balance: 0,
            code: Seq::empty(),
            created: false,
            destroyed: false,
            touched: false,
        },
    }
}

/// The read-only backing database: accounts and storage committed before the
/// transaction.
#[derive(Debug)]
pub struct InMemoryDb {
    pub accounts: Vec<(Address, AccountInfo)>,
    pub storage: Vec<((Address, U256), U256)>,
}

impl InMemoryDb {
    pub open spec fn wf(&self) -> bool {
        spec_unique_keys(self.accounts@) && spec_unique_keys(self.storage@)
    }

    /// The account the database holds at `a`, empty when absent.
    pub open spec fn spec_account(&self, a: Address) -> AccountView {
        spec_db_account_view(spec_lookup(self.accounts@, a))
    }

    /// The storage value the database holds at `(a, k)`, zero when absent.
    pub open spec fn spec_storage(&self, a: Address, k: U256) -> nat {
        match spec_lookup(self.storage@, (a, k)) {
            Some(v) => v.as_nat(),
            None => 0,
        }
    }

    pub fn new() -> (r: InMemoryDb)
        ensures
            r.wf(),
            forall|a: Address| #[trigger] r.spec_account(a).is_empty(),
            forall|a: Address, k: U256| #[trigger] r.spec_storage(a, k) == 0,
    {
        InMemoryDb { accounts: Vec::new(), storage: Vec::new() }
    }

    /// Install an account, for seeding a database; replaces an existing one.
    pub fn insert_account(&mut self, a: Address, info: AccountInfo)
        requires
            old(self).wf(),
        ensures
            final(self).wf(),
            final(self).spec_account(a) == spec_db_account_view(Some(info)),
            forall|b: Address|
                b != a ==> #[trigger] final(self).spec_account(b) == old(self).spec_account(b),
            final(self).storage == old(self).storage,
    {
        let idx = find_account_index(&self.accounts, &a);
        match idx {
            Some(i) => {
                proof {
                    assert forall|b: Address| spec_lookup(
                        self.accounts@.update(i as int, (a, info)),
                        b,
                    ) == (if b == a {
                        Some(info)
                    } else {
                        spec_lookup(self.accounts@, b)
                    }) by {
                        crate::assoc::lemma_lookup_update(self.accounts@, i as int, info, b);
                    }
                    crate::assoc::lemma_lookup_update(self.accounts@, i as int, info, a);
                }
                self.accounts.set(i, (a, info));
            },
            None => {
                proof {
                    crate::assoc::lemma_lookup_absent(self.accounts@, a);
                    crate::assoc::lemma_lookup_push(self.accounts@, a, info, a);
                    assert(forall|b: Address|
                        b != a ==> spec_lookup(self.accounts@.push((a, info)), b) == spec_lookup(
                            self.accounts@,
                            b,
                        )) by {
                        assert forall|b: Address| b != a implies spec_lookup(
                            self.accounts@.push((a, info)),
                            b,
                        ) == spec_lookup(self.accounts@, b) by {
                            crate::assoc::lemma_lookup_push(self.accounts@, a, info, b);
                        }
                    }
                }
                self.accounts.push((a, info));
            },
        }
    }

    /// Install a storage value, for seeding a database.
    pub fn insert_storage(&mut self, a: Address, k: U256, v: U256)
        requires
            old(self).wf(),
        ensures
            final(self).wf(),
            final(self).spec_storage(a, k) == v.as_nat(),
            forall|b: Address, k2: U256|
                !(b == a && k2 == k) ==> #[trigger] final(self).spec_storage(b, k2) == old(
                    self,
                ).spec_storage(b, k2),
            final(self).accounts == old(self).accounts,
    {
        let idx = find_slot_index(&self.storage, &a, &k);
        match idx {
            Some(i) => {
                proof {
                    assert forall|b: Address, k2: U256| spec_lookup(
                        self.storage@.update(i as int, ((a, k), v)),
                        (b, k2),
                    ) == (if b == a && k2 == k {
                        Some(v)
                    } else {
                        spec_lookup(self.storage@, (b, k2))
                    }) by {
                        crate::assoc::lemma_lookup_update(self.storage@, i as int, v, (b, k2));
                    }
                    crate::assoc::lemma_lookup_update(self.storage@, i as int, v, (a, k));
                }
                self.storage.set(i, ((a, k), v));
            },
            None => {
                proof {
                    crate::assoc::lemma_lookup_absent(self.storage@, (a, k));
                    assert forall|b: Address, k2: U256| !(b == a && k2 == k) implies spec_lookup(
                        self.storage@.push(((a, k), v)),
                        (b, k2),
                    ) == spec_lookup(self.storage@, (b, k2)) by {
                        crate::assoc::lemma_lookup_push(self.storage@, (a, k), v, (b, k2));
                    }
                    crate::assoc::lemma_lookup_push(self.storage@, (a, k), v, (a, k));
                }
                self.storage.push(((a, k), v));
            },
        }
    }
}

/// Find the index of the pair keyed by `a`.
pub fn find_account_index<V>(v: &Vec<(Address, V)>, a: &Address) -> (r: Option<usize>)
    ensures
        match r {
            Some(i) => i < v@.len() && v@[i as int].0 == *a,
            None => forall|i: int| 0 <= i < v@.len() ==> (#[trigger] v@[i]).0 != *a,
        },
{
    let mut i: usize = 0;
    while i < v.len()
        invariant
            i <= v@.len(),
            forall|j: int| 0 <= j < i ==> (#[trigger] v@[j]).0 != *a,
        decreases v@.len() - i,
    {
        if v[i].0 == *a {
            return Some(i);
        }
        i = i + 1;
    }
    None
}

/// Find the index of the pair keyed by `(a, k)`.
pub fn find_slot_index<V>(v: &Vec<((Address, U256), V)>, a: &Address, k: &U256) -> (r: Option<
    usize,
>)
    ensures
        match r {
            Some(i) => i < v@.len() && v@[i as int].0 == (*a, *k),
            None => forall|i: int| 0 <= i < v@.len() ==> (#[trigger] v@[i]).0 != (*a, *k),
        },
{
    let mut i: usize = 0;
    while i < v.len()
        invariant
            i <= v@.len(),
            forall|j: int| 0 <= j < i ==> (#[trigger] v@[j]).0 != (*a, *k),
        decreases v@.len() - i,
    {
        if v[i].0.0 == *a && v[i].0.1 == *k {
            return Some(i);
        }
        i = i + 1;
    }
    None
}

/// Copy a byte vector.
pub fn clone_bytes(v: &Vec<u8>) -> (r: Vec<u8>)
    ensures
        r@ == v@,
{
    let mut r: Vec<u8> = Vec::new();
    let mut i: usize = 0;
    while i < v.len()
        invariant
            i <= v@.len(),
            r@ == v@.subrange(0, i as int),
        decreases v@.len() - i,
    {
        r.push(v[i]);
        i = i + 1;
        proof {
            assert(r@ =~= v@.subrange(0, i as int));
        }
    }
    proof {
        assert(r@ =~= v@);
    }
    r
}

/// Copy an account record.
pub fn clone_account_info(info: &AccountInfo) -> (r: AccountInfo)
    ensures
        r.nonce == info.nonce,
        r.balance == info.balance,
        r.code@ == info.code@,
{
    AccountInfo { nonce: info.nonce, balance: info.balance, code: clone_bytes(&info.code) }
}

/// The observable content of an overlay state: everything a checkpoint
/// revert restores.
#[verifier::ext_equal]
pub struct StateView {
    /// Every address's visible account (overlay over the database).
    pub accounts: Map<Address, AccountView>,
    /// Every storage slot's visible present value.
    pub storage: Map<(Address, U256), nat>,
    /// Every transient slot's value; zero unless written this transaction.
    pub transient: Map<(Address, U256), nat>,
    /// Addresses already accessed in this transaction.
    pub warm_accounts: Set<Address>,
    /// Storage slots already accessed in this transaction.
    pub warm_slots: Set<(Address, U256)>,
    /// Logs emitted so far.
    pub logs: Seq<LogView>,
}

} // verus!
