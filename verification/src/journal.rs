//! The journaled state: a copy-on-first-touch overlay above the backing
//! database, with a reversible log of every observable mutation.
//!
//! Every write appends one journal entry holding the pre-image needed to
//! undo it. A checkpoint records the journal length; `revert_to` undoes the
//! entries above it in reverse order and restores the observable state
//! exactly (its postcondition says so over [`StateView`]), while `commit`
//! keeps the entries so an ancestor checkpoint can still revert them.
//!
//! The proof keeps a ghost history of state views, one per journal prefix:
//! `hist[i]` is the observable state before entry `i` was applied, and
//! undoing entry `i` from `hist[i + 1]` yields `hist[i]`.

use vstd::prelude::*;

use crate::assoc::{
    lemma_absent_lookup, lemma_lookup_absent, lemma_lookup_index, lemma_lookup_push,
    lemma_lookup_update, spec_lookup, spec_unique_keys,
};
use crate::state::{
    clone_bytes, find_account_index, find_slot_index, AccountInfo, AccountView, CachedAccount,
    InMemoryDb, Log, LogView, StateView, StorageSlot,
};
use crate::word::{spec_add_mod256, spec_sub_mod256, Address, U256};

verus! {

/// One reversible mutation, holding the pre-image needed to undo it.
#[derive(Debug)]
pub enum JournalEntry {
    /// An address turned warm.
    AccountWarmed { address: Address },
    /// A storage slot turned warm.
    StorageWarmed { address: Address, key: U256 },
    /// An account was first touched.
    AccountTouched { address: Address },
    /// `balance` moved from `from` to `to`.
    BalanceTransfer { from: Address, to: Address, balance: U256 },
    /// The nonce of `address` was incremented by one.
    NonceChange { address: Address },
    /// The slot's present value changed; `had_value` is the value before.
    StorageChange { address: Address, key: U256, had_value: U256 },
    /// The transient slot changed; `had_value` is the value before.
    TransientStorageChange { address: Address, key: U256, had_value: U256 },
    /// The account's code changed; `had_code` is the code before.
    CodeChange { address: Address, had_code: Vec<u8> },
    /// The account was created; `was_created` is the flag before.
    AccountCreated { address: Address, was_created: bool },
    /// The account selfdestructed: its balance (`had_balance`) moved to
    /// `target` and its destroyed flag (previously `was_destroyed`) was set.
    AccountDestroyed { address: Address, target: Address, had_balance: U256, was_destroyed: bool },
    /// One log was appended.
    LogEmitted,
}

/// A checkpoint: enough to revert to, or commit, everything journaled after
/// its creation.
#[derive(Clone, Copy, PartialEq, Eq, Structural, Debug)]
pub struct JournalCheckpoint {
    /// Journal length at creation.
    pub journal_i: usize,
    /// Log count at creation.
    pub logs_i: usize,
    /// Refund counter at creation.
    pub refund: i64,
    /// Position in the checkpoint stack (1-based).
    pub depth: usize,
}

/// The state view left after undoing `e` on `v`. Balance arithmetic is
/// modulo 2^256, the exact inverse of the (checked) forward operation.
pub open spec fn spec_undo(v: StateView, e: JournalEntry) -> StateView {
    match e {
        JournalEntry::AccountWarmed { address } => StateView {
            warm_accounts: v.warm_accounts.remove(address),
            ..v
        },
        JournalEntry::StorageWarmed { address, key } => StateView {
            warm_slots: v.warm_slots.remove((address, key)),
            ..v
        },
        JournalEntry::AccountTouched { address } => StateView {
            accounts: v.accounts.insert(
                address,
                AccountView { touched: false, ..v.accounts[address] },
            ),
            ..v
        },
        JournalEntry::BalanceTransfer { from, to, balance } => {
            let after_to = v.accounts.insert(
                to,
                AccountView {
                    balance: spec_sub_mod256(v.accounts[to].balance, balance.as_nat()),
                    ..v.accounts[to]
                },
            );
            StateView {
                accounts: after_to.insert(
                    from,
                    AccountView {
                        balance: spec_add_mod256(after_to[from].balance, balance.as_nat()),
                        ..after_to[from]
                    },
                ),
                ..v
            }
        },
        JournalEntry::NonceChange { address } => StateView {
            accounts: v.accounts.insert(
                address,
                AccountView {
                    nonce: if v.accounts[address].nonce > 0 {
                        (v.accounts[address].nonce - 1) as u64
                    } else {
                        0
                    },
                    ..v.accounts[address]
                },
            ),
            ..v
        },
        JournalEntry::StorageChange { address, key, had_value } => StateView {
            storage: v.storage.insert((address, key), had_value.as_nat()),
            ..v
        },
        JournalEntry::TransientStorageChange { address, key, had_value } => StateView {
            transient: v.transient.insert((address, key), had_value.as_nat()),
            ..v
        },
        JournalEntry::CodeChange { address, had_code } => StateView {
            accounts: v.accounts.insert(
                address,
                AccountView { code: had_code@, ..v.accounts[address] },
            ),
            ..v
        },
        JournalEntry::AccountCreated { address, was_created } => StateView {
            accounts: v.accounts.insert(
                address,
                AccountView { created: was_created, ..v.accounts[address] },
            ),
            ..v
        },
        JournalEntry::AccountDestroyed { address, target, had_balance, was_destroyed } => {
            let after_target = if address != target {
                v.accounts.insert(
                    target,
                    AccountView {
                        balance: spec_sub_mod256(v.accounts[target].balance, had_balance.as_nat()),
                        ..v.accounts[target]
                    },
                )
            } else {
                v.accounts
            };
            StateView {
                accounts: after_target.insert(
                    address,
                    AccountView {
                        balance: had_balance.as_nat(),
                        destroyed: was_destroyed,
                        ..after_target[address]
                    },
                ),
                ..v
            }
        },
        JournalEntry::LogEmitted => StateView {
            logs: if v.logs.len() > 0 {
                v.logs.drop_last()
            } else {
                v.logs
            },
            ..v
        },
    }
}

/// The journaled state overlay.
pub struct JournaledState {
    /// The read-only backing database.
    pub db: InMemoryDb,
    /// Accounts loaded or written this transaction.
    pub accounts: Vec<(Address, CachedAccount)>,
    /// Storage slots loaded or written this transaction.
    pub storage: Vec<((Address, U256), StorageSlot)>,
    /// Transient storage written this transaction.
    pub transient: Vec<((Address, U256), U256)>,
    /// Warm addresses.
    pub warm_accounts: Vec<Address>,
    /// Warm storage slots.
    pub warm_slots: Vec<(Address, U256)>,
    /// Logs emitted so far.
    pub logs: Vec<Log>,
    /// The reversible log of mutations.
    pub journal: Vec<JournalEntry>,
    /// Journal lengths of the open checkpoints, innermost last.
    pub marks: Vec<usize>,
    /// The transaction's refund counter.
    pub refund: i64,
    /// One state view per journal prefix; `hist[i]` is the state before
    /// entry `i` was applied.
    pub hist: Ghost<Seq<StateView>>,
}

impl JournaledState {
    /// The visible account at `a`: the cache, else the database.
    pub open spec fn spec_account(self, a: Address) -> AccountView {
        match spec_lookup(self.accounts@, a) {
            Some(c) => c@,
            None => self.db.spec_account(a),
        }
    }

    /// The visible present value of storage slot `(a, k)`.
    pub open spec fn spec_storage(self, a: Address, k: U256) -> nat {
        match spec_lookup(self.storage@, (a, k)) {
            Some(s) => s.present.as_nat(),
            None => self.db.spec_storage(a, k),
        }
    }

    /// The value of slot `(a, k)` as committed at transaction start.
    pub open spec fn spec_original_storage(self, a: Address, k: U256) -> nat {
        match spec_lookup(self.storage@, (a, k)) {
            Some(s) => s.original.as_nat(),
            None => self.db.spec_storage(a, k),
        }
    }

    /// The visible transient value of slot `(a, k)`; zero unless written.
    pub open spec fn spec_transient(self, a: Address, k: U256) -> nat {
        match spec_lookup(self.transient@, (a, k)) {
            Some(v) => v.as_nat(),
            None => 0,
        }
    }

    /// The whole observable state.
    #[verifier::opaque]
    pub open spec fn view_state(self) -> StateView {
        StateView {
            accounts: Map::new(|a: Address| true, |a: Address| self.spec_account(a)),
            storage: Map::new(
                |p: (Address, U256)| true,
                |p: (Address, U256)| self.spec_storage(p.0, p.1),
            ),
            transient: Map::new(
                |p: (Address, U256)| true,
                |p: (Address, U256)| self.spec_transient(p.0, p.1),
            ),
            warm_accounts: Set::new(|a: Address| self.warm_accounts@.contains(a)),
            warm_slots: Set::new(|p: (Address, U256)| self.warm_slots@.contains(p)),
            logs: Seq::new(self.logs@.len(), |i: int| self.logs@[i]@),
        }
    }

    /// The caches have unique keys and the warm lists no duplicates.
    pub open spec fn caches_wf(self) -> bool {
        &&& self.db.wf()
        &&& spec_unique_keys(self.accounts@)
        &&& spec_unique_keys(self.storage@)
        &&& spec_unique_keys(self.transient@)
        &&& crate::assoc::spec_nodup(self.warm_accounts@)
        &&& crate::assoc::spec_nodup(self.warm_slots@)
    }

    /// What an entry needs so its undo can act on the caches.
    pub open spec fn spec_entry_resident(self, e: JournalEntry) -> bool {
        match e {
            JournalEntry::AccountWarmed { .. } => true,
            JournalEntry::StorageWarmed { .. } => true,
            JournalEntry::AccountTouched { address } => spec_lookup(
                self.accounts@,
                address,
            ) is Some,
            JournalEntry::BalanceTransfer { from, to, .. } => spec_lookup(self.accounts@, from)
                is Some && spec_lookup(self.accounts@, to) is Some,
            JournalEntry::NonceChange { address } => spec_lookup(self.accounts@, address) is Some,
            JournalEntry::StorageChange { address, key, .. } => spec_lookup(
                self.storage@,
                (address, key),
            ) is Some,
            JournalEntry::TransientStorageChange { address, key, .. } => spec_lookup(
                self.transient@,
                (address, key),
            ) is Some,
            JournalEntry::CodeChange { address, .. } => spec_lookup(
                self.accounts@,
                address,
            ) is Some,
            JournalEntry::AccountCreated { address, .. } => spec_lookup(
                self.accounts@,
                address,
            ) is Some,
            JournalEntry::AccountDestroyed { address, target, .. } => spec_lookup(
                self.accounts@,
                address,
            ) is Some && spec_lookup(self.accounts@, target) is Some,
            JournalEntry::LogEmitted => true,
        }
    }

    /// Every journaled entry can still be undone against the caches.
    pub open spec fn journal_wf(self) -> bool {
        forall|i: int|
            0 <= i < self.journal@.len() ==> self.spec_entry_resident(#[trigger] self.journal@[i])
    }

    /// The ghost history matches the journal: one view per prefix, the last
    /// one is the current state, and each entry's undo steps back one view.
    pub open spec fn hist_wf(self) -> bool {
        &&& self.hist@.len() == self.journal@.len() + 1
        &&& self.hist@.last() == self.view_state()
        &&& forall|i: int|
            0 <= i < self.journal@.len() ==> spec_undo(self.hist@[i + 1], #[trigger] self.journal@[i])
                == self.hist@[i]
    }

    /// Checkpoint marks are within the journal and ascending.
    pub open spec fn marks_wf(self) -> bool {
        &&& forall|i: int|
            0 <= i < self.marks@.len() ==> #[trigger] self.marks@[i] <= self.journal@.len()
        &&& forall|i: int, j: int|
            0 <= i <= j < self.marks@.len() ==> #[trigger] self.marks@[i]
                <= #[trigger] self.marks@[j]
    }

    #[verifier::opaque]
    pub open spec fn wf(self) -> bool {
        self.caches_wf() && self.journal_wf() && self.hist_wf() && self.marks_wf()
    }

    /// The state recorded for checkpoint `cp`.
    pub open spec fn snapshot(self, cp: JournalCheckpoint) -> StateView {
        self.hist@[cp.journal_i as int]
    }

    /// Whether `cp` is an open checkpoint of this journal.
    pub open spec fn valid_checkpoint(self, cp: JournalCheckpoint) -> bool {
        1 <= cp.depth <= self.marks@.len() && self.marks@[cp.depth - 1] == cp.journal_i
    }

    /// Current checkpoint depth: the number of open sub-journals.
    pub fn depth(&self) -> (r: usize)
        ensures
            r == self.marks@.len(),
    {
        self.marks.len()
    }

    /// A fresh overlay over `db`: nothing cached, nothing journaled.
    pub fn new(db: InMemoryDb) -> (r: JournaledState)
        requires
            db.wf(),
        ensures
            r.wf(),
            r.db == db,
            r.journal@.len() == 0,
            r.marks@.len() == 0,
            r.refund == 0,
            r.logs@.len() == 0,
            r.view_state().warm_accounts == Set::<Address>::empty(),
            r.view_state().warm_slots == Set::<(Address, U256)>::empty(),
            r.view_state().logs == Seq::<LogView>::empty(),
            forall|a: Address| #[trigger] r.view_state().accounts[a] == db.spec_account(a),
            forall|p: (Address, U256)|
                #[trigger] r.view_state().storage[p] == db.spec_storage(p.0, p.1),
            forall|p: (Address, U256)| #[trigger] r.view_state().transient[p] == 0,
    {
        let mut r = JournaledState {
            db,
            accounts: Vec::new(),
            storage: Vec::new(),
            transient: Vec::new(),
            warm_accounts: Vec::new(),
            warm_slots: Vec::new(),
            logs: Vec::new(),
            journal: Vec::new(),
            marks: Vec::new(),
            refund: 0,
            hist: Ghost(Seq::empty()),
        };
        proof {
            reveal(JournaledState::wf);
            reveal(JournaledState::view_state);
            r.hist@ = seq![r.view_state()];
        }
        proof {
            reveal(JournaledState::wf);
            reveal(JournaledState::view_state);
            assert(r.view_state().warm_accounts =~= Set::<Address>::empty());
            assert(r.view_state().warm_slots =~= Set::<(Address, U256)>::empty());
            assert(r.view_state().logs =~= Seq::<LogView>::empty());
            assert(r.caches_wf());
            assert(r.journal_wf());
            assert(r.marks_wf());
            assert(r.hist@.len() == 1);
            assert(r.hist@.last() == r.view_state());
            assert(r.hist_wf());
        }
        r
    }

    /// What every journaled operation leaves untouched: the database, the
    /// checkpoint marks, the refund counter, and every existing journal
    /// entry and history snapshot.
    pub open spec fn op_framing(pre: JournaledState, post: JournaledState) -> bool {
        &&& JournaledState::snap_framing(pre, post)
        &&& post.marks@ == pre.marks@
        &&& post.refund == pre.refund
    }

    /// The part of the framing that protects snapshots: the database is
    /// fixed and the journal and history only grow.
    pub open spec fn snap_framing(pre: JournaledState, post: JournaledState) -> bool {
        &&& post.db == pre.db
        &&& post.journal@.len() >= pre.journal@.len()
        &&& forall|i: int|
            0 <= i < pre.journal@.len() ==> #[trigger] post.journal@[i] == pre.journal@[i]
        &&& post.hist@.len() >= pre.hist@.len()
        &&& forall|i: int| 0 <= i < pre.hist@.len() ==> #[trigger] post.hist@[i] == pre.hist@[i]
    }

    /// Bring the account at `a` into the cache (from the database on first
    /// touch). Pure caching: the observable state does not change.
    fn ensure_account_cached(&mut self, a: Address) -> (i: usize)
        requires
            old(self).wf(),
        ensures
            final(self).wf(),
            JournaledState::op_framing(*old(self), *final(self)),
            final(self).view_state() == old(self).view_state(),
            i < final(self).accounts@.len(),
            final(self).accounts@[i as int].0 == a,
            final(self).accounts@.len() >= old(self).accounts@.len(),
            final(self).accounts@.subrange(0, old(self).accounts@.len() as int) == old(
                self,
            ).accounts@,
            spec_lookup(final(self).accounts@, a) == Some(final(self).accounts@[i as int].1),
            final(self).accounts@[i as int].1@ == final(self).spec_account(a),
            forall|b: Address|
                b != a ==> #[trigger] spec_lookup(final(self).accounts@, b) == spec_lookup(
                    old(self).accounts@,
                    b,
                ),
            forall|b: Address|
                spec_lookup(old(self).accounts@, b) is Some ==> spec_lookup(
                    final(self).accounts@,
                    b,
                ) == spec_lookup(old(self).accounts@, b),
            final(self).storage == old(self).storage,
            final(self).transient == old(self).transient,
            final(self).warm_accounts == old(self).warm_accounts,
            final(self).warm_slots == old(self).warm_slots,
            final(self).logs == old(self).logs,
            final(self).journal@ == old(self).journal@,
            final(self).hist == old(self).hist,
    {
        let idx = find_account_index(&self.accounts, &a);
        match idx {
            Some(i) => {
                proof {
            reveal(JournaledState::wf);
            reveal(JournaledState::view_state);
                    lemma_lookup_index(self.accounts@, i as int);
                    lemma_framing_refl(*self);
                    assert(self.accounts@.subrange(0, self.accounts@.len() as int)
                        =~= self.accounts@);
                }
                i
            },
            None => {
                proof {
            reveal(JournaledState::wf);
            reveal(JournaledState::view_state);
                    lemma_lookup_absent(self.accounts@, a);
                }
                let info = load_db_account(&self.db, &a);
                let acc = CachedAccount { info, created: false, destroyed: false, touched: false };
                let ghost pre = *self;
                proof {
            reveal(JournaledState::wf);
            reveal(JournaledState::view_state);
                    assert forall|b: Address| #[trigger] spec_lookup(
                        self.accounts@.push((a, acc)),
                        b,
                    ) == (if b == a {
                        Some(acc)
                    } else {
                        spec_lookup(self.accounts@, b)
                    }) by {
                        lemma_lookup_push(self.accounts@, a, acc, b);
                    }
                    lemma_lookup_push(self.accounts@, a, acc, a);
                }
                let i = self.accounts.len();
                self.accounts.push((a, acc));
                proof {
            reveal(JournaledState::wf);
            reveal(JournaledState::view_state);
                    assert(acc@ == pre.spec_account(a));
                    assert forall|b: Address| #[trigger] self.spec_account(b) == pre.spec_account(
                        b,
                    ) by {}
                    assert(self.view_state() =~~= pre.view_state());
                    lemma_residency_preserved(pre, *self);
                    lemma_framing_refl(*self);
                    assert(self.accounts@.subrange(0, pre.accounts@.len() as int)
                        =~= pre.accounts@);
                }
                i
            },
        }
    }
}

/// What `load_account` reports: coldness, emptiness, and the basic fields.
#[derive(Clone, Copy, Debug)]
pub struct AccountLoad {
    pub is_cold: bool,
    pub is_empty: bool,
    pub nonce: u64,
    pub balance: U256,
}

impl JournaledState {
    /// Load an account through the overlay: caches it on first touch and
    /// marks it warm (journaled when it was cold).
    pub fn load_account(&mut self, a: Address) -> (r: AccountLoad)
        requires
            old(self).wf(),
        ensures
            final(self).wf(),
            JournaledState::op_framing(*old(self), *final(self)),
            r.is_cold == !old(self).view_state().warm_accounts.contains(a),
            r.nonce == old(self).view_state().accounts[a].nonce,
            r.balance.as_nat() == old(self).view_state().accounts[a].balance,
            r.is_empty == old(self).view_state().accounts[a].is_empty(),
            final(self).view_state() == (StateView {
                warm_accounts: old(self).view_state().warm_accounts.insert(a),
                ..old(self).view_state()
            }),
    {
        let ghost pre = *self;
        let i = self.ensure_account_cached(a);
        let ghost mid = *self;
        let nonce = self.accounts[i].1.info.nonce;
        let balance = self.accounts[i].1.info.balance;
        let code_is_empty = self.accounts[i].1.info.code.len() == 0;
        let is_empty = nonce == 0 && balance.is_zero() && code_is_empty;
        let is_cold = !contains_address(&self.warm_accounts, &a);
        if is_cold {
            self.warm_accounts.push(a);
            proof {
            reveal(JournaledState::wf);
            reveal(JournaledState::view_state);
                crate::assoc::lemma_push_nodup(mid.warm_accounts@, a);
                assert forall|b: Address| #[trigger] self.warm_accounts@.contains(b) == (
                mid.warm_accounts@.contains(b) || b == a) by {
                    crate::assoc::lemma_push_contains(mid.warm_accounts@, a, b);
                }
            }
            let entry = JournalEntry::AccountWarmed { address: a };
            self.journal.push(entry);
            proof {
            reveal(JournaledState::wf);
            reveal(JournaledState::view_state);
                let ghost v = self.view_state();
                self.hist@ = self.hist@.push(v);
                assert(self.view_state() =~~= v);
                assert(self.view_state() =~~= (StateView {
                    warm_accounts: mid.view_state().warm_accounts.insert(a),
                    ..mid.view_state()
                }));
                assert(spec_undo(self.view_state(), entry) =~~= mid.view_state());
                lemma_op_step(mid, *self, entry);
                lemma_framing_trans(pre, mid, *self);
            }
        } else {
            proof {
            reveal(JournaledState::wf);
            reveal(JournaledState::view_state);
                assert(pre.view_state().warm_accounts.contains(a));
                assert(self.view_state() =~~= (StateView {
                    warm_accounts: pre.view_state().warm_accounts.insert(a),
                    ..pre.view_state()
                }));
            }
        }
        AccountLoad { is_cold, is_empty, nonce, balance }
    }

    /// Bring storage slot `(a, k)` into the cache (from the database on
    /// first touch). Pure caching: the observable state does not change.
    fn ensure_slot_cached(&mut self, a: Address, k: U256) -> (i: usize)
        requires
            old(self).wf(),
        ensures
            final(self).wf(),
            JournaledState::op_framing(*old(self), *final(self)),
            final(self).view_state() == old(self).view_state(),
            i < final(self).storage@.len(),
            final(self).storage@[i as int].0 == (a, k),
            spec_lookup(final(self).storage@, (a, k)) == Some(final(self).storage@[i as int].1),
            final(self).storage@[i as int].1.present.as_nat() == final(self).spec_storage(a, k),
            final(self).storage@[i as int].1.original.as_nat() == final(self).spec_original_storage(
                a,
                k,
            ),
            forall|p: (Address, U256)|
                p != (a, k) ==> #[trigger] spec_lookup(final(self).storage@, p) == spec_lookup(
                    old(self).storage@,
                    p,
                ),
            forall|p: (Address, U256)|
                spec_lookup(old(self).storage@, p) is Some ==> spec_lookup(
                    final(self).storage@,
                    p,
                ) == spec_lookup(old(self).storage@, p),
            forall|a2: Address, k2: U256|
                #[trigger] final(self).spec_original_storage(a2, k2) == old(
                    self,
                ).spec_original_storage(a2, k2),
            final(self).accounts == old(self).accounts,
            final(self).transient == old(self).transient,
            final(self).warm_accounts == old(self).warm_accounts,
            final(self).warm_slots == old(self).warm_slots,
            final(self).logs == old(self).logs,
            final(self).journal@ == old(self).journal@,
            final(self).hist == old(self).hist,
    {
        let idx = find_slot_index(&self.storage, &a, &k);
        match idx {
            Some(i) => {
                proof {
            reveal(JournaledState::wf);
            reveal(JournaledState::view_state);
                    lemma_lookup_index(self.storage@, i as int);
                    lemma_framing_refl(*self);
                }
                i
            },
            None => {
                proof {
            reveal(JournaledState::wf);
            reveal(JournaledState::view_state);
                    lemma_lookup_absent(self.storage@, (a, k));
                }
                let dbv = load_db_storage(&self.db, &a, &k);
                let slot = StorageSlot { original: dbv, present: dbv };
                let ghost pre = *self;
                proof {
            reveal(JournaledState::wf);
            reveal(JournaledState::view_state);
                    assert forall|p: (Address, U256)| #[trigger] spec_lookup(
                        self.storage@.push(((a, k), slot)),
                        p,
                    ) == (if p == (a, k) {
                        Some(slot)
                    } else {
                        spec_lookup(self.storage@, p)
                    }) by {
                        lemma_lookup_push(self.storage@, (a, k), slot, p);
                    }
                }
                let i = self.storage.len();
                self.storage.push(((a, k), slot));
                proof {
            reveal(JournaledState::wf);
            reveal(JournaledState::view_state);
                    assert forall|a2: Address, k2: U256| #[trigger] self.spec_storage(a2, k2)
                        == pre.spec_storage(a2, k2) by {}
                    assert forall|a2: Address, k2: U256| #[trigger] self.spec_original_storage(
                        a2,
                        k2,
                    ) == pre.spec_original_storage(a2, k2) by {}
                    assert(self.view_state() =~~= pre.view_state());
                    lemma_residency_preserved(pre, *self);
                    lemma_framing_refl(*self);
                }
                i
            },
        }
    }

    /// Read a storage slot through the overlay; marks it warm (journaled
    /// when it was cold) and reports whether the access was cold.
    pub fn sload(&mut self, a: Address, k: U256) -> (r: (U256, bool))
        requires
            old(self).wf(),
        ensures
            final(self).wf(),
            JournaledState::op_framing(*old(self), *final(self)),
            r.0.as_nat() == old(self).view_state().storage[(a, k)],
            r.1 == !old(self).view_state().warm_slots.contains((a, k)),
            final(self).view_state() == (StateView {
                warm_slots: old(self).view_state().warm_slots.insert((a, k)),
                ..old(self).view_state()
            }),
            forall|a2: Address, k2: U256|
                #[trigger] final(self).spec_original_storage(a2, k2) == old(
                    self,
                ).spec_original_storage(a2, k2),
            spec_lookup(final(self).storage@, (a, k)) is Some,
    {
        let ghost pre = *self;
        let i = self.ensure_slot_cached(a, k);
        let ghost mid = *self;
        let value = self.storage[i].1.present;
        let is_cold = !contains_slot(&self.warm_slots, &a, &k);
        if is_cold {
            self.warm_slots.push((a, k));
            proof {
            reveal(JournaledState::wf);
            reveal(JournaledState::view_state);
                crate::assoc::lemma_push_nodup(mid.warm_slots@, (a, k));
                assert forall|p: (Address, U256)| #[trigger] self.warm_slots@.contains(p) == (
                mid.warm_slots@.contains(p) || p == (a, k)) by {
                    crate::assoc::lemma_push_contains(mid.warm_slots@, (a, k), p);
                }
            }
            let entry = JournalEntry::StorageWarmed { address: a, key: k };
            self.journal.push(entry);
            proof {
            reveal(JournaledState::wf);
            reveal(JournaledState::view_state);
                let ghost v = self.view_state();
                self.hist@ = self.hist@.push(v);
                assert(self.view_state() =~~= v);
                assert(self.view_state() =~~= (StateView {
                    warm_slots: mid.view_state().warm_slots.insert((a, k)),
                    ..mid.view_state()
                }));
                assert(spec_undo(self.view_state(), entry) =~~= mid.view_state());
                lemma_op_step(mid, *self, entry);
                lemma_framing_trans(pre, mid, *self);
            }
        } else {
            proof {
            reveal(JournaledState::wf);
            reveal(JournaledState::view_state);
                assert(pre.view_state().warm_slots.contains((a, k)));
                assert(self.view_state() =~~= (StateView {
                    warm_slots: pre.view_state().warm_slots.insert((a, k)),
                    ..pre.view_state()
                }));
            }
        }
        (value, is_cold)
    }

    /// Mark an account touched (journaled on the first touch).
    pub fn touch(&mut self, a: Address)
        requires
            old(self).wf(),
        ensures
            final(self).wf(),
            JournaledState::op_framing(*old(self), *final(self)),
            final(self).view_state() == (StateView {
                accounts: old(self).view_state().accounts.insert(
                    a,
                    AccountView { touched: true, ..old(self).view_state().accounts[a] },
                ),
                ..old(self).view_state()
            }),
    {
        let ghost pre = *self;
        let i = self.ensure_account_cached(a);
        let ghost mid = *self;
        if !self.accounts[i].1.touched {
            let acc = &self.accounts[i].1;
            let new_acc = CachedAccount {
                info: crate::state::clone_account_info(&acc.info),
                created: acc.created,
                destroyed: acc.destroyed,
                touched: true,
            };
            proof {
            reveal(JournaledState::wf);
            reveal(JournaledState::view_state);
                assert forall|b: Address| #[trigger] spec_lookup(
                    self.accounts@.update(i as int, (a, new_acc)),
                    b,
                ) == (if b == a {
                    Some(new_acc)
                } else {
                    spec_lookup(self.accounts@, b)
                }) by {
                    lemma_lookup_update(self.accounts@, i as int, new_acc, b);
                }
                lemma_lookup_update(self.accounts@, i as int, new_acc, a);
            }
            self.accounts.set(i, (a, new_acc));
            let entry = JournalEntry::AccountTouched { address: a };
            self.journal.push(entry);
            proof {
            reveal(JournaledState::wf);
            reveal(JournaledState::view_state);
                let ghost v = self.view_state();
                self.hist@ = self.hist@.push(v);
                assert(self.view_state() =~~= v);
                assert(self.view_state() =~~= (StateView {
                    accounts: mid.view_state().accounts.insert(
                        a,
                        AccountView { touched: true, ..mid.view_state().accounts[a] },
                    ),
                    ..mid.view_state()
                }));
                assert(spec_undo(self.view_state(), entry) =~~= mid.view_state());
                lemma_op_step(mid, *self, entry);
                lemma_framing_trans(pre, mid, *self);
            }
        } else {
            proof {
            reveal(JournaledState::wf);
            reveal(JournaledState::view_state);
                assert(pre.view_state().accounts[a].touched);
                assert(self.view_state() =~~= (StateView {
                    accounts: pre.view_state().accounts.insert(
                        a,
                        AccountView { touched: true, ..pre.view_state().accounts[a] },
                    ),
                    ..pre.view_state()
                }));
            }
        }
    }


    /// The original (transaction-start) value of a cached storage slot.
    pub fn storage_original(&self, a: Address, k: U256) -> (r: U256)
        requires
            self.wf(),
            spec_lookup(self.storage@, (a, k)) is Some,
        ensures
            r.as_nat() == self.spec_original_storage(a, k),
    {
        proof {
            reveal(JournaledState::wf);
        }
        let idx = find_slot_index(&self.storage, &a, &k);
        match idx {
            Some(i) => {
                proof {
                    lemma_lookup_index(self.storage@, i as int);
                }
                self.storage[i].1.original
            },
            None => {
                proof {
                    lemma_lookup_absent(self.storage@, (a, k));
                    assert(false);
                }
                U256 { hi: 0, lo: 0 }
            },
        }
    }

    /// Write a storage slot: loads and warms it, journals the previous
    /// present value, and reports original/present/new and coldness so the
    /// caller can apply the gas and refund rules.
    pub fn sstore(&mut self, a: Address, k: U256, new_value: U256) -> (r: SStoreResult)
        requires
            old(self).wf(),
        ensures
            final(self).wf(),
            JournaledState::op_framing(*old(self), *final(self)),
            r.is_cold == !old(self).view_state().warm_slots.contains((a, k)),
            r.present.as_nat() == old(self).view_state().storage[(a, k)],
            r.original.as_nat() == old(self).spec_original_storage(a, k),
            r.new_value == new_value,
            final(self).view_state() == (StateView {
                warm_slots: old(self).view_state().warm_slots.insert((a, k)),
                storage: old(self).view_state().storage.insert((a, k), new_value.as_nat()),
                ..old(self).view_state()
            }),
            forall|a2: Address, k2: U256|
                #[trigger] final(self).spec_original_storage(a2, k2) == old(
                    self,
                ).spec_original_storage(a2, k2),
    {
        let ghost pre = *self;
        let (present, is_cold) = self.sload(a, k);
        let ghost mid = *self;
        let idx = find_slot_index(&self.storage, &a, &k);
        let i = match idx {
            Some(i) => i,
            None => {
                proof {
            reveal(JournaledState::wf);
            reveal(JournaledState::view_state);
                    crate::assoc::lemma_lookup_some_index(self.storage@, (a, k));
                    assert(false);
                }
                0
            },
        };
        proof {
            reveal(JournaledState::wf);
            reveal(JournaledState::view_state);
            lemma_lookup_index(self.storage@, i as int);
            assert(spec_lookup(self.storage@, (a, k)) == Some(self.storage@[i as int].1));
            assert(mid.spec_original_storage(a, k) == self.storage@[i as int].1.original.as_nat());
            assert(mid.spec_original_storage(a, k) == pre.spec_original_storage(a, k));
        }
        let original = self.storage[i].1.original;
        let r = SStoreResult { original, present, new_value, is_cold };
        if present == new_value {
            proof {
            reveal(JournaledState::wf);
            reveal(JournaledState::view_state);
                assert(mid.view_state().storage[(a, k)] == new_value.as_nat());
                assert(self.view_state() =~~= (StateView {
                    warm_slots: pre.view_state().warm_slots.insert((a, k)),
                    storage: pre.view_state().storage.insert((a, k), new_value.as_nat()),
                    ..pre.view_state()
                }));
            }
            return r;
        }
        let slot = StorageSlot { original, present: new_value };
        proof {
            reveal(JournaledState::wf);
            reveal(JournaledState::view_state);
            assert forall|p: (Address, U256)| #[trigger] spec_lookup(
                self.storage@.update(i as int, ((a, k), slot)),
                p,
            ) == (if p == (a, k) {
                Some(slot)
            } else {
                spec_lookup(self.storage@, p)
            }) by {
                lemma_lookup_update(self.storage@, i as int, slot, p);
            }
            lemma_lookup_update(self.storage@, i as int, slot, (a, k));
        }
        self.storage.set(i, ((a, k), slot));
        let entry = JournalEntry::StorageChange { address: a, key: k, had_value: present };
        self.journal.push(entry);
        proof {
            reveal(JournaledState::wf);
            reveal(JournaledState::view_state);
            let ghost v = self.view_state();
            self.hist@ = self.hist@.push(v);
            assert(self.view_state() =~~= v);
            assert(self.view_state() =~~= (StateView {
                storage: mid.view_state().storage.insert((a, k), new_value.as_nat()),
                ..mid.view_state()
            }));
            assert(spec_undo(self.view_state(), entry) =~~= mid.view_state());
            lemma_op_step(mid, *self, entry);
            lemma_framing_trans(pre, mid, *self);
            assert(self.view_state() =~~= (StateView {
                warm_slots: pre.view_state().warm_slots.insert((a, k)),
                storage: pre.view_state().storage.insert((a, k), new_value.as_nat()),
                ..pre.view_state()
            }));
            assert forall|a2: Address, k2: U256| #[trigger] self.spec_original_storage(a2, k2)
                == pre.spec_original_storage(a2, k2) by {
                assert(mid.spec_original_storage(a2, k2) == pre.spec_original_storage(a2, k2));
                if a2 == a && k2 == k {
                    assert(spec_lookup(self.storage@, (a, k)) == Some(slot));
                } else {
                    assert(spec_lookup(self.storage@, (a2, k2)) == spec_lookup(
                        mid.storage@,
                        (a2, k2),
                    ));
                }
            }
        }
        r
    }

    /// Move `amount` from `from` to `to`, journaled. Fails without any
    /// observable effect when the sender's balance is short or the
    /// recipient's balance would overflow a word.
    #[verifier::rlimit(100)]
    pub fn transfer(&mut self, from: Address, to: Address, amount: U256) -> (r: Option<
        TransferError,
    >)
        requires
            old(self).wf(),
        ensures
            final(self).wf(),
            JournaledState::op_framing(*old(self), *final(self)),
            r == Some(TransferError::OutOfFunds) <==> old(self).view_state().accounts[from].balance
                < amount.as_nat(),
            r == Some(TransferError::OverflowPayment) <==> (old(
                self,
            ).view_state().accounts[from].balance >= amount.as_nat() && from != to && old(
                self,
            ).view_state().accounts[to].balance + amount.as_nat() >= crate::word::pow256()),
            r is Some ==> final(self).view_state() == old(self).view_state(),
            r is None ==> final(self).view_state() == (StateView {
                accounts: spec_transfer_accounts(
                    old(self).view_state().accounts,
                    from,
                    to,
                    amount.as_nat(),
                ),
                ..old(self).view_state()
            }),
    {
        let ghost pre = *self;
        let i_from = self.ensure_account_cached(from);
        let ghost s1 = *self;
        let i_to = self.ensure_account_cached(to);
        let ghost mid = *self;
        proof {
            reveal(JournaledState::wf);
            reveal(JournaledState::view_state);
            assert(mid.accounts@[i_from as int] == mid.accounts@.subrange(
                0,
                s1.accounts@.len() as int,
            )[i_from as int]);
            assert(mid.accounts@[i_from as int].0 == from);
            lemma_lookup_index(mid.accounts@, i_from as int);
        }
        let bal_from = self.accounts[i_from].1.info.balance;
        if bal_from.lt(&amount) {
            return Some(TransferError::OutOfFunds);
        }
        let new_from = match bal_from.checked_sub(&amount) {
            Some(v) => v,
            None => {
                proof {
            reveal(JournaledState::wf);
            reveal(JournaledState::view_state);
                    assert(false);
                }
                U256::zero()
            },
        };
        if from == to {
            // A self-transfer moves nothing, but is journaled all the same.
            let entry = JournalEntry::BalanceTransfer { from, to, balance: amount };
            self.journal.push(entry);
            proof {
            reveal(JournaledState::wf);
            reveal(JournaledState::view_state);
                let ghost v = self.view_state();
                self.hist@ = self.hist@.push(v);
                assert(self.view_state() =~~= v);
                crate::word::lemma_u256_bound(bal_from);
                crate::word::lemma_u256_bound(amount);
                crate::word::lemma_mod256_cancel(bal_from.as_nat(), amount.as_nat());
                assert(spec_undo(self.view_state(), entry) =~~= mid.view_state());
                lemma_op_step(mid, *self, entry);
                lemma_framing_trans(pre, mid, *self);
                assert(self.view_state() =~~= (StateView {
                    accounts: spec_transfer_accounts(
                        pre.view_state().accounts,
                        from,
                        to,
                        amount.as_nat(),
                    ),
                    ..pre.view_state()
                }));
            }
            return None;
        }
        proof {
            reveal(JournaledState::wf);
            reveal(JournaledState::view_state);
            lemma_lookup_index(mid.accounts@, i_to as int);
            if i_from == i_to {
                assert(false);
            }
        }
        let bal_to = self.accounts[i_to].1.info.balance;
        let new_to = match bal_to.checked_add(&amount) {
            Some(v) => v,
            None => {
                proof {
            reveal(JournaledState::wf);
            reveal(JournaledState::view_state);
                    crate::word::lemma_u256_bound(bal_to);
                }
                return Some(TransferError::OverflowPayment);
            },
        };
        // Debit the sender.
        let from_acc = &self.accounts[i_from].1;
        let from_new = CachedAccount {
            info: AccountInfo {
                nonce: from_acc.info.nonce,
                balance: new_from,
                code: clone_bytes(&from_acc.info.code),
            },
            created: from_acc.created,
            destroyed: from_acc.destroyed,
            touched: from_acc.touched,
        };
        proof {
            reveal(JournaledState::wf);
            reveal(JournaledState::view_state);
            assert forall|b: Address| #[trigger] spec_lookup(
                self.accounts@.update(i_from as int, (from, from_new)),
                b,
            ) == (if b == from {
                Some(from_new)
            } else {
                spec_lookup(self.accounts@, b)
            }) by {
                lemma_lookup_update(self.accounts@, i_from as int, from_new, b);
            }
            lemma_lookup_update(self.accounts@, i_from as int, from_new, from);
        }
        self.accounts.set(i_from, (from, from_new));
        let ghost mid2 = *self;
        // Credit the recipient.
        let to_acc = &self.accounts[i_to].1;
        let to_new = CachedAccount {
            info: AccountInfo {
                nonce: to_acc.info.nonce,
                balance: new_to,
                code: clone_bytes(&to_acc.info.code),
            },
            created: to_acc.created,
            destroyed: to_acc.destroyed,
            touched: to_acc.touched,
        };
        proof {
            reveal(JournaledState::wf);
            reveal(JournaledState::view_state);
            assert(mid2.accounts@[i_to as int].0 == to);
            lemma_lookup_index(mid2.accounts@, i_to as int);
            assert forall|b: Address| #[trigger] spec_lookup(
                self.accounts@.update(i_to as int, (to, to_new)),
                b,
            ) == (if b == to {
                Some(to_new)
            } else {
                spec_lookup(self.accounts@, b)
            }) by {
                lemma_lookup_update(self.accounts@, i_to as int, to_new, b);
            }
            lemma_lookup_update(self.accounts@, i_to as int, to_new, to);
        }
        self.accounts.set(i_to, (to, to_new));
        let entry = JournalEntry::BalanceTransfer { from, to, balance: amount };
        self.journal.push(entry);
        proof {
            reveal(JournaledState::wf);
            reveal(JournaledState::view_state);
            let ghost v = self.view_state();
            self.hist@ = self.hist@.push(v);
            assert(self.view_state() =~~= v);
            crate::word::lemma_u256_bound(bal_from);
            crate::word::lemma_u256_bound(bal_to);
            crate::word::lemma_u256_bound(amount);
            crate::word::lemma_mod256_cancel(bal_to.as_nat(), amount.as_nat());
            crate::word::lemma_mod256_cancel(bal_from.as_nat(), amount.as_nat());
            vstd::arithmetic::div_mod::lemma_small_mod(
                (bal_from.as_nat() - amount.as_nat()) as nat,
                crate::word::pow256(),
            );
            assert(spec_undo(self.view_state(), entry) =~~= mid.view_state());
            lemma_op_step(mid, *self, entry);
            lemma_framing_trans(pre, mid, *self);
            assert(self.view_state() =~~= (StateView {
                accounts: spec_transfer_accounts(
                    pre.view_state().accounts,
                    from,
                    to,
                    amount.as_nat(),
                ),
                ..pre.view_state()
            }));
        }
        None
    }

    /// Increment an account's nonce, journaled; `None` when the nonce would
    /// overflow.
    pub fn inc_nonce(&mut self, a: Address) -> (r: Option<u64>)
        requires
            old(self).wf(),
        ensures
            final(self).wf(),
            JournaledState::op_framing(*old(self), *final(self)),
            old(self).view_state().accounts[a].nonce == u64::MAX ==> (r is None
                && final(self).view_state() == old(self).view_state()),
            old(self).view_state().accounts[a].nonce < u64::MAX ==> r == Some(
                (old(self).view_state().accounts[a].nonce + 1) as u64,
            ) && final(self).view_state() == (StateView {
                accounts: old(self).view_state().accounts.insert(
                    a,
                    AccountView {
                        nonce: (old(self).view_state().accounts[a].nonce + 1) as u64,
                        ..old(self).view_state().accounts[a]
                    },
                ),
                ..old(self).view_state()
            }),
    {
        proof {
            reveal(JournaledState::wf);
            reveal(JournaledState::view_state);
        }
        let ghost pre = *self;
        let i = self.ensure_account_cached(a);
        let ghost mid = *self;
        let nonce = self.accounts[i].1.info.nonce;
        if nonce == u64::MAX {
            return None;
        }
        let acc = &self.accounts[i].1;
        let new_acc = CachedAccount {
            info: AccountInfo {
                nonce: nonce + 1,
                balance: acc.info.balance,
                code: clone_bytes(&acc.info.code),
            },
            created: acc.created,
            destroyed: acc.destroyed,
            touched: acc.touched,
        };
        proof {
            reveal(JournaledState::wf);
            reveal(JournaledState::view_state);
            assert forall|b: Address| #[trigger] spec_lookup(
                self.accounts@.update(i as int, (a, new_acc)),
                b,
            ) == (if b == a {
                Some(new_acc)
            } else {
                spec_lookup(self.accounts@, b)
            }) by {
                lemma_lookup_update(self.accounts@, i as int, new_acc, b);
            }
            lemma_lookup_update(self.accounts@, i as int, new_acc, a);
        }
        self.accounts.set(i, (a, new_acc));
        let entry = JournalEntry::NonceChange { address: a };
        self.journal.push(entry);
        proof {
            reveal(JournaledState::wf);
            reveal(JournaledState::view_state);
            let ghost v = self.view_state();
            self.hist@ = self.hist@.push(v);
            assert(self.view_state() =~~= v);
            assert(spec_undo(self.view_state(), entry) =~~= mid.view_state());
            lemma_op_step(mid, *self, entry);
            lemma_framing_trans(pre, mid, *self);
            assert(self.view_state() =~~= (StateView {
                accounts: pre.view_state().accounts.insert(
                    a,
                    AccountView { nonce: (nonce + 1) as u64, ..pre.view_state().accounts[a] },
                ),
                ..pre.view_state()
            }));
        }
        Some(nonce + 1)
    }

    /// Install code at an account, journaled with the previous code.
    pub fn set_code(&mut self, a: Address, code: Vec<u8>)
        requires
            old(self).wf(),
        ensures
            final(self).wf(),
            JournaledState::op_framing(*old(self), *final(self)),
            final(self).view_state() == (StateView {
                accounts: old(self).view_state().accounts.insert(
                    a,
                    AccountView { code: code@, ..old(self).view_state().accounts[a] },
                ),
                ..old(self).view_state()
            }),
    {
        let ghost pre = *self;
        let i = self.ensure_account_cached(a);
        let ghost mid = *self;
        let ghost codev = code@;
        let acc = &self.accounts[i].1;
        let had_code = clone_bytes(&acc.info.code);
        let new_acc = CachedAccount {
            info: AccountInfo { nonce: acc.info.nonce, balance: acc.info.balance, code },
            created: acc.created,
            destroyed: acc.destroyed,
            touched: acc.touched,
        };
        proof {
            reveal(JournaledState::wf);
            reveal(JournaledState::view_state);
            assert forall|b: Address| #[trigger] spec_lookup(
                self.accounts@.update(i as int, (a, new_acc)),
                b,
            ) == (if b == a {
                Some(new_acc)
            } else {
                spec_lookup(self.accounts@, b)
            }) by {
                lemma_lookup_update(self.accounts@, i as int, new_acc, b);
            }
            lemma_lookup_update(self.accounts@, i as int, new_acc, a);
        }
        self.accounts.set(i, (a, new_acc));
        let entry = JournalEntry::CodeChange { address: a, had_code };
        self.journal.push(entry);
        proof {
            reveal(JournaledState::wf);
            reveal(JournaledState::view_state);
            let ghost v = self.view_state();
            self.hist@ = self.hist@.push(v);
            assert(self.view_state() =~~= v);
            assert(spec_undo(self.view_state(), entry) =~~= mid.view_state());
            lemma_op_step(mid, *self, entry);
            lemma_framing_trans(pre, mid, *self);
            assert(self.view_state() =~~= (StateView {
                accounts: pre.view_state().accounts.insert(
                    a,
                    AccountView { code: codev, ..pre.view_state().accounts[a] },
                ),
                ..pre.view_state()
            }));
        }
    }

    /// Mark an account as created in this transaction, journaled with the
    /// previous flag.
    pub fn create_account(&mut self, a: Address)
        requires
            old(self).wf(),
        ensures
            final(self).wf(),
            JournaledState::op_framing(*old(self), *final(self)),
            final(self).view_state() == (StateView {
                accounts: old(self).view_state().accounts.insert(
                    a,
                    AccountView { created: true, ..old(self).view_state().accounts[a] },
                ),
                ..old(self).view_state()
            }),
    {
        let ghost pre = *self;
        let i = self.ensure_account_cached(a);
        let ghost mid = *self;
        let acc = &self.accounts[i].1;
        let was_created = acc.created;
        let new_acc = CachedAccount {
            info: crate::state::clone_account_info(&acc.info),
            created: true,
            destroyed: acc.destroyed,
            touched: acc.touched,
        };
        proof {
            reveal(JournaledState::wf);
            reveal(JournaledState::view_state);
            assert forall|b: Address| #[trigger] spec_lookup(
                self.accounts@.update(i as int, (a, new_acc)),
                b,
            ) == (if b == a {
                Some(new_acc)
            } else {
                spec_lookup(self.accounts@, b)
            }) by {
                lemma_lookup_update(self.accounts@, i as int, new_acc, b);
            }
            lemma_lookup_update(self.accounts@, i as int, new_acc, a);
        }
        self.accounts.set(i, (a, new_acc));
        let entry = JournalEntry::AccountCreated { address: a, was_created };
        self.journal.push(entry);
        proof {
            reveal(JournaledState::wf);
            reveal(JournaledState::view_state);
            let ghost v = self.view_state();
            self.hist@ = self.hist@.push(v);
            assert(self.view_state() =~~= v);
            assert(spec_undo(self.view_state(), entry) =~~= mid.view_state());
            lemma_op_step(mid, *self, entry);
            lemma_framing_trans(pre, mid, *self);
        }
    }

    /// Selfdestruct `a` towards `target`: the whole balance moves (and is
    /// burned when `a == target`), the destroyed flag is set, and one
    /// journal entry records the pre-images.
    #[verifier::rlimit(100)]
    #[verifier::spinoff_prover]
    pub fn selfdestruct(&mut self, a: Address, target: Address) -> (r: SelfDestructResult)
        requires
            old(self).wf(),
        ensures
            final(self).wf(),
            JournaledState::op_framing(*old(self), *final(self)),
            r.had_value == (old(self).view_state().accounts[a].balance != 0),
            r.target_exists == !old(self).view_state().accounts[target].is_empty(),
            r.previously_destroyed == old(self).view_state().accounts[a].destroyed,
            final(self).view_state() == (StateView {
                accounts: spec_selfdestruct_accounts(old(self).view_state().accounts, a, target),
                ..old(self).view_state()
            }),
    {
        let ghost pre = *self;
        let i_a = self.ensure_account_cached(a);
        let ghost s1 = *self;
        let i_t = self.ensure_account_cached(target);
        let ghost mid = *self;
        proof {
            reveal(JournaledState::wf);
            reveal(JournaledState::view_state);
            assert(mid.accounts@[i_a as int] == mid.accounts@.subrange(
                0,
                s1.accounts@.len() as int,
            )[i_a as int]);
            assert(mid.accounts@[i_a as int].0 == a);
            lemma_lookup_index(mid.accounts@, i_a as int);
            lemma_lookup_index(mid.accounts@, i_t as int);
        }
        let had_balance = self.accounts[i_a].1.info.balance;
        let was_destroyed = self.accounts[i_a].1.destroyed;
        let target_acc = &self.accounts[i_t].1;
        let target_exists = !(target_acc.info.nonce == 0 && target_acc.info.balance.is_zero()
            && target_acc.info.code.len() == 0);
        if a != target {
            proof {
            reveal(JournaledState::wf);
            reveal(JournaledState::view_state);
                if i_a == i_t {
                    assert(false);
                }
            }
            let t_acc = &self.accounts[i_t].1;
            let t_new = CachedAccount {
                info: AccountInfo {
                    nonce: t_acc.info.nonce,
                    balance: t_acc.info.balance.wrapping_add(&had_balance),
                    code: clone_bytes(&t_acc.info.code),
                },
                created: t_acc.created,
                destroyed: t_acc.destroyed,
                touched: t_acc.touched,
            };
            proof {
            reveal(JournaledState::wf);
            reveal(JournaledState::view_state);
                assert forall|b: Address| #[trigger] spec_lookup(
                    self.accounts@.update(i_t as int, (target, t_new)),
                    b,
                ) == (if b == target {
                    Some(t_new)
                } else {
                    spec_lookup(self.accounts@, b)
                }) by {
                    lemma_lookup_update(self.accounts@, i_t as int, t_new, b);
                }
                lemma_lookup_update(self.accounts@, i_t as int, t_new, target);
            }
            self.accounts.set(i_t, (target, t_new));
        }
        let ghost mid2 = *self;
        proof {
            reveal(JournaledState::wf);
            reveal(JournaledState::view_state);
            assert(mid2.accounts@[i_a as int].0 == a);
            lemma_lookup_index(mid2.accounts@, i_a as int);
        }
        let a_acc = &self.accounts[i_a].1;
        let a_new = CachedAccount {
            info: AccountInfo {
                nonce: a_acc.info.nonce,
                balance: U256::zero(),
                code: clone_bytes(&a_acc.info.code),
            },
            created: a_acc.created,
            destroyed: true,
            touched: a_acc.touched,
        };
        proof {
            reveal(JournaledState::wf);
            reveal(JournaledState::view_state);
            assert forall|b: Address| #[trigger] spec_lookup(
                self.accounts@.update(i_a as int, (a, a_new)),
                b,
            ) == (if b == a {
                Some(a_new)
            } else {
                spec_lookup(self.accounts@, b)
            }) by {
                lemma_lookup_update(self.accounts@, i_a as int, a_new, b);
            }
            lemma_lookup_update(self.accounts@, i_a as int, a_new, a);
        }
        self.accounts.set(i_a, (a, a_new));
        let entry = JournalEntry::AccountDestroyed { address: a, target, had_balance, was_destroyed };
        self.journal.push(entry);
        proof {
            reveal(JournaledState::wf);
            reveal(JournaledState::view_state);
            let ghost v = self.view_state();
            self.hist@ = self.hist@.push(v);
            assert(self.view_state() =~~= v);
            crate::word::lemma_u256_bound(had_balance);
            if a != target {
                crate::word::lemma_mod256_cancel(
                    mid.view_state().accounts[target].balance,
                    had_balance.as_nat(),
                );
            }
            assert(spec_undo(self.view_state(), entry) =~~= mid.view_state());
            lemma_op_step(mid, *self, entry);
            lemma_framing_trans(pre, mid, *self);
            assert(self.view_state() =~~= (StateView {
                accounts: spec_selfdestruct_accounts(pre.view_state().accounts, a, target),
                ..pre.view_state()
            }));
        }
        SelfDestructResult {
            had_value: !had_balance.is_zero(),
            target_exists,
            previously_destroyed: was_destroyed,
        }
    }

    /// Read transient storage; zero unless written in this transaction.
    pub fn tload(&self, a: Address, k: U256) -> (r: U256)
        requires
            self.wf(),
        ensures
            r.as_nat() == self.view_state().transient[(a, k)],
    {
        let idx = find_slot_index(&self.transient, &a, &k);
        match idx {
            Some(i) => {
                proof {
            reveal(JournaledState::wf);
            reveal(JournaledState::view_state);
                    lemma_lookup_index(self.transient@, i as int);
                }
                self.transient[i].1
            },
            None => {
                proof {
            reveal(JournaledState::wf);
            reveal(JournaledState::view_state);
                    lemma_lookup_absent(self.transient@, (a, k));
                }
                U256::zero()
            },
        }
    }

    /// Write transient storage; journaled, cleared at end of transaction.
    pub fn tstore(&mut self, a: Address, k: U256, value: U256)
        requires
            old(self).wf(),
        ensures
            final(self).wf(),
            JournaledState::op_framing(*old(self), *final(self)),
            final(self).view_state() == (StateView {
                transient: old(self).view_state().transient.insert((a, k), value.as_nat()),
                ..old(self).view_state()
            }),
            final(self).journal@.len() == old(self).journal@.len() + 1,
    {
        let ghost pre = *self;
        let idx = find_slot_index(&self.transient, &a, &k);
        let had: U256 = match idx {
            Some(i) => {
                proof {
            reveal(JournaledState::wf);
            reveal(JournaledState::view_state);
                    lemma_lookup_index(self.transient@, i as int);
                }
                self.transient[i].1
            },
            None => {
                proof {
            reveal(JournaledState::wf);
            reveal(JournaledState::view_state);
                    lemma_lookup_absent(self.transient@, (a, k));
                }
                U256::zero()
            },
        };
        match idx {
            Some(i) => {
                proof {
            reveal(JournaledState::wf);
            reveal(JournaledState::view_state);
                    assert forall|p: (Address, U256)| #[trigger] spec_lookup(
                        self.transient@.update(i as int, ((a, k), value)),
                        p,
                    ) == (if p == (a, k) {
                        Some(value)
                    } else {
                        spec_lookup(self.transient@, p)
                    }) by {
                        lemma_lookup_update(self.transient@, i as int, value, p);
                    }
                    lemma_lookup_update(self.transient@, i as int, value, (a, k));
                }
                self.transient.set(i, ((a, k), value));
            },
            None => {
                proof {
            reveal(JournaledState::wf);
            reveal(JournaledState::view_state);
                    assert forall|p: (Address, U256)| #[trigger] spec_lookup(
                        self.transient@.push(((a, k), value)),
                        p,
                    ) == (if p == (a, k) {
                        Some(value)
                    } else {
                        spec_lookup(self.transient@, p)
                    }) by {
                        lemma_lookup_push(self.transient@, (a, k), value, p);
                    }
                    lemma_lookup_push(self.transient@, (a, k), value, (a, k));
                }
                self.transient.push(((a, k), value));
            },
        }
        let entry = JournalEntry::TransientStorageChange { address: a, key: k, had_value: had };
        self.journal.push(entry);
        proof {
            reveal(JournaledState::wf);
            reveal(JournaledState::view_state);
            let ghost v = self.view_state();
            self.hist@ = self.hist@.push(v);
            assert(self.view_state() =~~= v);
            assert(self.view_state() =~~= (StateView {
                transient: pre.view_state().transient.insert((a, k), value.as_nat()),
                ..pre.view_state()
            }));
            assert(spec_undo(self.view_state(), entry) =~~= pre.view_state());
            lemma_op_step(pre, *self, entry);
        }
    }

    /// Append a log to the transaction's log buffer; journaled.
    pub fn emit_log(&mut self, log: Log)
        requires
            old(self).wf(),
        ensures
            final(self).wf(),
            JournaledState::op_framing(*old(self), *final(self)),
            final(self).view_state() == (StateView {
                logs: old(self).view_state().logs.push(log@),
                ..old(self).view_state()
            }),
            final(self).logs@.len() == old(self).logs@.len() + 1,
    {
        let ghost pre = *self;
        let ghost logv = log@;
        self.logs.push(log);
        self.journal.push(JournalEntry::LogEmitted);
        proof {
            reveal(JournaledState::wf);
            reveal(JournaledState::view_state);
            let ghost v = self.view_state();
            self.hist@ = self.hist@.push(v);
            assert(self.view_state() =~~= v);
            assert(self.view_state() =~~= (StateView {
                logs: pre.view_state().logs.push(logv),
                ..pre.view_state()
            }));
            assert(spec_undo(self.view_state(), JournalEntry::LogEmitted) =~~= pre.view_state());
            lemma_op_step(pre, *self, JournalEntry::LogEmitted);
        }
    }

    /// Adjust the transaction's refund counter. The counter is not journaled
    /// entry by entry: a checkpoint records it and a revert restores it.
    pub fn record_refund(&mut self, delta: i64)
        requires
            old(self).wf(),
            i64::MIN <= old(self).refund + delta <= i64::MAX,
        ensures
            final(self).wf(),
            final(self).refund == old(self).refund + delta,
            final(self).view_state() == old(self).view_state(),
            JournaledState::snap_framing(*old(self), *final(self)),
            final(self).db == old(self).db,
            final(self).marks@ == old(self).marks@,
            final(self).journal@ == old(self).journal@,
            final(self).hist == old(self).hist,
            final(self).logs == old(self).logs,
    {
        let ghost pre = *self;
        self.refund = self.refund + delta;
        proof {
            reveal(JournaledState::wf);
            reveal(JournaledState::view_state);
            assert(self.view_state() =~~= pre.view_state());
            lemma_residency_preserved(pre, *self);
            lemma_framing_refl(*self);
        }
    }

    /// Replace the cached account at `a`; shared tail of the undo arms.
    fn undo_set_account(&mut self, a: Address, new_acc: CachedAccount)
        requires
            old(self).caches_wf(),
            spec_lookup(old(self).accounts@, a) is Some,
        ensures
            final(self).caches_wf(),
            final(self).view_state() == (StateView {
                accounts: old(self).view_state().accounts.insert(a, new_acc@),
                ..old(self).view_state()
            }),
            forall|b: Address|
                spec_lookup(final(self).accounts@, b) is Some <==> spec_lookup(
                    old(self).accounts@,
                    b,
                ) is Some,
            final(self).storage == old(self).storage,
            final(self).transient == old(self).transient,
            final(self).warm_accounts == old(self).warm_accounts,
            final(self).warm_slots == old(self).warm_slots,
            final(self).logs == old(self).logs,
            final(self).journal == old(self).journal,
            final(self).marks == old(self).marks,
            final(self).refund == old(self).refund,
            final(self).hist == old(self).hist,
            final(self).db == old(self).db,
    {
        let ghost pre = *self;
        let idx = find_account_index(&self.accounts, &a);
        let i = match idx {
            Some(i) => i,
            None => {
                proof {
            reveal(JournaledState::wf);
            reveal(JournaledState::view_state);
                    lemma_lookup_absent(self.accounts@, a);
                    assert(false);
                }
                0
            },
        };
        proof {
            reveal(JournaledState::wf);
            reveal(JournaledState::view_state);
            assert forall|b: Address| #[trigger] spec_lookup(
                self.accounts@.update(i as int, (a, new_acc)),
                b,
            ) == (if b == a {
                Some(new_acc)
            } else {
                spec_lookup(self.accounts@, b)
            }) by {
                lemma_lookup_update(self.accounts@, i as int, new_acc, b);
            }
            lemma_lookup_update(self.accounts@, i as int, new_acc, a);
        }
        self.accounts.set(i, (a, new_acc));
        proof {
            reveal(JournaledState::wf);
            reveal(JournaledState::view_state);
            assert(self.view_state() =~~= (StateView {
                accounts: pre.view_state().accounts.insert(a, new_acc@),
                ..pre.view_state()
            }));
        }
    }

    /// Read the cached account at `a`; shared head of the undo arms.
    fn read_cached_account(&self, a: Address) -> (r: &CachedAccount)
        requires
            self.caches_wf(),
            spec_lookup(self.accounts@, a) is Some,
        ensures
            *r == spec_lookup(self.accounts@, a)->Some_0,
            r@ == self.spec_account(a),
    {
        let idx = find_account_index(&self.accounts, &a);
        let i = match idx {
            Some(i) => i,
            None => {
                proof {
            reveal(JournaledState::wf);
            reveal(JournaledState::view_state);
                    lemma_lookup_absent(self.accounts@, a);
                    assert(false);
                }
                0
            },
        };
        proof {
            reveal(JournaledState::wf);
            reveal(JournaledState::view_state);
            lemma_lookup_index(self.accounts@, i as int);
        }
        &self.accounts[i].1
    }

    /// Undo one journal entry against the caches, restoring the observable
    /// state it recorded. The journal itself is not touched here.
    #[verifier::rlimit(100)]
    fn undo_entry(&mut self, e: JournalEntry)
        requires
            old(self).caches_wf(),
            old(self).spec_entry_resident(e),
        ensures
            final(self).caches_wf(),
            final(self).view_state() == spec_undo(old(self).view_state(), e),
            forall|b: Address|
                spec_lookup(final(self).accounts@, b) is Some <==> spec_lookup(
                    old(self).accounts@,
                    b,
                ) is Some,
            forall|p: (Address, U256)|
                spec_lookup(final(self).storage@, p) is Some <==> spec_lookup(
                    old(self).storage@,
                    p,
                ) is Some,
            forall|p: (Address, U256)|
                spec_lookup(final(self).transient@, p) is Some <==> spec_lookup(
                    old(self).transient@,
                    p,
                ) is Some,
            final(self).journal == old(self).journal,
            final(self).marks == old(self).marks,
            final(self).refund == old(self).refund,
            final(self).hist == old(self).hist,
            final(self).db == old(self).db,
    {
        let ghost pre = *self;
        match e {
            JournalEntry::AccountWarmed { address } => {
                let mut j: usize = 0;
                let mut found: bool = false;
                while j < self.warm_accounts.len() && !found
                    invariant
                        j <= self.warm_accounts@.len(),
                        !found ==> forall|t: int| 0 <= t < j ==> self.warm_accounts@[t] != address,
                        found ==> j < self.warm_accounts@.len() && self.warm_accounts@[j as int]
                            == address,
                        *self == pre,
                    decreases self.warm_accounts@.len() - j + (if found {
                        0int
                    } else {
                        1int
                    }),
                {
                    if self.warm_accounts[j] == address {
                        found = true;
                    } else {
                        j = j + 1;
                    }
                }
                if found {
                    proof {
            reveal(JournaledState::wf);
            reveal(JournaledState::view_state);
                        crate::assoc::lemma_remove_nodup(self.warm_accounts@, j as int);
                    }
                    self.warm_accounts.remove(j);
                    proof {
            reveal(JournaledState::wf);
            reveal(JournaledState::view_state);
                        assert(self.view_state() =~~= spec_undo(pre.view_state(), e));
                    }
                } else {
                    proof {
            reveal(JournaledState::wf);
            reveal(JournaledState::view_state);
                        assert(!pre.warm_accounts@.contains(address));
                        assert(self.view_state() =~~= spec_undo(pre.view_state(), e));
                    }
                }
            },
            JournalEntry::StorageWarmed { address, key } => {
                let mut j: usize = 0;
                let mut found: bool = false;
                while j < self.warm_slots.len() && !found
                    invariant
                        j <= self.warm_slots@.len(),
                        !found ==> forall|t: int|
                            0 <= t < j ==> self.warm_slots@[t] != (address, key),
                        found ==> j < self.warm_slots@.len() && self.warm_slots@[j as int] == (
                        address,
                        key,
                        ),
                        *self == pre,
                    decreases self.warm_slots@.len() - j + (if found {
                        0int
                    } else {
                        1int
                    }),
                {
                    if self.warm_slots[j].0 == address && self.warm_slots[j].1 == key {
                        found = true;
                    } else {
                        j = j + 1;
                    }
                }
                if found {
                    proof {
            reveal(JournaledState::wf);
            reveal(JournaledState::view_state);
                        crate::assoc::lemma_remove_nodup(self.warm_slots@, j as int);
                    }
                    self.warm_slots.remove(j);
                    proof {
            reveal(JournaledState::wf);
            reveal(JournaledState::view_state);
                        assert(self.view_state() =~~= spec_undo(pre.view_state(), e));
                    }
                } else {
                    proof {
            reveal(JournaledState::wf);
            reveal(JournaledState::view_state);
                        assert(!pre.warm_slots@.contains((address, key)));
                        assert(self.view_state() =~~= spec_undo(pre.view_state(), e));
                    }
                }
            },
            JournalEntry::AccountTouched { address } => {
                let acc = self.read_cached_account(address);
                let new_acc = CachedAccount {
                    info: crate::state::clone_account_info(&acc.info),
                    created: acc.created,
                    destroyed: acc.destroyed,
                    touched: false,
                };
                self.undo_set_account(address, new_acc);
                proof {
            reveal(JournaledState::wf);
            reveal(JournaledState::view_state);
                    assert(self.view_state() =~~= spec_undo(pre.view_state(), e));
                }
            },
            JournalEntry::BalanceTransfer { from, to, balance } => {
                let acc_to = self.read_cached_account(to);
                let new_to = CachedAccount {
                    info: AccountInfo {
                        nonce: acc_to.info.nonce,
                        balance: acc_to.info.balance.wrapping_sub(&balance),
                        code: clone_bytes(&acc_to.info.code),
                    },
                    created: acc_to.created,
                    destroyed: acc_to.destroyed,
                    touched: acc_to.touched,
                };
                self.undo_set_account(to, new_to);
                let ghost mid = *self;
                let acc_from = self.read_cached_account(from);
                let new_from = CachedAccount {
                    info: AccountInfo {
                        nonce: acc_from.info.nonce,
                        balance: acc_from.info.balance.wrapping_add(&balance),
                        code: clone_bytes(&acc_from.info.code),
                    },
                    created: acc_from.created,
                    destroyed: acc_from.destroyed,
                    touched: acc_from.touched,
                };
                self.undo_set_account(from, new_from);
                proof {
            reveal(JournaledState::wf);
            reveal(JournaledState::view_state);
                    assert(self.view_state() =~~= spec_undo(pre.view_state(), e));
                }
            },
            JournalEntry::NonceChange { address } => {
                let acc = self.read_cached_account(address);
                let n = acc.info.nonce;
                let new_acc = CachedAccount {
                    info: AccountInfo {
                        nonce: if n > 0 {
                            n - 1
                        } else {
                            0
                        },
                        balance: acc.info.balance,
                        code: clone_bytes(&acc.info.code),
                    },
                    created: acc.created,
                    destroyed: acc.destroyed,
                    touched: acc.touched,
                };
                self.undo_set_account(address, new_acc);
                proof {
            reveal(JournaledState::wf);
            reveal(JournaledState::view_state);
                    assert(self.view_state() =~~= spec_undo(pre.view_state(), e));
                }
            },
            JournalEntry::StorageChange { address, key, had_value } => {
                let idx = find_slot_index(&self.storage, &address, &key);
                let i = match idx {
                    Some(i) => i,
                    None => {
                        proof {
            reveal(JournaledState::wf);
            reveal(JournaledState::view_state);
                            lemma_lookup_absent(self.storage@, (address, key));
                            assert(false);
                        }
                        0
                    },
                };
                proof {
            reveal(JournaledState::wf);
            reveal(JournaledState::view_state);
                    lemma_lookup_index(self.storage@, i as int);
                }
                let slot = StorageSlot { original: self.storage[i].1.original, present: had_value };
                proof {
            reveal(JournaledState::wf);
            reveal(JournaledState::view_state);
                    assert forall|p: (Address, U256)| #[trigger] spec_lookup(
                        self.storage@.update(i as int, ((address, key), slot)),
                        p,
                    ) == (if p == (address, key) {
                        Some(slot)
                    } else {
                        spec_lookup(self.storage@, p)
                    }) by {
                        lemma_lookup_update(self.storage@, i as int, slot, p);
                    }
                    lemma_lookup_update(self.storage@, i as int, slot, (address, key));
                }
                self.storage.set(i, ((address, key), slot));
                proof {
            reveal(JournaledState::wf);
            reveal(JournaledState::view_state);
                    assert(self.view_state() =~~= spec_undo(pre.view_state(), e));
                }
            },
            JournalEntry::TransientStorageChange { address, key, had_value } => {
                let idx = find_slot_index(&self.transient, &address, &key);
                let i = match idx {
                    Some(i) => i,
                    None => {
                        proof {
            reveal(JournaledState::wf);
            reveal(JournaledState::view_state);
                            lemma_lookup_absent(self.transient@, (address, key));
                            assert(false);
                        }
                        0
                    },
                };
                proof {
            reveal(JournaledState::wf);
            reveal(JournaledState::view_state);
                    assert forall|p: (Address, U256)| #[trigger] spec_lookup(
                        self.transient@.update(i as int, ((address, key), had_value)),
                        p,
                    ) == (if p == (address, key) {
                        Some(had_value)
                    } else {
                        spec_lookup(self.transient@, p)
                    }) by {
                        lemma_lookup_update(self.transient@, i as int, had_value, p);
                    }
                    lemma_lookup_update(self.transient@, i as int, had_value, (address, key));
                }
                self.transient.set(i, ((address, key), had_value));
                proof {
            reveal(JournaledState::wf);
            reveal(JournaledState::view_state);
                    assert(self.view_state() =~~= spec_undo(pre.view_state(), e));
                }
            },
            JournalEntry::CodeChange { address, had_code } => {
                let acc = self.read_cached_account(address);
                let new_acc = CachedAccount {
                    info: AccountInfo {
                        nonce: acc.info.nonce,
                        balance: acc.info.balance,
                        code: had_code,
                    },
                    created: acc.created,
                    destroyed: acc.destroyed,
                    touched: acc.touched,
                };
                self.undo_set_account(address, new_acc);
                proof {
            reveal(JournaledState::wf);
            reveal(JournaledState::view_state);
                    assert(self.view_state() =~~= spec_undo(pre.view_state(), e));
                }
            },
            JournalEntry::AccountCreated { address, was_created } => {
                let acc = self.read_cached_account(address);
                let new_acc = CachedAccount {
                    info: crate::state::clone_account_info(&acc.info),
                    created: was_created,
                    destroyed: acc.destroyed,
                    touched: acc.touched,
                };
                self.undo_set_account(address, new_acc);
                proof {
            reveal(JournaledState::wf);
            reveal(JournaledState::view_state);
                    assert(self.view_state() =~~= spec_undo(pre.view_state(), e));
                }
            },
            JournalEntry::AccountDestroyed { address, target, had_balance, was_destroyed } => {
                if address != target {
                    let acc_t = self.read_cached_account(target);
                    let new_t = CachedAccount {
                        info: AccountInfo {
                            nonce: acc_t.info.nonce,
                            balance: acc_t.info.balance.wrapping_sub(&had_balance),
                            code: clone_bytes(&acc_t.info.code),
                        },
                        created: acc_t.created,
                        destroyed: acc_t.destroyed,
                        touched: acc_t.touched,
                    };
                    self.undo_set_account(target, new_t);
                }
                let ghost mid = *self;
                let acc_a = self.read_cached_account(address);
                let new_a = CachedAccount {
                    info: AccountInfo {
                        nonce: acc_a.info.nonce,
                        balance: had_balance,
                        code: clone_bytes(&acc_a.info.code),
                    },
                    created: acc_a.created,
                    destroyed: was_destroyed,
                    touched: acc_a.touched,
                };
                self.undo_set_account(address, new_a);
                proof {
            reveal(JournaledState::wf);
            reveal(JournaledState::view_state);
                    assert(self.view_state() =~~= spec_undo(pre.view_state(), e));
                }
            },
            JournalEntry::LogEmitted => {
                self.logs.pop();
                proof {
            reveal(JournaledState::wf);
            reveal(JournaledState::view_state);
                    if pre.logs@.len() > 0 {
                        assert(self.view_state().logs =~= pre.view_state().logs.drop_last());
                    }
                    assert(self.view_state() =~~= spec_undo(pre.view_state(), e));
                }
            },
        }
    }

    /// Open a checkpoint: everything journaled after it can be reverted as
    /// one unit. The returned token records the journal length, the log
    /// count, and the refund counter at this moment, and
    /// `snapshot(final(self), r)` is exactly the current observable state.
    pub fn checkpoint(&mut self) -> (r: JournalCheckpoint)
        requires
            old(self).wf(),
            old(self).marks@.len() < usize::MAX,
        ensures
            final(self).wf(),
            final(self).db == old(self).db,
            final(self).journal == old(self).journal,
            final(self).hist == old(self).hist,
            final(self).refund == old(self).refund,
            final(self).logs == old(self).logs,
            final(self).view_state() == old(self).view_state(),
            final(self).marks@ == old(self).marks@.push(old(self).journal@.len() as usize),
            r.journal_i == old(self).journal@.len(),
            r.logs_i == old(self).logs@.len(),
            r.refund == old(self).refund,
            r.depth == old(self).marks@.len() + 1,
            final(self).valid_checkpoint(r),
            final(self).snapshot(r) == final(self).view_state(),
            forall|cp: JournalCheckpoint|
                old(self).valid_checkpoint(cp) ==> (final(self).valid_checkpoint(cp)
                    && final(self).snapshot(cp) == old(self).snapshot(cp)),
    {
        let ghost pre = *self;
        let r = JournalCheckpoint {
            journal_i: self.journal.len(),
            logs_i: self.logs.len(),
            refund: self.refund,
            depth: self.marks.len() + 1,
        };
        let mark = self.journal.len();
        self.marks.push(mark);
        proof {
            reveal(JournaledState::wf);
            reveal(JournaledState::view_state);
            assert(self.view_state() =~~= pre.view_state());
            assert(self.hist@.last() == self.view_state());
        }
        r
    }

    /// Drop the innermost checkpoint, keeping its journal entries: the work
    /// becomes part of the parent's span, and an ancestor checkpoint can
    /// still revert it.
    pub fn commit(&mut self, cp: JournalCheckpoint)
        requires
            old(self).wf(),
            old(self).valid_checkpoint(cp),
            cp.depth == old(self).marks@.len(),
        ensures
            final(self).wf(),
            final(self).db == old(self).db,
            final(self).journal == old(self).journal,
            final(self).hist == old(self).hist,
            final(self).refund == old(self).refund,
            final(self).logs == old(self).logs,
            final(self).view_state() == old(self).view_state(),
            final(self).marks@ == old(self).marks@.drop_last(),
            forall|cp2: JournalCheckpoint|
                old(self).valid_checkpoint(cp2) && cp2.depth < cp.depth ==> (final(self).valid_checkpoint(cp2)
                    && final(self).snapshot(cp2) == old(self).snapshot(cp2)),
    {
        let ghost pre = *self;
        self.marks.pop();
        proof {
            reveal(JournaledState::wf);
            reveal(JournaledState::view_state);
            assert(self.view_state() =~~= pre.view_state());
            assert(self.hist@.last() == self.view_state());
        }
    }

    /// Revert to a checkpoint: undo every entry journaled after it, in
    /// reverse order. Afterwards the observable state equals the snapshot
    /// the checkpoint recorded, the log buffer is back at its length, and
    /// the refund counter is restored.
    #[verifier::rlimit(100)]
    pub fn revert_to(&mut self, cp: JournalCheckpoint)
        requires
            old(self).wf(),
            old(self).valid_checkpoint(cp),
        ensures
            final(self).wf(),
            final(self).db == old(self).db,
            final(self).view_state() == old(self).snapshot(cp),
            final(self).journal@ == old(self).journal@.subrange(0, cp.journal_i as int),
            final(self).hist@ == old(self).hist@.subrange(0, cp.journal_i + 1),
            final(self).marks@ == old(self).marks@.subrange(0, cp.depth - 1),
            final(self).refund == cp.refund,
            forall|cp2: JournalCheckpoint|
                old(self).valid_checkpoint(cp2) && cp2.depth < cp.depth ==> (final(self).valid_checkpoint(cp2)
                    && final(self).snapshot(cp2) == old(self).snapshot(cp2)),
    {
        let ghost pre = *self;
        let target = cp.journal_i;
        proof {
            reveal(JournaledState::wf);
            reveal(JournaledState::view_state);
            assert(pre.marks@[cp.depth - 1] == cp.journal_i);
            assert(cp.journal_i <= pre.journal@.len());
            assert(pre.journal@.subrange(0, pre.journal@.len() as int) =~= pre.journal@);
            assert(pre.hist@.subrange(0, pre.journal@.len() as int + 1) =~= pre.hist@);
        }
        while self.journal.len() > target
            invariant
                pre.wf(),
                self.caches_wf(),
                self.journal_wf(),
                self.hist_wf(),
                target <= self.journal@.len(),
                self.journal@.len() <= pre.journal@.len(),
                self.journal@ == pre.journal@.subrange(0, self.journal@.len() as int),
                self.hist@ == pre.hist@.subrange(0, self.journal@.len() as int + 1),
                self.marks == pre.marks,
                self.refund == pre.refund,
                self.db == pre.db,
            decreases self.journal@.len(),
        {
            let ghost loop_pre = *self;
            let ghost n = loop_pre.journal@.len() as int;
            let e = match self.journal.pop() {
                Some(e) => e,
                None => {
                    proof {
            reveal(JournaledState::wf);
            reveal(JournaledState::view_state);
                        assert(false);
                    }
                    return ;
                },
            };
            let ghost popped = *self;
            proof {
            reveal(JournaledState::wf);
            reveal(JournaledState::view_state);
                assert(loop_pre.journal@[n - 1] == e);
                assert(loop_pre.spec_entry_resident(e));
                assert(popped.spec_entry_resident(e));
                assert(popped.view_state() =~~= loop_pre.view_state());
            }
            self.undo_entry(e);
            proof {
            reveal(JournaledState::wf);
            reveal(JournaledState::view_state);
                self.hist@ = self.hist@.drop_last();
                assert(spec_undo(loop_pre.hist@[n], e) == loop_pre.hist@[n - 1]);
                assert(loop_pre.hist@[n] == loop_pre.hist@.last());
                assert(self.view_state() == spec_undo(popped.view_state(), e));
                assert(self.view_state() == loop_pre.hist@[n - 1]);
                assert(self.hist@.last() == self.view_state());
                assert forall|i: int| 0 <= i < self.journal@.len() implies spec_undo(
                    self.hist@[i + 1],
                    #[trigger] self.journal@[i],
                ) == self.hist@[i] by {
                    assert(self.journal@[i] == loop_pre.journal@[i]);
                    assert(self.hist@[i] == loop_pre.hist@[i]);
                    assert(self.hist@[i + 1] == loop_pre.hist@[i + 1]);
                }
                assert forall|i: int| 0 <= i < self.journal@.len() implies self.spec_entry_resident(
                    #[trigger] self.journal@[i],
                ) by {
                    assert(loop_pre.spec_entry_resident(loop_pre.journal@[i]));
                    lemma_resident_monotone(popped, *self, loop_pre.journal@[i]);
                }
                assert forall|i: int| 0 <= i < self.journal@.len() implies self.journal@[i]
                    == pre.journal@[i] by {
                    assert(self.journal@[i] == loop_pre.journal@[i]);
                    assert(loop_pre.journal@[i] == pre.journal@.subrange(0, n)[i]);
                }
                assert(self.journal@ =~= pre.journal@.subrange(0, self.journal@.len() as int));
                assert forall|i: int| 0 <= i < self.hist@.len() implies self.hist@[i]
                    == pre.hist@[i] by {
                    assert(self.hist@[i] == loop_pre.hist@[i]);
                    assert(loop_pre.hist@[i] == pre.hist@.subrange(0, n + 1)[i]);
                }
                assert(self.hist@ =~= pre.hist@.subrange(0, self.journal@.len() as int + 1));
            }
        }
        self.marks.truncate(cp.depth - 1);
        self.refund = cp.refund;
        proof {
            reveal(JournaledState::wf);
            reveal(JournaledState::view_state);
            assert(self.journal@.len() == target);
            assert(self.hist@.last() == self.view_state());
            assert(self.view_state() == pre.hist@[cp.journal_i as int]);
            assert forall|i: int| 0 <= i < self.marks@.len() implies #[trigger] self.marks@[i]
                <= self.journal@.len() by {
                assert(self.marks@[i] == pre.marks@[i]);
                assert(pre.marks@[i] <= pre.marks@[cp.depth - 1]);
            }
            assert(self.wf());
        }
    }

    /// Adjust the refund counter, clamping at the i64 range instead of
    /// overflowing; the counter stays far from the bounds in any real
    /// transaction.
    pub fn record_refund_saturating(&mut self, delta: i64)
        requires
            old(self).wf(),
        ensures
            final(self).wf(),
            final(self).refund == spec_sat_add_i64(old(self).refund as int, delta as int),
            final(self).view_state() == old(self).view_state(),
            JournaledState::snap_framing(*old(self), *final(self)),
            final(self).marks@ == old(self).marks@,
            final(self).journal@ == old(self).journal@,
            final(self).hist == old(self).hist,
            final(self).logs == old(self).logs,
    {
        let ghost pre = *self;
        let sum: i64 = if delta >= 0 {
            if self.refund <= i64::MAX - delta {
                self.refund + delta
            } else {
                i64::MAX
            }
        } else {
            if self.refund >= i64::MIN - delta {
                self.refund + delta
            } else {
                i64::MIN
            }
        };
        self.refund = sum;
        proof {
            reveal(JournaledState::wf);
            reveal(JournaledState::view_state);
            assert(self.view_state() =~~= pre.view_state());
            lemma_residency_preserved(pre, *self);
            lemma_framing_refl(*self);
        }
    }

    /// Read an account's code through the overlay; pure caching, no warming
    /// (the caller warms through `load_account`).
    pub fn load_code(&mut self, a: Address) -> (r: Vec<u8>)
        requires
            old(self).wf(),
        ensures
            final(self).wf(),
            JournaledState::op_framing(*old(self), *final(self)),
            final(self).view_state() == old(self).view_state(),
            r@ == old(self).view_state().accounts[a].code,
    {
        proof {
            reveal(JournaledState::wf);
            reveal(JournaledState::view_state);
        }
        let i = self.ensure_account_cached(a);
        clone_bytes(&self.accounts[i].1.info.code)
    }

    /// Clear every cache, the journal, the logs, the checkpoints, and the
    /// refund counter; the overlay shows the bare database again.
    pub fn clear(&mut self)
        requires
            old(self).wf(),
        ensures
            final(self).wf(),
            final(self).db == old(self).db,
            final(self).journal@.len() == 0,
            final(self).marks@.len() == 0,
            final(self).refund == 0,
            final(self).logs@.len() == 0,
            forall|a: Address|
                #[trigger] final(self).view_state().accounts[a] == old(self).db.spec_account(a),
            forall|p: (Address, U256)|
                #[trigger] final(self).view_state().storage[p] == old(self).db.spec_storage(
                    p.0,
                    p.1,
                ),
            forall|p: (Address, U256)| #[trigger] final(self).view_state().transient[p] == 0,
            final(self).view_state().warm_accounts == Set::<Address>::empty(),
            final(self).view_state().warm_slots == Set::<(Address, U256)>::empty(),
    {
        self.accounts = Vec::new();
        self.storage = Vec::new();
        self.transient = Vec::new();
        self.warm_accounts = Vec::new();
        self.warm_slots = Vec::new();
        self.logs = Vec::new();
        self.journal = Vec::new();
        self.marks = Vec::new();
        self.refund = 0;
        proof {
            reveal(JournaledState::wf);
            reveal(JournaledState::view_state);
            self.hist@ = seq![self.view_state()];
            assert(self.view_state().warm_accounts =~= Set::<Address>::empty());
            assert(self.view_state().warm_slots =~= Set::<(Address, U256)>::empty());
            assert(self.caches_wf());
            assert(self.journal_wf());
            assert(self.marks_wf());
            assert(self.hist@.len() == 1);
            assert(self.hist@.last() == self.view_state());
            assert(self.hist_wf());
        }
    }

    /// Consume the overlay: the touched accounts and storage, and the logs.
    pub fn finalize(self) -> (r: StateChanges)
        ensures
            r.db == self.db,
            r.accounts == self.accounts,
            r.storage == self.storage,
            r.logs == self.logs,
    {
        StateChanges {
            db: self.db,
            accounts: self.accounts,
            storage: self.storage,
            logs: self.logs,
        }
    }


    /// The most recently emitted log, if any.
    pub fn last_log(&self) -> (r: Option<&Log>)
        ensures
            self.logs@.len() > 0 ==> (r matches Some(l) && *l == self.logs@.last()),
            self.logs@.len() == 0 ==> r is None,
    {
        if self.logs.len() > 0 {
            Some(&self.logs[self.logs.len() - 1])
        } else {
            None
        }
    }

    /// The most recently appended journal entry, if any.
    pub fn last_entry(&self) -> (r: Option<&JournalEntry>)
        ensures
            self.journal@.len() > 0 ==> (r matches Some(e) && *e == self.journal@.last()),
            self.journal@.len() == 0 ==> r is None,
    {
        if self.journal.len() > 0 {
            Some(&self.journal[self.journal.len() - 1])
        } else {
            None
        }
    }

    /// The number of logs emitted so far.
    pub fn logs_len(&self) -> (r: usize)
        ensures
            r == self.logs@.len(),
    {
        self.logs.len()
    }
}

/// Read an account from the database, as the view the overlay would show
/// before any mutation.
fn load_db_account(db: &InMemoryDb, a: &Address) -> (r: AccountInfo)
    requires
        db.wf(),
    ensures
        r.nonce == db.spec_account(*a).nonce,
        r.balance.as_nat() == db.spec_account(*a).balance,
        r.code@ == db.spec_account(*a).code,
{
    let idx = find_account_index(&db.accounts, a);
    match idx {
        Some(i) => {
            proof {
            reveal(JournaledState::wf);
            reveal(JournaledState::view_state);
                lemma_lookup_index(db.accounts@, i as int);
            }
            crate::state::clone_account_info(&db.accounts[i].1)
        },
        None => {
            proof {
            reveal(JournaledState::wf);
            reveal(JournaledState::view_state);
                lemma_lookup_absent(db.accounts@, *a);
            }
            AccountInfo { nonce: 0, balance: U256::zero(), code: Vec::new() }
        },
    }
}

/// The state changes a finished transaction leaves: every account and
/// storage slot the overlay touched, and the logs.
pub struct StateChanges {
    /// The backing database the overlay read through.
    pub db: InMemoryDb,
    pub accounts: Vec<(Address, CachedAccount)>,
    pub storage: Vec<((Address, U256), StorageSlot)>,
    pub logs: Vec<Log>,
}


/// Whether a finished transaction deletes this account: it selfdestructed,
/// and — from Cancun on — only when it was also created in the same
/// transaction (before Cancun every selfdestructed account is deleted).
pub open spec fn spec_account_deleted(acc: crate::state::AccountView, spec_id: crate::env::SpecId) -> bool {
    acc.destroyed && (crate::env::spec_fork_rank(spec_id) < crate::env::spec_fork_rank(
        crate::env::SpecId::Cancun,
    ) || acc.created)
}

/// Exec mirror of [`spec_account_deleted`], for consumers of the final
/// state changes.
pub fn account_deleted(acc: &CachedAccount, spec_id: crate::env::SpecId) -> (r: bool)
    ensures
        r == spec_account_deleted(acc@, spec_id),
{
    acc.destroyed && (!spec_id.is_enabled_in(crate::env::SpecId::Cancun) || acc.created)
}

/// Signed addition clamped to the i64 range.
pub open spec fn spec_sat_add_i64(a: int, b: int) -> int {
    if a + b > i64::MAX {
        i64::MAX as int
    } else if a + b < i64::MIN {
        i64::MIN as int
    } else {
        a + b
    }
}

/// What `sstore` reports for the gas and refund rules.
#[derive(Clone, Copy, Debug)]
pub struct SStoreResult {
    pub original: U256,
    pub present: U256,
    pub new_value: U256,
    pub is_cold: bool,
}

/// Why a balance transfer was refused.
#[derive(Clone, Copy, PartialEq, Eq, Structural, Debug)]
pub enum TransferError {
    /// The sender's balance does not cover the amount.
    OutOfFunds,
    /// The recipient's balance would exceed the largest word.
    OverflowPayment,
}

/// What `selfdestruct` reports.
#[derive(Clone, Copy, Debug)]
pub struct SelfDestructResult {
    pub had_value: bool,
    pub target_exists: bool,
    pub previously_destroyed: bool,
}

/// The account map after a successful transfer of `x` from `from` to `to`:
/// debit first, credit second, so a self-transfer nets to no change.
pub open spec fn spec_transfer_accounts(
    m: Map<Address, AccountView>,
    from: Address,
    to: Address,
    x: nat,
) -> Map<Address, AccountView> {
    let m1 = m.insert(from, AccountView { balance: (m[from].balance - x) as nat, ..m[from] });
    m1.insert(to, AccountView { balance: (m1[to].balance + x) as nat, ..m1[to] })
}

/// The account map after `a` selfdestructs towards `target`: the whole
/// balance moves (burned when `a == target`) and the destroyed flag is set.
pub open spec fn spec_selfdestruct_accounts(
    m: Map<Address, AccountView>,
    a: Address,
    target: Address,
) -> Map<Address, AccountView> {
    let m1 = if a != target {
        m.insert(
            target,
            AccountView {
                balance: spec_add_mod256(m[target].balance, m[a].balance),
                ..m[target]
            },
        )
    } else {
        m
    };
    m1.insert(a, AccountView { balance: 0nat, destroyed: true, ..m1[a] })
}

/// Read a storage value from the database.
fn load_db_storage(db: &InMemoryDb, a: &Address, k: &U256) -> (r: U256)
    requires
        db.wf(),
    ensures
        r.as_nat() == db.spec_storage(*a, *k),
{
    let idx = find_slot_index(&db.storage, a, k);
    match idx {
        Some(i) => {
            proof {
            reveal(JournaledState::wf);
            reveal(JournaledState::view_state);
                lemma_lookup_index(db.storage@, i as int);
            }
            db.storage[i].1
        },
        None => {
            proof {
            reveal(JournaledState::wf);
            reveal(JournaledState::view_state);
                lemma_lookup_absent(db.storage@, (*a, *k));
            }
            U256::zero()
        },
    }
}

/// Whether the list holds this address.
fn contains_address(v: &Vec<Address>, a: &Address) -> (r: bool)
    ensures
        r == v@.contains(*a),
{
    let mut i: usize = 0;
    while i < v.len()
        invariant
            i <= v@.len(),
            forall|j: int| 0 <= j < i ==> v@[j] != *a,
        decreases v@.len() - i,
    {
        if v[i] == *a {
            return true;
        }
        i = i + 1;
    }
    proof {
            reveal(JournaledState::wf);
            reveal(JournaledState::view_state);
        assert(!v@.contains(*a));
    }
    false
}

/// Whether the list holds this slot key.
fn contains_slot(v: &Vec<(Address, U256)>, a: &Address, k: &U256) -> (r: bool)
    ensures
        r == v@.contains((*a, *k)),
{
    let mut i: usize = 0;
    while i < v.len()
        invariant
            i <= v@.len(),
            forall|j: int| 0 <= j < i ==> v@[j] != (*a, *k),
        decreases v@.len() - i,
    {
        if v[i].0 == *a && v[i].1 == *k {
            return true;
        }
        i = i + 1;
    }
    proof {
            reveal(JournaledState::wf);
            reveal(JournaledState::view_state);
        assert(!v@.contains((*a, *k)));
    }
    false
}

/// Snapshot framing composes.
pub proof fn lemma_snap_framing_trans(a: JournaledState, b: JournaledState, c: JournaledState)
    requires
        JournaledState::snap_framing(a, b),
        JournaledState::snap_framing(b, c),
    ensures
        JournaledState::snap_framing(a, c),
{
    reveal(JournaledState::wf);
    reveal(JournaledState::view_state);
}

/// Operation framing composes.
proof fn lemma_framing_trans(a: JournaledState, b: JournaledState, c: JournaledState)
    requires
        JournaledState::op_framing(a, b),
        JournaledState::op_framing(b, c),
    ensures
        JournaledState::op_framing(a, c),
{
    reveal(JournaledState::wf);
    reveal(JournaledState::view_state);
    lemma_snap_framing_trans(a, b, c);
    assert(c.journal@.subrange(0, a.journal@.len() as int) =~= a.journal@) by {
        assert forall|i: int| 0 <= i < a.journal@.len() implies c.journal@[i] == a.journal@[i] by {
            assert(b.journal@[i] == b.journal@.subrange(0, a.journal@.len() as int)[i]);
            assert(c.journal@[i] == c.journal@.subrange(0, b.journal@.len() as int)[i]);
        }
    }
    assert(c.hist@.subrange(0, a.hist@.len() as int) =~= a.hist@) by {
        assert forall|i: int| 0 <= i < a.hist@.len() implies c.hist@[i] == a.hist@[i] by {
            assert(b.hist@[i] == b.hist@.subrange(0, a.hist@.len() as int)[i]);
            assert(c.hist@[i] == c.hist@.subrange(0, b.hist@.len() as int)[i]);
        }
    }
}

/// A state satisfies the operation framing with respect to any state that
/// shares its database, marks, refund, journal, and history.
proof fn lemma_framing_refl(s: JournaledState)
    ensures
        JournaledState::op_framing(s, s),
{
    reveal(JournaledState::wf);
    reveal(JournaledState::view_state);
    assert(s.journal@.subrange(0, s.journal@.len() as int) =~= s.journal@);
    assert(s.hist@.subrange(0, s.hist@.len() as int) =~= s.hist@);
}


/// The facts callers outside this module need from well-formedness: the
/// database is well-formed, the account cache has unique keys, the history
/// has one view per journal prefix, and the marks lie within the journal.
pub proof fn lemma_wf_facts(j: JournaledState)
    requires
        j.wf(),
    ensures
        j.db.wf(),
        spec_unique_keys(j.accounts@),
        spec_unique_keys(j.storage@),
        j.hist@.len() == j.journal@.len() + 1,
        forall|i: int| 0 <= i < j.marks@.len() ==> #[trigger] j.marks@[i] <= j.journal@.len(),
{
    reveal(JournaledState::wf);
    reveal(JournaledState::view_state);
}

/// Residency of one entry survives any change that keeps every cached key
/// cached.
proof fn lemma_resident_monotone(pre: JournaledState, post: JournaledState, e: JournalEntry)
    requires
        pre.spec_entry_resident(e),
        forall|b: Address|
            spec_lookup(pre.accounts@, b) is Some ==> spec_lookup(post.accounts@, b) is Some,
        forall|p: (Address, U256)|
            spec_lookup(pre.storage@, p) is Some ==> spec_lookup(post.storage@, p) is Some,
        forall|p: (Address, U256)|
            spec_lookup(pre.transient@, p) is Some ==> spec_lookup(post.transient@, p) is Some,
    ensures
        post.spec_entry_resident(e),
{
    reveal(JournaledState::wf);
    reveal(JournaledState::view_state);
    match e {
        JournalEntry::AccountTouched { address } => {
            assert(spec_lookup(pre.accounts@, address) is Some);
        },
        JournalEntry::BalanceTransfer { from, to, .. } => {
            assert(spec_lookup(pre.accounts@, from) is Some);
            assert(spec_lookup(pre.accounts@, to) is Some);
        },
        JournalEntry::NonceChange { address } => {
            assert(spec_lookup(pre.accounts@, address) is Some);
        },
        JournalEntry::StorageChange { address, key, .. } => {
            assert(spec_lookup(pre.storage@, (address, key)) is Some);
        },
        JournalEntry::TransientStorageChange { address, key, .. } => {
            assert(spec_lookup(pre.transient@, (address, key)) is Some);
        },
        JournalEntry::CodeChange { address, .. } => {
            assert(spec_lookup(pre.accounts@, address) is Some);
        },
        JournalEntry::AccountCreated { address, .. } => {
            assert(spec_lookup(pre.accounts@, address) is Some);
        },
        JournalEntry::AccountDestroyed { address, target, .. } => {
            assert(spec_lookup(pre.accounts@, address) is Some);
            assert(spec_lookup(pre.accounts@, target) is Some);
        },
        _ => {},
    }
}

/// Journal residency only reads which keys the caches hold; when no key
/// disappears and the journal is unchanged, residency is preserved.
proof fn lemma_residency_preserved(pre: JournaledState, post: JournaledState)
    requires
        pre.journal_wf(),
        post.journal@ == pre.journal@,
        forall|b: Address|
            spec_lookup(pre.accounts@, b) is Some ==> spec_lookup(post.accounts@, b) is Some,
        forall|p: (Address, U256)|
            spec_lookup(pre.storage@, p) is Some ==> spec_lookup(post.storage@, p) is Some,
        forall|p: (Address, U256)|
            spec_lookup(pre.transient@, p) is Some ==> spec_lookup(post.transient@, p) is Some,
    ensures
        post.journal_wf(),
{
    reveal(JournaledState::wf);
    reveal(JournaledState::view_state);
    assert forall|i: int| 0 <= i < post.journal@.len() implies post.spec_entry_resident(
        #[trigger] post.journal@[i],
    ) by {
        assert(pre.spec_entry_resident(pre.journal@[i]));
        lemma_resident_monotone(pre, post, pre.journal@[i]);
    }
}

/// One journaled mutation re-establishes well-formedness: the caches stay
/// unique and keep every cached key, the new entry is resident and its undo
/// steps the view back, and the entry and the new view are appended.
proof fn lemma_op_step(pre: JournaledState, post: JournaledState, entry: JournalEntry)
    requires
        pre.wf(),
        post.db == pre.db,
        post.marks@ == pre.marks@,
        post.refund == pre.refund,
        post.caches_wf(),
        post.journal@ == pre.journal@.push(entry),
        post.hist@ == pre.hist@.push(post.view_state()),
        spec_undo(post.view_state(), entry) == pre.view_state(),
        post.spec_entry_resident(entry),
        forall|b: Address|
            spec_lookup(pre.accounts@, b) is Some ==> spec_lookup(post.accounts@, b) is Some,
        forall|p: (Address, U256)|
            spec_lookup(pre.storage@, p) is Some ==> spec_lookup(post.storage@, p) is Some,
        forall|p: (Address, U256)|
            spec_lookup(pre.transient@, p) is Some ==> spec_lookup(post.transient@, p) is Some,
    ensures
        post.wf(),
        JournaledState::op_framing(pre, post),
{
    reveal(JournaledState::wf);
    reveal(JournaledState::view_state);
    assert forall|i: int| 0 <= i < post.journal@.len() implies post.spec_entry_resident(
        #[trigger] post.journal@[i],
    ) by {
        if i < pre.journal@.len() {
            assert(post.journal@[i] == pre.journal@[i]);
            assert(pre.spec_entry_resident(pre.journal@[i]));
            lemma_resident_monotone(pre, post, pre.journal@[i]);
        } else {
            assert(post.journal@[i] == entry);
        }
    }
    assert forall|i: int| 0 <= i < post.journal@.len() implies spec_undo(
        post.hist@[i + 1],
        #[trigger] post.journal@[i],
    ) == post.hist@[i] by {
        if i < pre.journal@.len() {
            assert(post.journal@[i] == pre.journal@[i]);
            assert(post.hist@[i] == pre.hist@[i]);
            assert(post.hist@[i + 1] == pre.hist@[i + 1]);
            assert(spec_undo(pre.hist@[i + 1], pre.journal@[i]) == pre.hist@[i]);
        } else {
            assert(post.journal@[i] == entry);
            assert(post.hist@[i + 1] == post.view_state());
            assert(post.hist@[i] == pre.hist@[pre.journal@.len() as int]);
            assert(pre.hist@.last() == pre.view_state());
        }
    }
    assert(post.hist@.last() == post.view_state());
    assert(post.journal@.subrange(0, pre.journal@.len() as int) =~= pre.journal@);
    assert(post.hist@.subrange(0, pre.hist@.len() as int) =~= pre.hist@);
}

} // verus!
