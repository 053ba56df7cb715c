//! What a transaction is going to write.

use vstd::prelude::*;

use crate::lock::{Lock, LockInfo, LockInfoView, LockView, SharedLocks, SharedLocksView};
use crate::types::{Key, KeyView, TimeStamp};

verus! {

/// One change of what is stored.
#[derive(Debug, PartialEq, Eq)]
pub enum Modify {
    /// The key bears this lock.
    PutLock(Key, Lock),
    /// The key bears these shared locks.
    PutSharedLocks(Key, SharedLocks),
    /// Any other change, in the engine's encoding.
    Encoded(Vec<u8>),
}

/// What a [`Modify`] holds.
pub enum ModifyView {
    PutLock(KeyView, LockView),
    PutSharedLocks(KeyView, SharedLocksView),
    Encoded(Seq<u8>),
}

impl DeepView for Modify {
    type V = ModifyView;

    open spec fn deep_view(&self) -> ModifyView {
        match self {
            Modify::PutLock(key, lock) => ModifyView::PutLock(key.deep_view(), lock.deep_view()),
            Modify::PutSharedLocks(key, locks) => ModifyView::PutSharedLocks(
                key.deep_view(),
                locks.deep_view(),
            ),
            Modify::Encoded(change) => ModifyView::Encoded(change@),
        }
    }
}

/// The changes that a transaction has gathered, and the locks that are new with them.
#[derive(Debug)]
pub struct MvccTxn {
    start_ts: TimeStamp,
    modifies: Vec<Modify>,
    new_locks: Vec<LockInfo>,
}

/// What an [`MvccTxn`] holds.
pub struct MvccTxnView {
    pub start_ts: TimeStamp,
    pub modifies: Seq<ModifyView>,
    pub new_locks: Seq<LockInfoView>,
}

impl DeepView for MvccTxn {
    type V = MvccTxnView;

    closed spec fn deep_view(&self) -> MvccTxnView {
        MvccTxnView {
            start_ts: self.start_ts,
            modifies: self.modifies.deep_view(),
            new_locks: self.new_locks.deep_view(),
        }
    }
}

impl MvccTxnView {
    /// The transaction with nothing gathered.
    pub open spec fn empty(start_ts: TimeStamp) -> MvccTxnView {
        MvccTxnView { start_ts, modifies: Seq::empty(), new_locks: Seq::empty() }
    }
}

impl MvccTxn {
    /// A transaction that has gathered nothing yet.
    pub fn new(start_ts: TimeStamp) -> (txn: MvccTxn)
        ensures
            txn.deep_view() == MvccTxnView::empty(start_ts),
            txn.deep_view().start_ts == start_ts,
            txn.deep_view().modifies.len() == 0,
            txn.deep_view().new_locks.len() == 0,
    {
        let txn = MvccTxn { start_ts, modifies: Vec::new(), new_locks: Vec::new() };
        assert(txn.modifies.deep_view() =~= Seq::empty());
        assert(txn.new_locks.deep_view() =~= Seq::empty());
        txn
    }

    /// The timestamp of the transaction.
    pub fn start_ts(&self) -> (start_ts: TimeStamp)
        ensures
            start_ts == self.deep_view().start_ts,
    {
        self.start_ts
    }

    /// Adds what locking one key changes.
    pub fn extend(&mut self, modifies: Vec<Modify>, new_locks: Vec<LockInfo>)
        ensures
            final(self).deep_view() == (MvccTxnView {
                start_ts: old(self).deep_view().start_ts,
                modifies: old(self).deep_view().modifies + modifies.deep_view(),
                new_locks: old(self).deep_view().new_locks + new_locks.deep_view(),
            }),
    {
        let mut modifies = modifies;
        let mut new_locks = new_locks;
        let ghost added_modifies = modifies;
        let ghost added_locks = new_locks;
        self.modifies.append(&mut modifies);
        self.new_locks.append(&mut new_locks);
        assert(self.modifies.deep_view() =~= old(self).modifies.deep_view()
            + added_modifies.deep_view());
        assert(self.new_locks.deep_view() =~= old(self).new_locks.deep_view()
            + added_locks.deep_view());
    }

    /// Writes the shared locks of a key back. They are not new.
    pub fn put_shared_locks(&mut self, key: Key, shared_locks: &SharedLocks)
        ensures
            final(self).deep_view() == (MvccTxnView {
                modifies: old(self).deep_view().modifies.push(
                    ModifyView::PutSharedLocks(key.deep_view(), shared_locks.deep_view()),
                ),
                ..old(self).deep_view()
            }),
    {
        self.modifies.push(Modify::PutSharedLocks(key, shared_locks.clone()));
        assert(self.modifies.deep_view() =~= old(self).modifies.deep_view().push(
            ModifyView::PutSharedLocks(key.deep_view(), shared_locks.deep_view()),
        ));
    }

    /// Forgets all that was gathered.
    pub fn clear(&mut self)
        ensures
            final(self).deep_view() == MvccTxnView::empty(old(self).deep_view().start_ts),
            final(self).deep_view().start_ts == old(self).deep_view().start_ts,
            final(self).deep_view().modifies.len() == 0,
            final(self).deep_view().new_locks.len() == 0,
    {
        self.modifies.clear();
        self.new_locks.clear();
        assert(self.modifies.deep_view() =~= Seq::empty());
        assert(self.new_locks.deep_view() =~= Seq::empty());
    }

    /// The changes, in the order in which they were gathered, and the new locks.
    pub fn into_parts(self) -> (parts: (Vec<Modify>, Vec<LockInfo>))
        ensures
            parts.0.deep_view() == self.deep_view().modifies,
            parts.1.deep_view() == self.deep_view().new_locks,
    {
        (self.modifies, self.new_locks)
    }
}

} // verus!
