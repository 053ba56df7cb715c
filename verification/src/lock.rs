//! The locks that keys bear, and how they are reported.

use vstd::prelude::*;

use crate::bytes::copy_bytes;
use crate::types::TimeStamp;

verus! {

/// What a lock was taken for.
#[derive(Clone, Copy, Debug, PartialEq, Eq, Structural)]
pub enum LockType {
    Put,
    Delete,
    Lock,
    Pessimistic,
}

/// The lock of one transaction.
#[derive(Debug, PartialEq, Eq)]
pub struct Lock {
    pub lock_type: LockType,
    /// The primary lock of the transaction.
    pub primary: Vec<u8>,
    /// The timestamp of the transaction.
    pub ts: TimeStamp,
    /// The time to live, in milliseconds.
    pub ttl: u64,
    pub for_update_ts: TimeStamp,
    pub min_commit_ts: TimeStamp,
    /// Whatever else the engine keeps with the lock, in its encoding.
    pub rest: Vec<u8>,
}

/// What a [`Lock`] holds.
pub struct LockView {
    pub lock_type: LockType,
    pub primary: Seq<u8>,
    pub ts: TimeStamp,
    pub ttl: u64,
    pub for_update_ts: TimeStamp,
    pub min_commit_ts: TimeStamp,
    pub rest: Seq<u8>,
}

impl DeepView for Lock {
    type V = LockView;

    open spec fn deep_view(&self) -> LockView {
        LockView {
            lock_type: self.lock_type,
            primary: self.primary@,
            ts: self.ts,
            ttl: self.ttl,
            for_update_ts: self.for_update_ts,
            min_commit_ts: self.min_commit_ts,
            rest: self.rest@,
        }
    }
}

impl Clone for Lock {
    fn clone(&self) -> (copy: Self)
        ensures
            copy.deep_view() == self.deep_view(),
    {
        Lock {
            lock_type: self.lock_type,
            primary: copy_bytes(&self.primary),
            ts: self.ts,
            ttl: self.ttl,
            for_update_ts: self.for_update_ts,
            min_commit_ts: self.min_commit_ts,
            rest: copy_bytes(&self.rest),
        }
    }
}

fn copy_locks(locks: &Vec<Lock>) -> (copy: Vec<Lock>)
    ensures
        copy.deep_view() == locks.deep_view(),
{
    let copy = locks.clone();
    assert(copy.deep_view() =~= locks.deep_view());
    copy
}

/// The shared locks that several transactions hold on one key. Once they are shrink-only, no
/// further transaction may join; those that are in can only leave.
#[derive(Debug, PartialEq, Eq)]
pub struct SharedLocks {
    shrink_only: bool,
    locks: Vec<Lock>,
}

/// What [`SharedLocks`] hold.
pub struct SharedLocksView {
    pub shrink_only: bool,
    pub locks: Seq<LockView>,
}

impl DeepView for SharedLocks {
    type V = SharedLocksView;

    closed spec fn deep_view(&self) -> SharedLocksView {
        SharedLocksView { shrink_only: self.shrink_only, locks: self.locks.deep_view() }
    }
}

impl SharedLocksView {
    /// The same locks, which no further transaction may join.
    pub open spec fn shrunk(self) -> SharedLocksView {
        SharedLocksView { shrink_only: true, locks: self.locks }
    }

    /// How the shared locks on a raw key are reported.
    pub open spec fn lock_info(self, raw_key: Seq<u8>) -> LockInfoView {
        LockInfoView { key: raw_key, holder: LockHolderView::Shared(self.locks) }
    }
}

impl SharedLocks {
    /// The shared locks of the given transactions.
    pub fn new(shrink_only: bool, locks: Vec<Lock>) -> (r: SharedLocks)
        ensures
            r.deep_view() == (SharedLocksView { shrink_only, locks: locks.deep_view() }),
    {
        SharedLocks { shrink_only, locks }
    }

    /// Whether no further transaction may join.
    pub fn is_shrink_only(&self) -> (r: bool)
        ensures
            r == self.deep_view().shrink_only,
    {
        self.shrink_only
    }

    /// The locks of the single transactions.
    pub fn locks(&self) -> (locks: &Vec<Lock>)
        ensures
            locks.deep_view() == self.deep_view().locks,
    {
        &self.locks
    }

    /// Bars further transactions from joining.
    pub fn set_shrink_only(&mut self)
        ensures
            final(self).deep_view() == old(self).deep_view().shrunk(),
            final(self).deep_view().shrink_only,
            final(self).deep_view().locks == old(self).deep_view().locks,
    {
        self.shrink_only = true;
    }

    /// The report of these locks, held on the given raw key.
    pub fn into_lock_info(self, raw_key: Vec<u8>) -> (info: LockInfo)
        ensures
            info.deep_view() == self.deep_view().lock_info(raw_key@),
            info.key == raw_key,
            info.holder.deep_view() == LockHolderView::Shared(self.deep_view().locks),
    {
        LockInfo { key: raw_key, holder: LockHolder::Shared(self.locks) }
    }
}

impl Clone for SharedLocks {
    fn clone(&self) -> (copy: Self)
        ensures
            copy.deep_view() == self.deep_view(),
    {
        SharedLocks { shrink_only: self.shrink_only, locks: copy_locks(&self.locks) }
    }
}

/// Who holds a key.
#[derive(Debug, PartialEq, Eq)]
pub enum LockHolder {
    Exclusive(Lock),
    Shared(Vec<Lock>),
}

/// What a [`LockHolder`] holds.
pub enum LockHolderView {
    Exclusive(LockView),
    Shared(Seq<LockView>),
}

impl DeepView for LockHolder {
    type V = LockHolderView;

    open spec fn deep_view(&self) -> LockHolderView {
        match self {
            LockHolder::Exclusive(lock) => LockHolderView::Exclusive(lock.deep_view()),
            LockHolder::Shared(locks) => LockHolderView::Shared(locks.deep_view()),
        }
    }
}

/// The report of a lock to a client.
#[derive(Debug, PartialEq, Eq)]
pub struct LockInfo {
    /// The raw key.
    pub key: Vec<u8>,
    pub holder: LockHolder,
}

/// What a [`LockInfo`] holds.
pub struct LockInfoView {
    pub key: Seq<u8>,
    pub holder: LockHolderView,
}

impl DeepView for LockInfo {
    type V = LockInfoView;

    open spec fn deep_view(&self) -> LockInfoView {
        LockInfoView { key: self.key@, holder: self.holder.deep_view() }
    }
}

impl LockInfo {
    /// Whether the reported lock is shared.
    pub fn is_shared_lock(&self) -> (r: bool)
        ensures
            r == (self.deep_view().holder is Shared),
            r == (self.holder is Shared),
    {
        match &self.holder {
            LockHolder::Exclusive(_) => false,
            LockHolder::Shared(_) => true,
        }
    }
}

} // verus!
