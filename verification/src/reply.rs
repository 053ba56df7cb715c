//! What the engine is asked to do for one key, and what it answers.

use vstd::prelude::*;

use crate::errors::{MvccError, MvccErrorView};
use crate::lock::{LockInfo, LockInfoView};
use crate::old_values::{OldValue, OldValueView};
use crate::results::{KeyResultView, PessimisticLockKeyResult};
use crate::txn::{Modify, ModifyView};
use crate::types::{Context, Key, KeyView, TimeStamp};

verus! {

/// What the engine is asked: to lock one key for a transaction.
#[derive(Debug)]
pub struct LockRequest<'a> {
    pub ctx: &'a Context,
    pub start_ts: TimeStamp,
    pub key: &'a Key,
    pub primary: &'a Vec<u8>,
    pub should_not_exist: bool,
    pub lock_ttl: u64,
    pub for_update_ts: TimeStamp,
    pub need_value: bool,
    pub need_check_existence: bool,
    pub min_commit_ts: TimeStamp,
    pub need_old_value: bool,
    pub lock_only_if_exists: bool,
    pub allow_lock_with_conflict: bool,
    pub is_shared_lock: bool,
}

/// What a [`LockRequest`] holds.
pub struct LockRequestView {
    pub ctx: Seq<u8>,
    pub start_ts: TimeStamp,
    pub key: KeyView,
    pub primary: Seq<u8>,
    pub should_not_exist: bool,
    pub lock_ttl: u64,
    pub for_update_ts: TimeStamp,
    pub need_value: bool,
    pub need_check_existence: bool,
    pub min_commit_ts: TimeStamp,
    pub need_old_value: bool,
    pub lock_only_if_exists: bool,
    pub allow_lock_with_conflict: bool,
    pub is_shared_lock: bool,
}

impl<'a> DeepView for LockRequest<'a> {
    type V = LockRequestView;

    open spec fn deep_view(&self) -> LockRequestView {
        LockRequestView {
            ctx: self.ctx.deep_view(),
            start_ts: self.start_ts,
            key: self.key.deep_view(),
            primary: self.primary@,
            should_not_exist: self.should_not_exist,
            lock_ttl: self.lock_ttl,
            for_update_ts: self.for_update_ts,
            need_value: self.need_value,
            need_check_existence: self.need_check_existence,
            min_commit_ts: self.min_commit_ts,
            need_old_value: self.need_old_value,
            lock_only_if_exists: self.lock_only_if_exists,
            allow_lock_with_conflict: self.allow_lock_with_conflict,
            is_shared_lock: self.is_shared_lock,
        }
    }
}

/// A key that the engine locked.
#[derive(Debug, PartialEq, Eq)]
pub struct Acquired {
    /// What the client is told of the key.
    pub result: PessimisticLockKeyResult,
    /// The value that the key had before, if the engine resolved it.
    pub old_value: Option<OldValue>,
    /// What is to be written for the lock.
    pub modifies: Vec<Modify>,
    /// The locks that are new with it.
    pub new_locks: Vec<LockInfo>,
}

/// What an [`Acquired`] holds.
pub struct AcquiredView {
    pub result: KeyResultView,
    pub old_value: Option<OldValueView>,
    pub modifies: Seq<ModifyView>,
    pub new_locks: Seq<LockInfoView>,
}

impl DeepView for Acquired {
    type V = AcquiredView;

    open spec fn deep_view(&self) -> AcquiredView {
        AcquiredView {
            result: self.result.deep_view(),
            old_value: self.old_value.deep_view(),
            modifies: self.modifies.deep_view(),
            new_locks: self.new_locks.deep_view(),
        }
    }
}

/// What the engine answers. A key that it did not lock leaves nothing to be written.
#[derive(Debug, PartialEq, Eq)]
pub enum LockReply {
    Acquired(Acquired),
    Failed(MvccError),
}

/// What a [`LockReply`] holds.
pub enum LockReplyView {
    Acquired(AcquiredView),
    Failed(MvccErrorView),
}

impl DeepView for LockReply {
    type V = LockReplyView;

    open spec fn deep_view(&self) -> LockReplyView {
        match self {
            LockReply::Acquired(acquired) => LockReplyView::Acquired(acquired.deep_view()),
            LockReply::Failed(error) => LockReplyView::Failed(error.deep_view()),
        }
    }
}

} // verus!
