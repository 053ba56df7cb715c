//! What can go wrong while locking keys.

use vstd::prelude::*;

use crate::lock::{LockInfo, LockInfoView, SharedLocks, SharedLocksView};
use crate::types::{KeyError, TimeStamp};

verus! {

/// Why the engine did not lock a key.
#[derive(Debug, PartialEq, Eq)]
pub enum MvccError {
    /// Another transaction holds a lock on the key.
    KeyIsLocked(LockInfo),
    /// Other transactions hold shared locks on the key, which further ones may still join.
    NotInShrinkMode(SharedLocks),
    /// The key was written after the timestamp at which it was to be locked.
    WriteConflict {
        start_ts: TimeStamp,
        conflict_start_ts: TimeStamp,
        conflict_commit_ts: TimeStamp,
        key: Vec<u8>,
        primary: Vec<u8>,
        /// Whatever else the engine reports of the conflict, in its encoding.
        rest: Vec<u8>,
    },
    /// Anything else, as the engine describes and encodes it.
    Other { description: String, encoded: Vec<u8> },
}

/// What an [`MvccError`] holds.
pub enum MvccErrorView {
    KeyIsLocked(LockInfoView),
    NotInShrinkMode(SharedLocksView),
    WriteConflict {
        start_ts: TimeStamp,
        conflict_start_ts: TimeStamp,
        conflict_commit_ts: TimeStamp,
        key: Seq<u8>,
        primary: Seq<u8>,
        rest: Seq<u8>,
    },
    Other { description: Seq<char>, encoded: Seq<u8> },
}

impl DeepView for MvccError {
    type V = MvccErrorView;

    open spec fn deep_view(&self) -> MvccErrorView {
        match self {
            MvccError::KeyIsLocked(info) => MvccErrorView::KeyIsLocked(info.deep_view()),
            MvccError::NotInShrinkMode(locks) => MvccErrorView::NotInShrinkMode(locks.deep_view()),
            MvccError::WriteConflict {
                start_ts,
                conflict_start_ts,
                conflict_commit_ts,
                key,
                primary,
                rest,
            } => MvccErrorView::WriteConflict {
                start_ts: *start_ts,
                conflict_start_ts: *conflict_start_ts,
                conflict_commit_ts: *conflict_commit_ts,
                key: key@,
                primary: primary@,
                rest: rest@,
            },
            MvccError::Other { description, encoded } => MvccErrorView::Other {
                description: description@,
                encoded: encoded@,
            },
        }
    }
}

/// Why a command failed.
#[derive(Debug, PartialEq, Eq)]
pub enum Error {
    /// A key failed.
    Mvcc(MvccError),
    /// A key could not be decoded.
    Key(KeyError),
    /// The command itself is not allowed.
    Other(String),
}

/// What an [`Error`] holds.
pub enum ErrorView {
    Mvcc(MvccErrorView),
    Key(Seq<char>),
    Other(Seq<char>),
}

impl DeepView for Error {
    type V = ErrorView;

    open spec fn deep_view(&self) -> ErrorView {
        match self {
            Error::Mvcc(error) => ErrorView::Mvcc(error.deep_view()),
            Error::Key(error) => ErrorView::Key(error.deep_view()),
            Error::Other(message) => ErrorView::Other(message@),
        }
    }
}

/// What a client is told when its request failed.
#[derive(Debug, PartialEq, Eq)]
pub enum StorageError {
    Txn(Error),
}

/// What a [`StorageError`] holds.
pub enum StorageErrorView {
    Txn(ErrorView),
}

impl DeepView for StorageError {
    type V = StorageErrorView;

    open spec fn deep_view(&self) -> StorageErrorView {
        match self {
            StorageError::Txn(error) => StorageErrorView::Txn(error.deep_view()),
        }
    }
}

impl StorageErrorView {
    /// Another transaction holds the reported lock.
    pub open spec fn key_is_locked(info: LockInfoView) -> StorageErrorView {
        StorageErrorView::Txn(ErrorView::Mvcc(MvccErrorView::KeyIsLocked(info)))
    }
}

impl StorageError {
    /// Another transaction holds the reported lock.
    pub fn key_is_locked(info: LockInfo) -> (error: StorageError)
        ensures
            error.deep_view() == StorageErrorView::key_is_locked(info.deep_view()),
            error == StorageError::Txn(Error::Mvcc(MvccError::KeyIsLocked(info))),
    {
        StorageError::Txn(Error::Mvcc(MvccError::KeyIsLocked(info)))
    }
}

} // verus!
