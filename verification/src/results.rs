//! What a lock request comes to.

use vstd::prelude::*;

use crate::bytes::optional_bytes;
use crate::errors::{Error, ErrorView, MvccError, MvccErrorView, StorageError, StorageErrorView};
use crate::lock::{LockInfo, LockInfoView};
use crate::types::{Context, Key, KeyView, TimeStamp, WaitTimeout};
use crate::write_data::{WriteData, WriteDataView};

verus! {

/// What a client is told of one key.
#[derive(Debug, PartialEq, Eq)]
pub enum PessimisticLockKeyResult {
    /// The key is locked; nothing else was asked for.
    Empty,
    /// The key is locked and has this value, if any.
    Value(Option<Vec<u8>>),
    /// The key is locked, and has a value or not.
    Existence(bool),
    /// The key is locked though it was written since.
    LockedWithConflict { value: Option<Vec<u8>>, conflict_ts: TimeStamp },
    /// The request waits for the key.
    Waiting,
    /// The key is locked by another transaction and was left alone.
    Skipped,
    /// The key could not be locked.
    Failed(StorageError),
}

/// What a [`PessimisticLockKeyResult`] holds.
pub enum KeyResultView {
    Empty,
    Value(Option<Seq<u8>>),
    Existence(bool),
    LockedWithConflict { value: Option<Seq<u8>>, conflict_ts: TimeStamp },
    Waiting,
    Skipped,
    Failed(StorageErrorView),
}

impl DeepView for PessimisticLockKeyResult {
    type V = KeyResultView;

    open spec fn deep_view(&self) -> KeyResultView {
        match self {
            PessimisticLockKeyResult::Empty => KeyResultView::Empty,
            PessimisticLockKeyResult::Value(value) => KeyResultView::Value(optional_bytes(*value)),
            PessimisticLockKeyResult::Existence(found) => KeyResultView::Existence(*found),
            PessimisticLockKeyResult::LockedWithConflict {
                value,
                conflict_ts,
            } => KeyResultView::LockedWithConflict {
                value: optional_bytes(*value),
                conflict_ts: *conflict_ts,
            },
            PessimisticLockKeyResult::Waiting => KeyResultView::Waiting,
            PessimisticLockKeyResult::Skipped => KeyResultView::Skipped,
            PessimisticLockKeyResult::Failed(error) => KeyResultView::Failed(error.deep_view()),
        }
    }
}

/// What a client is told of the keys of its request, in the order in which it named them.
#[derive(Debug, PartialEq, Eq)]
pub struct PessimisticLockResults(pub Vec<PessimisticLockKeyResult>);

impl DeepView for PessimisticLockResults {
    type V = Seq<KeyResultView>;

    open spec fn deep_view(&self) -> Seq<KeyResultView> {
        self.0.deep_view()
    }
}

impl PessimisticLockResults {
    /// No results, with room for the given number.
    pub fn with_capacity(capacity: usize) -> (r: PessimisticLockResults)
        ensures
            r.deep_view() == Seq::<KeyResultView>::empty(),
    {
        let r = PessimisticLockResults(Vec::with_capacity(capacity));
        assert(r.deep_view() =~= Seq::empty());
        r
    }

    /// Adds the result of the next key.
    pub fn push(&mut self, result: PessimisticLockKeyResult)
        ensures
            final(self).deep_view() == old(self).deep_view().push(result.deep_view()),
    {
        self.0.push(result);
        assert(self.deep_view() =~= old(self).deep_view().push(result.deep_view()));
    }

    /// Drops all results.
    pub fn clear(&mut self)
        ensures
            final(self).deep_view() == Seq::<KeyResultView>::empty(),
    {
        self.0.clear();
        assert(self.deep_view() =~= Seq::empty());
    }
}

/// The parameters of a request that waits for a lock, with which it is taken up again.
#[derive(Debug, PartialEq, Eq)]
pub struct PessimisticLockParameters {
    pub pb_ctx: Context,
    pub primary: Vec<u8>,
    pub start_ts: TimeStamp,
    pub lock_ttl: u64,
    pub for_update_ts: TimeStamp,
    pub wait_timeout: Option<WaitTimeout>,
    pub return_values: bool,
    pub min_commit_ts: TimeStamp,
    pub check_existence: bool,
    pub is_first_lock: bool,
    pub lock_only_if_exists: bool,
    pub allow_lock_with_conflict: bool,
}

/// What [`PessimisticLockParameters`] hold.
pub struct ParametersView {
    pub pb_ctx: Seq<u8>,
    pub primary: Seq<u8>,
    pub start_ts: TimeStamp,
    pub lock_ttl: u64,
    pub for_update_ts: TimeStamp,
    pub wait_timeout: Option<WaitTimeout>,
    pub return_values: bool,
    pub min_commit_ts: TimeStamp,
    pub check_existence: bool,
    pub is_first_lock: bool,
    pub lock_only_if_exists: bool,
    pub allow_lock_with_conflict: bool,
}

impl DeepView for PessimisticLockParameters {
    type V = ParametersView;

    open spec fn deep_view(&self) -> ParametersView {
        ParametersView {
            pb_ctx: self.pb_ctx.deep_view(),
            primary: self.primary@,
            start_ts: self.start_ts,
            lock_ttl: self.lock_ttl,
            for_update_ts: self.for_update_ts,
            wait_timeout: self.wait_timeout,
            return_values: self.return_values,
            min_commit_ts: self.min_commit_ts,
            check_existence: self.check_existence,
            is_first_lock: self.is_first_lock,
            lock_only_if_exists: self.lock_only_if_exists,
            allow_lock_with_conflict: self.allow_lock_with_conflict,
        }
    }
}

/// A lock that a request met, and what the lock waiting queue needs to wait for it.
#[derive(Debug, PartialEq, Eq)]
pub struct WriteResultLockInfo {
    pub lock_info_pb: LockInfo,
    pub parameters: PessimisticLockParameters,
    pub key: Key,
    pub should_not_exist: bool,
    pub is_shared_lock: bool,
}

/// What a [`WriteResultLockInfo`] holds.
pub struct WriteResultLockInfoView {
    pub lock_info_pb: LockInfoView,
    pub parameters: ParametersView,
    pub key: KeyView,
    pub should_not_exist: bool,
    pub is_shared_lock: bool,
}

impl DeepView for WriteResultLockInfo {
    type V = WriteResultLockInfoView;

    open spec fn deep_view(&self) -> WriteResultLockInfoView {
        WriteResultLockInfoView {
            lock_info_pb: self.lock_info_pb.deep_view(),
            parameters: self.parameters.deep_view(),
            key: self.key.deep_view(),
            should_not_exist: self.should_not_exist,
            is_shared_lock: self.is_shared_lock,
        }
    }
}

/// What a client is told.
#[derive(Debug, PartialEq, Eq)]
pub enum ProcessResult {
    PessimisticLockRes { res: Result<PessimisticLockResults, StorageError> },
}

/// What a [`ProcessResult`] holds.
pub enum ProcessResultView {
    PessimisticLockRes { res: Result<Seq<KeyResultView>, StorageErrorView> },
}

impl DeepView for ProcessResult {
    type V = ProcessResultView;

    open spec fn deep_view(&self) -> ProcessResultView {
        match self {
            ProcessResult::PessimisticLockRes { res: Ok(
                results,
            ) } => ProcessResultView::PessimisticLockRes { res: Ok(results.deep_view()) },
            ProcessResult::PessimisticLockRes { res: Err(
                error,
            ) } => ProcessResultView::PessimisticLockRes { res: Err(error.deep_view()) },
        }
    }
}

impl ProcessResultView {
    /// The results of the keys, where the request did not fail.
    pub open spec fn results(self) -> Option<Seq<KeyResultView>> {
        match self {
            ProcessResultView::PessimisticLockRes { res: Ok(results) } => Some(results),
            ProcessResultView::PessimisticLockRes { res: Err(_) } => None,
        }
    }

    /// The lock because of which the request failed.
    pub open spec fn key_lock_info(self) -> Option<LockInfoView> {
        match self {
            ProcessResultView::PessimisticLockRes { res: Err(
                StorageErrorView::Txn(ErrorView::Mvcc(MvccErrorView::KeyIsLocked(info))),
            ) } => Some(info),
            _ => None,
        }
    }
}

impl ProcessResult {
    /// The number of bytes that count as sent to the client: the estimated size of the results,
    /// and nothing where the request failed.
    pub fn network_out_bytes<F: FnOnce(&PessimisticLockResults) -> u64>(
        &self,
        estimate_resp_size: F,
    ) -> (bytes: u64)
        requires
            match *self {
                ProcessResult::PessimisticLockRes { res: Ok(results) } => call_requires(
                    estimate_resp_size,
                    (&results,),
                ),
                ProcessResult::PessimisticLockRes { res: Err(_) } => true,
            },
        ensures
            match *self {
                ProcessResult::PessimisticLockRes { res: Ok(results) } => call_ensures(
                    estimate_resp_size,
                    (&results,),
                    bytes,
                ),
                ProcessResult::PessimisticLockRes { res: Err(_) } => bytes == 0,
            },
    {
        match self {
            ProcessResult::PessimisticLockRes { res: Ok(results) } => estimate_resp_size(results),
            ProcessResult::PessimisticLockRes { res: Err(_) } => 0,
        }
    }

    /// The results of the keys, where the request did not fail.
    pub fn results(&self) -> (r: Option<&PessimisticLockResults>)
        ensures
            r.deep_view() == self.deep_view().results(),
            match *self {
                ProcessResult::PessimisticLockRes { res: Ok(results) } => r == Some(&results),
                ProcessResult::PessimisticLockRes { res: Err(_) } => r is None,
            },
    {
        match self {
            ProcessResult::PessimisticLockRes { res: Ok(results) } => Some(results),
            ProcessResult::PessimisticLockRes { res: Err(_) } => None,
        }
    }

    /// The lock because of which the request failed.
    pub fn get_key_lock_info(&self) -> (r: Option<&LockInfo>)
        ensures
            r.deep_view() == self.deep_view().key_lock_info(),
            match *self {
                ProcessResult::PessimisticLockRes { res: Err(
                    StorageError::Txn(Error::Mvcc(MvccError::KeyIsLocked(info))),
                ) } => r == Some(&info),
                _ => r is None,
            },
    {
        match self {
            ProcessResult::PessimisticLockRes { res: Err(
                StorageError::Txn(Error::Mvcc(MvccError::KeyIsLocked(info))),
            ) } => Some(info),
            _ => None,
        }
    }
}

/// When a client is answered.
#[derive(Clone, Copy, Debug, PartialEq, Eq, Structural)]
pub enum ResponsePolicy {
    /// Once the write is applied.
    OnApplied,
    /// Once the write is committed in the log.
    OnCommitted,
    /// As soon as the write is proposed.
    OnProposed,
}

/// What processing a command comes to.
#[derive(Debug, PartialEq, Eq)]
pub struct WriteResult {
    pub ctx: Context,
    pub to_be_write: WriteData,
    /// The number of keys that were dealt with.
    pub rows: usize,
    pub pr: ProcessResult,
    /// The locks to wait for.
    pub lock_info: Vec<WriteResultLockInfo>,
    /// The keys of the locks that the write releases.
    pub released_locks: Vec<Key>,
    /// The locks that the write acquires.
    pub new_acquired_locks: Vec<LockInfo>,
    /// The keys that are guarded in memory until the write is done.
    pub lock_guards: Vec<Key>,
    pub response_policy: ResponsePolicy,
    /// Start and commit timestamps of the transactions that the write settles.
    pub known_txn_status: Vec<(TimeStamp, TimeStamp)>,
}

/// What a [`WriteResult`] holds.
pub struct WriteResultView {
    pub ctx: Seq<u8>,
    pub to_be_write: WriteDataView,
    pub rows: nat,
    pub pr: ProcessResultView,
    pub lock_info: Seq<WriteResultLockInfoView>,
    pub released_locks: Seq<KeyView>,
    pub new_acquired_locks: Seq<LockInfoView>,
    pub lock_guards: Seq<KeyView>,
    pub response_policy: ResponsePolicy,
    pub known_txn_status: Seq<(TimeStamp, TimeStamp)>,
}

impl DeepView for WriteResult {
    type V = WriteResultView;

    open spec fn deep_view(&self) -> WriteResultView {
        WriteResultView {
            ctx: self.ctx.deep_view(),
            to_be_write: self.to_be_write.deep_view(),
            rows: self.rows as nat,
            pr: self.pr.deep_view(),
            lock_info: self.lock_info.deep_view(),
            released_locks: self.released_locks.deep_view(),
            new_acquired_locks: self.new_acquired_locks.deep_view(),
            lock_guards: self.lock_guards.deep_view(),
            response_policy: self.response_policy,
            known_txn_status: self.known_txn_status@,
        }
    }
}

} // verus!
