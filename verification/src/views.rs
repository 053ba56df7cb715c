//! Views show values as they are: each field of a view is the field of that name, and each variant
//! that of the value.

use vstd::prelude::*;

use crate::bytes::optional_bytes;
use crate::command::AcquirePessimisticLock;
use crate::errors::{Error, ErrorView, MvccError, MvccErrorView, StorageError, StorageErrorView};
use crate::lock::{Lock, LockHolder, LockHolderView, LockInfo};
use crate::old_values::{OldValue, OldValueEntry, OldValueView};
use crate::reply::{Acquired, LockReply, LockReplyView, LockRequest};
use crate::results::{
    KeyResultView, PessimisticLockKeyResult, PessimisticLockParameters, PessimisticLockResults,
    ProcessResult, ProcessResultView, WriteResult, WriteResultLockInfo, WriteResultView,
};
use crate::run::result_view;
use crate::txn::{Modify, ModifyView};
use crate::types::{raw_view, Context, KeyError};
use crate::write_data::{TxnExtra, WriteData};

verus! {

/// Byte strings, contexts and key errors are shown as they are.
pub proof fn law_plain_views(
    bytes: Option<Vec<u8>>,
    raw: Result<Vec<u8>, KeyError>,
    error: KeyError,
    context: Context,
)
    ensures
        bytes is None <==> optional_bytes(bytes) is None,
        bytes matches Some(value) ==> optional_bytes(bytes) == Some(value@),
        raw matches Ok(value) ==> raw_view(raw) == Ok::<_, Seq<char>>(value@),
        raw matches Err(error) ==> raw_view(raw) == Err::<Seq<u8>, _>(error.reason@),
        error.deep_view() == error.reason@,
        context.deep_view() == context.encoded@,
{
}

/// A request is shown as it is.
pub proof fn law_command_view(command: AcquirePessimisticLock)
    ensures
        ({
            let view = command.deep_view();
            &&& view.keys.len() == command.keys@.len()
            &&& forall|i: int|
                0 <= i < view.keys.len() ==> {
                    &&& (#[trigger] view.keys[i]).0 == command.keys@[i].0.deep_view()
                    &&& view.keys[i].1 == command.keys@[i].1
                    &&& view.keys[i].2 == command.keys@[i].2
                }
            &&& view.primary == command.primary@
            &&& view.start_ts == command.start_ts
            &&& view.lock_ttl == command.lock_ttl
            &&& view.is_first_lock == command.is_first_lock
            &&& view.for_update_ts == command.for_update_ts
            &&& view.wait_timeout == command.wait_timeout
            &&& view.return_values == command.return_values
            &&& view.min_commit_ts == command.min_commit_ts
            &&& view.check_existence == command.check_existence
            &&& view.lock_only_if_exists == command.lock_only_if_exists
            &&& view.allow_lock_with_conflict == command.allow_lock_with_conflict
            &&& view.skip_locked == command.skip_locked
            &&& view.ctx == command.ctx.encoded@
        }),
{
}

/// What the engine is asked is shown as it is.
pub proof fn law_request_view(request: LockRequest<'_>)
    ensures
        ({
            let view = request.deep_view();
            &&& view.ctx == request.ctx.encoded@
            &&& view.start_ts == request.start_ts
            &&& view.key == request.key.deep_view()
            &&& view.primary == request.primary@
            &&& view.should_not_exist == request.should_not_exist
            &&& view.lock_ttl == request.lock_ttl
            &&& view.for_update_ts == request.for_update_ts
            &&& view.need_value == request.need_value
            &&& view.need_check_existence == request.need_check_existence
            &&& view.min_commit_ts == request.min_commit_ts
            &&& view.need_old_value == request.need_old_value
            &&& view.lock_only_if_exists == request.lock_only_if_exists
            &&& view.allow_lock_with_conflict == request.allow_lock_with_conflict
            &&& view.is_shared_lock == request.is_shared_lock
        }),
{
}

/// What the engine answers is shown as it is.
pub proof fn law_reply_view(reply: LockReply, acquired: Acquired)
    ensures
        reply matches LockReply::Acquired(acquired) ==> reply.deep_view()
            == LockReplyView::Acquired(acquired.deep_view()),
        reply matches LockReply::Failed(error) ==> reply.deep_view() == LockReplyView::Failed(
            error.deep_view(),
        ),
        acquired.deep_view().result == acquired.result.deep_view(),
        acquired.old_value is None <==> acquired.deep_view().old_value is None,
        acquired.old_value matches Some(value) ==> acquired.deep_view().old_value == Some(
            value.deep_view(),
        ),
        acquired.deep_view().modifies == acquired.modifies.deep_view(),
        acquired.deep_view().new_locks == acquired.new_locks.deep_view(),
{
}

/// Locks and their reports are shown as they are.
pub proof fn law_lock_views(lock: Lock, holder: LockHolder, info: LockInfo)
    ensures
        lock.deep_view().lock_type == lock.lock_type,
        lock.deep_view().primary == lock.primary@,
        lock.deep_view().ts == lock.ts,
        lock.deep_view().ttl == lock.ttl,
        lock.deep_view().for_update_ts == lock.for_update_ts,
        lock.deep_view().min_commit_ts == lock.min_commit_ts,
        lock.deep_view().rest == lock.rest@,
        holder matches LockHolder::Exclusive(lock) ==> holder.deep_view()
            == LockHolderView::Exclusive(lock.deep_view()),
        holder matches LockHolder::Shared(locks) ==> holder.deep_view() == LockHolderView::Shared(
            locks.deep_view(),
        ),
        info.deep_view().key == info.key@,
        info.deep_view().holder == info.holder.deep_view(),
{
}

/// Changes and what goes along with them are shown as they are.
pub proof fn law_write_views(modify: Modify, extra: TxnExtra, data: WriteData)
    ensures
        modify matches Modify::PutLock(key, lock) ==> modify.deep_view() == ModifyView::PutLock(
            key.deep_view(),
            lock.deep_view(),
        ),
        modify matches Modify::PutSharedLocks(key, locks) ==> modify.deep_view()
            == ModifyView::PutSharedLocks(key.deep_view(), locks.deep_view()),
        modify matches Modify::Encoded(change) ==> modify.deep_view() == ModifyView::Encoded(
            change@,
        ),
        extra.deep_view().old_values == extra.old_values@,
        extra.deep_view().one_pc == extra.one_pc,
        extra.deep_view().allowed_in_flashback == extra.allowed_in_flashback,
        data.deep_view().modifies == data.modifies.deep_view(),
        data.deep_view().extra == data.extra.deep_view(),
{
}

/// Old values are shown as they are.
pub proof fn law_old_value_views(value: OldValue, entry: OldValueEntry)
    ensures
        value matches OldValue::Value(bytes) ==> value.deep_view() == OldValueView::Value(bytes@),
        value matches OldValue::ValueTimeStamp(ts) ==> value.deep_view()
            == OldValueView::ValueTimeStamp(ts),
        value matches OldValue::Absent ==> value.deep_view() == OldValueView::Absent,
        value matches OldValue::SeekWrite(position) ==> value.deep_view()
            == OldValueView::SeekWrite(position@),
        entry.deep_view().key == entry.key.deep_view(),
        entry.deep_view().start_ts == entry.start_ts,
        entry.deep_view().old_value == entry.old_value.deep_view(),
        entry.deep_view().mutation_type == entry.mutation_type,
{
}

/// Errors are shown as they are.
pub proof fn law_error_views(mvcc_error: MvccError, error: Error, storage_error: StorageError)
    ensures
        mvcc_error matches MvccError::KeyIsLocked(info) ==> mvcc_error.deep_view()
            == MvccErrorView::KeyIsLocked(info.deep_view()),
        mvcc_error matches MvccError::NotInShrinkMode(locks) ==> mvcc_error.deep_view()
            == MvccErrorView::NotInShrinkMode(locks.deep_view()),
        mvcc_error matches MvccError::WriteConflict {
            start_ts,
            conflict_start_ts,
            conflict_commit_ts,
            key,
            primary,
            rest,
        } ==> mvcc_error.deep_view() == (MvccErrorView::WriteConflict {
            start_ts,
            conflict_start_ts,
            conflict_commit_ts,
            key: key@,
            primary: primary@,
            rest: rest@,
        }),
        mvcc_error matches MvccError::Other { description, encoded } ==> mvcc_error.deep_view() == (
        MvccErrorView::Other { description: description@, encoded: encoded@ }),
        error matches Error::Mvcc(mvcc_error) ==> error.deep_view() == ErrorView::Mvcc(
            mvcc_error.deep_view(),
        ),
        error matches Error::Key(key_error) ==> error.deep_view() == ErrorView::Key(
            key_error.reason@,
        ),
        error matches Error::Other(message) ==> error.deep_view() == ErrorView::Other(message@),
        storage_error matches StorageError::Txn(error) ==> storage_error.deep_view()
            == StorageErrorView::Txn(error.deep_view()),
{
}

/// What a client is told of a key is shown as it is.
pub proof fn law_key_result_view(result: PessimisticLockKeyResult)
    ensures
        result matches PessimisticLockKeyResult::Empty ==> result.deep_view()
            == KeyResultView::Empty,
        result matches PessimisticLockKeyResult::Value(None) ==> result.deep_view()
            == KeyResultView::Value(None),
        result matches PessimisticLockKeyResult::Value(Some(value)) ==> result.deep_view()
            == KeyResultView::Value(Some(value@)),
        result matches PessimisticLockKeyResult::Existence(found) ==> result.deep_view()
            == KeyResultView::Existence(found),
        result matches PessimisticLockKeyResult::LockedWithConflict {
            value: None,
            conflict_ts,
        } ==> result.deep_view() == (KeyResultView::LockedWithConflict { value: None, conflict_ts }),
        result matches PessimisticLockKeyResult::LockedWithConflict {
            value: Some(value),
            conflict_ts,
        } ==> result.deep_view() == (KeyResultView::LockedWithConflict {
            value: Some(value@),
            conflict_ts,
        }),
        result matches PessimisticLockKeyResult::Waiting ==> result.deep_view()
            == KeyResultView::Waiting,
        result matches PessimisticLockKeyResult::Skipped ==> result.deep_view()
            == KeyResultView::Skipped,
        result matches PessimisticLockKeyResult::Failed(error) ==> result.deep_view()
            == KeyResultView::Failed(error.deep_view()),
{
}

/// What the lock waiting queue is given is shown as it is.
pub proof fn law_waiting_views(lock: WriteResultLockInfo, parameters: PessimisticLockParameters)
    ensures
        lock.deep_view().lock_info_pb == lock.lock_info_pb.deep_view(),
        lock.deep_view().parameters == lock.parameters.deep_view(),
        lock.deep_view().key == lock.key.deep_view(),
        lock.deep_view().should_not_exist == lock.should_not_exist,
        lock.deep_view().is_shared_lock == lock.is_shared_lock,
        parameters.deep_view().pb_ctx == parameters.pb_ctx.encoded@,
        parameters.deep_view().primary == parameters.primary@,
        parameters.deep_view().start_ts == parameters.start_ts,
        parameters.deep_view().lock_ttl == parameters.lock_ttl,
        parameters.deep_view().for_update_ts == parameters.for_update_ts,
        parameters.deep_view().wait_timeout == parameters.wait_timeout,
        parameters.deep_view().return_values == parameters.return_values,
        parameters.deep_view().min_commit_ts == parameters.min_commit_ts,
        parameters.deep_view().check_existence == parameters.check_existence,
        parameters.deep_view().is_first_lock == parameters.is_first_lock,
        parameters.deep_view().lock_only_if_exists == parameters.lock_only_if_exists,
        parameters.deep_view().allow_lock_with_conflict == parameters.allow_lock_with_conflict,
{
}

/// What a request comes to is shown as it is.
pub proof fn law_result_views(
    results: PessimisticLockResults,
    pr: ProcessResult,
    result: WriteResult,
    outcome: Result<WriteResult, Error>,
)
    ensures
        results.deep_view() == results.0.deep_view(),
        pr matches ProcessResult::PessimisticLockRes { res: Ok(results) } ==> pr.deep_view() == (
        ProcessResultView::PessimisticLockRes { res: Ok(results.0.deep_view()) }),
        pr matches ProcessResult::PessimisticLockRes { res: Err(error) } ==> pr.deep_view() == (
        ProcessResultView::PessimisticLockRes { res: Err(error.deep_view()) }),
        result.deep_view().ctx == result.ctx.encoded@,
        result.deep_view().to_be_write == result.to_be_write.deep_view(),
        result.deep_view().rows == result.rows,
        result.deep_view().pr == result.pr.deep_view(),
        result.deep_view().lock_info == result.lock_info.deep_view(),
        result.deep_view().released_locks == result.released_locks.deep_view(),
        result.deep_view().new_acquired_locks == result.new_acquired_locks.deep_view(),
        result.deep_view().lock_guards == result.lock_guards.deep_view(),
        result.deep_view().response_policy == result.response_policy,
        result.deep_view().known_txn_status == result.known_txn_status@,
        outcome matches Ok(result) ==> result_view(outcome) == Ok::<_, ErrorView>(
            result.deep_view(),
        ),
        outcome matches Err(error) ==> result_view(outcome) == Err::<WriteResultView, _>(
            error.deep_view(),
        ),
{
}

/// What a result says of its keys, and of the lock because of which it failed, is read off it.
pub proof fn law_reading_a_result(pr: ProcessResultView)
    ensures
        pr matches ProcessResultView::PessimisticLockRes { res: Ok(results) } ==> pr.results()
            == Some(results) && pr.key_lock_info() is None,
        pr matches ProcessResultView::PessimisticLockRes { res: Err(error) } ==> {
            &&& pr.results() is None
            &&& error matches StorageErrorView::Txn(ErrorView::Mvcc(MvccErrorView::KeyIsLocked(
                info,
            ))) ==> pr.key_lock_info() == Some(info)
            &&& pr.key_lock_info() matches Some(info) ==> error == StorageErrorView::Txn(
                ErrorView::Mvcc(MvccErrorView::KeyIsLocked(info)),
            )
        },
{
}

} // verus!
