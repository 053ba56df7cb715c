//! What a request comes to, given what the engine answers for its keys.
//!
//! The engine answers for the keys in the order in which the request names them. Each answer either
//! lets the request go on to the next key or stops it; [`answer`] says what follows in each case.

use vstd::prelude::*;

use crate::command::CommandView;
use crate::errors::{ErrorView, MvccErrorView, StorageErrorView};
use crate::lock::{LockInfoView, SharedLocksView};
use crate::old_values::{with_old_value, OldValuesView};
use crate::reply::{LockReplyView, LockRequestView};
use crate::results::{
    KeyResultView, ParametersView, ProcessResultView, ResponsePolicy, WriteResultLockInfoView,
    WriteResultView,
};
use crate::txn::ModifyView;
use crate::types::{ExtraOp, KeyView, TimeStamp};
use crate::write_data::WriteDataView;

verus! {

/// Why a command is turned down before any key is tried, if it is.
pub open spec fn rejection(command: CommandView) -> Option<ErrorView> {
    if command.allow_lock_with_conflict && command.keys.len() > 1 {
        Some(
            ErrorView::Other(
                "multiple keys in a single request with allowed_lock_with_conflict set is not allowed"@,
            ),
        )
    } else if command.allow_lock_with_conflict && command.skip_locked {
        Some(
            ErrorView::Other(
                "skip_locked together with allow_lock_with_conflict is not allowed"@,
            ),
        )
    } else {
        None
    }
}

/// What the engine is asked for the key at index `i`.
pub open spec fn request_for(
    command: CommandView,
    extra_op: ExtraOp,
    i: int,
) -> LockRequestView {
    LockRequestView {
        ctx: command.ctx,
        start_ts: command.start_ts,
        key: command.keys[i].0,
        primary: command.primary,
        should_not_exist: command.keys[i].1,
        lock_ttl: command.lock_ttl,
        for_update_ts: command.for_update_ts,
        need_value: command.return_values,
        need_check_existence: command.check_existence,
        min_commit_ts: command.min_commit_ts,
        need_old_value: extra_op == ExtraOp::ReadOldValue,
        lock_only_if_exists: command.lock_only_if_exists,
        allow_lock_with_conflict: command.allow_lock_with_conflict,
        is_shared_lock: command.keys[i].2,
    }
}

/// Locks of other transactions keep the key from being locked.
pub open spec fn is_blocked(reply: LockReplyView) -> bool {
    ||| reply matches LockReplyView::Failed(MvccErrorView::KeyIsLocked(_))
    ||| reply matches LockReplyView::Failed(MvccErrorView::NotInShrinkMode(_))
}

/// The request goes on after this reply: the key is locked, or is left alone.
pub open spec fn goes_on(command: CommandView, reply: LockReplyView) -> bool {
    reply is Acquired || (command.skip_locked && is_blocked(reply))
}

/// The request goes on after each of these replies.
pub open spec fn goes_through(command: CommandView, replies: Seq<LockReplyView>) -> bool {
    forall|i: int| 0 <= i < replies.len() ==> goes_on(command, #[trigger] replies[i])
}

/// The reply for the key at index `i` is the first that stops the request.
pub open spec fn stops_at(command: CommandView, replies: Seq<LockReplyView>, i: int) -> bool {
    &&& 0 <= i < replies.len()
    &&& i < command.keys.len()
    &&& !goes_on(command, replies[i])
    &&& goes_through(command, replies.take(i))
}

/// Nothing is left to ask the engine: the command was turned down, a reply stopped it, or every
/// key has its reply.
pub open spec fn is_settled(command: CommandView, replies: Seq<LockReplyView>) -> bool {
    ||| rejection(command) is Some
    ||| exists|i: int| stops_at(command, replies, i)
    ||| command.keys.len() <= replies.len()
}

/// What the client is told of a key after whose reply the request goes on.
pub open spec fn key_result(reply: LockReplyView) -> KeyResultView {
    match reply {
        LockReplyView::Acquired(acquired) => acquired.result,
        LockReplyView::Failed(_) => KeyResultView::Skipped,
    }
}

/// What is written for one reply.
pub open spec fn reply_modifies(reply: LockReplyView) -> Seq<ModifyView> {
    match reply {
        LockReplyView::Acquired(acquired) => acquired.modifies,
        LockReplyView::Failed(_) => Seq::empty(),
    }
}

/// The locks that are new with one reply.
pub open spec fn reply_new_locks(reply: LockReplyView) -> Seq<LockInfoView> {
    match reply {
        LockReplyView::Acquired(acquired) => acquired.new_locks,
        LockReplyView::Failed(_) => Seq::empty(),
    }
}

/// What is written for all replies, one after the other.
pub open spec fn all_modifies(replies: Seq<LockReplyView>) -> Seq<ModifyView>
    decreases replies.len(),
{
    if replies.len() == 0 {
        Seq::empty()
    } else {
        all_modifies(replies.drop_last()) + reply_modifies(replies.last())
    }
}

/// The locks that are new with all replies, one after the other.
pub open spec fn all_new_locks(replies: Seq<LockReplyView>) -> Seq<LockInfoView>
    decreases replies.len(),
{
    if replies.len() == 0 {
        Seq::empty()
    } else {
        all_new_locks(replies.drop_last()) + reply_new_locks(replies.last())
    }
}

/// The old values that the replies report. What is done to the keys later is not known yet, so no
/// old value has a mutation type.
pub open spec fn all_old_values(
    keys: Seq<(KeyView, bool, bool)>,
    start_ts: TimeStamp,
    replies: Seq<LockReplyView>,
) -> OldValuesView
    decreases replies.len(),
{
    if replies.len() == 0 {
        OldValuesView::empty()
    } else {
        let earlier = all_old_values(keys, start_ts, replies.drop_last());
        match replies.last() {
            LockReplyView::Acquired(acquired) => with_old_value(
                earlier,
                keys[replies.len() - 1].0,
                start_ts,
                acquired.old_value,
                None,
            ),
            LockReplyView::Failed(_) => earlier,
        }
    }
}

/// A result that neither releases locks, nor guards keys, nor settles other transactions.
pub open spec fn result_of(
    command: CommandView,
    to_be_write: WriteDataView,
    res: Result<Seq<KeyResultView>, StorageErrorView>,
    lock_info: Seq<WriteResultLockInfoView>,
    new_acquired_locks: Seq<LockInfoView>,
) -> WriteResultView {
    WriteResultView {
        ctx: command.ctx,
        to_be_write,
        rows: if res is Ok {
            command.keys.len()
        } else {
            0
        },
        pr: ProcessResultView::PessimisticLockRes { res },
        lock_info,
        released_locks: Seq::empty(),
        new_acquired_locks,
        lock_guards: Seq::empty(),
        response_policy: ResponsePolicy::OnProposed,
        known_txn_status: Seq::empty(),
    }
}

/// The request went through all keys.
pub open spec fn completed(command: CommandView, replies: Seq<LockReplyView>) -> WriteResultView {
    result_of(
        command,
        WriteDataView::of(
            all_modifies(replies),
            all_old_values(command.keys, command.start_ts, replies),
        ),
        Ok(replies.map_values(|reply: LockReplyView| key_result(reply))),
        Seq::empty(),
        all_new_locks(replies),
    )
}

/// The parameters with which the request is taken up again.
pub open spec fn parameters_of(command: CommandView) -> ParametersView {
    ParametersView {
        pb_ctx: command.ctx,
        primary: command.primary,
        start_ts: command.start_ts,
        lock_ttl: command.lock_ttl,
        for_update_ts: command.for_update_ts,
        wait_timeout: command.wait_timeout,
        return_values: command.return_values,
        min_commit_ts: command.min_commit_ts,
        check_existence: command.check_existence,
        is_first_lock: command.is_first_lock,
        lock_only_if_exists: command.lock_only_if_exists,
        allow_lock_with_conflict: command.allow_lock_with_conflict,
    }
}

/// What the lock waiting queue needs to wait for the lock on the key at index `i`.
pub open spec fn lock_to_wait_for(
    command: CommandView,
    i: int,
    info: LockInfoView,
) -> WriteResultLockInfoView {
    WriteResultLockInfoView {
        lock_info_pb: info,
        parameters: parameters_of(command),
        key: command.keys[i].0,
        should_not_exist: command.keys[i].1,
        is_shared_lock: command.keys[i].2,
    }
}

/// The request met a lock on the key at index `i`. Nothing is written. A request that may wait
/// does so; another one fails, as a whole or, if conflicts are allowed, at its one key.
pub open spec fn held_up(command: CommandView, i: int, info: LockInfoView) -> WriteResultView {
    let error = StorageErrorView::key_is_locked(info);
    if command.wait_timeout is Some {
        result_of(
            command,
            WriteDataView::nothing(),
            Ok(seq![KeyResultView::Waiting]),
            seq![lock_to_wait_for(command, i, info)],
            Seq::empty(),
        )
    } else {
        result_of(
            command,
            WriteDataView::nothing(),
            if command.allow_lock_with_conflict {
                Ok(seq![KeyResultView::Failed(error)])
            } else {
                Err(error)
            },
            Seq::empty(),
            Seq::empty(),
        )
    }
}

/// The request met shared locks on the key at index `i`. That they are shrink-only from now on is
/// all that is written, and the request fails.
pub open spec fn shut_shared_locks(
    command: CommandView,
    i: int,
    shared_locks: SharedLocksView,
) -> Result<WriteResultView, ErrorView> {
    match command.keys[i].0.raw {
        Ok(raw_key) => Ok(
            result_of(
                command,
                WriteDataView::plain(
                    seq![ModifyView::PutSharedLocks(command.keys[i].0, shared_locks.shrunk())],
                    OldValuesView::empty(),
                ),
                Err(StorageErrorView::key_is_locked(shared_locks.lock_info(raw_key))),
                Seq::empty(),
                Seq::empty(),
            ),
        ),
        Err(reason) => Err(ErrorView::Key(reason)),
    }
}

/// The error for the key at index `i` stopped the request. Errors other than locks fail it.
pub open spec fn stopped(
    command: CommandView,
    i: int,
    error: MvccErrorView,
) -> Result<WriteResultView, ErrorView> {
    match error {
        MvccErrorView::KeyIsLocked(info) => Ok(held_up(command, i, info)),
        MvccErrorView::NotInShrinkMode(shared_locks) => shut_shared_locks(
            command,
            i,
            shared_locks,
        ),
        _ => Err(ErrorView::Mvcc(error)),
    }
}

/// What a command comes to with the given replies, which settle it. Replies beyond those that
/// settle it do not count.
pub open spec fn answer(
    command: CommandView,
    replies: Seq<LockReplyView>,
) -> Result<WriteResultView, ErrorView> {
    match rejection(command) {
        Some(error) => Err(error),
        None => if exists|i: int| stops_at(command, replies, i) {
            let i = choose|i: int| stops_at(command, replies, i);
            stopped(command, i, replies[i]->Failed_0)
        } else {
            Ok(completed(command, replies.take(command.keys.len() as int)))
        },
    }
}

/// At most one reply stops a request.
pub proof fn lemma_stops_once(command: CommandView, replies: Seq<LockReplyView>, i: int, j: int)
    requires
        stops_at(command, replies, i),
        stops_at(command, replies, j),
    ensures
        i == j,
{
    if i < j {
        assert(replies.take(j)[i] == replies[i]);
    }
    if j < i {
        assert(replies.take(i)[j] == replies[j]);
    }
}

/// What a command comes to once the reply for the key at index `i` has stopped it.
pub proof fn lemma_answer_stopped(command: CommandView, replies: Seq<LockReplyView>, i: int)
    requires
        rejection(command) is None,
        stops_at(command, replies, i),
    ensures
        answer(command, replies) == stopped(command, i, replies[i]->Failed_0),
{
    let chosen = choose|j: int| stops_at(command, replies, j);
    lemma_stops_once(command, replies, i, chosen);
}

/// What a command comes to when none of the replies for its keys stops it.
pub proof fn lemma_answer_completed(command: CommandView, replies: Seq<LockReplyView>)
    requires
        rejection(command) is None,
        command.keys.len() <= replies.len(),
        goes_through(command, replies.take(command.keys.len() as int)),
    ensures
        forall|i: int| !stops_at(command, replies, i),
        answer(command, replies) == Ok::<_, ErrorView>(
            completed(command, replies.take(command.keys.len() as int)),
        ),
{
    assert forall|i: int| !stops_at(command, replies, i) by {
        if 0 <= i < command.keys.len() {
            assert(replies.take(command.keys.len() as int)[i] == replies[i]);
        }
    }
}

/// Replies that settle a command are the last that count: with any further ones it comes to the
/// same.
pub proof fn lemma_settled_for_good(
    command: CommandView,
    replies: Seq<LockReplyView>,
    further: Seq<LockReplyView>,
)
    requires
        is_settled(command, replies),
    ensures
        is_settled(command, replies + further),
        answer(command, replies + further) == answer(command, replies),
{
    let all = replies + further;
    if rejection(command) is None {
        if exists|i: int| stops_at(command, replies, i) {
            let i = choose|i: int| stops_at(command, replies, i);
            assert(all.take(i) =~= replies.take(i));
            assert(stops_at(command, all, i));
            lemma_answer_stopped(command, all, i);
        } else {
            let n = command.keys.len() as int;
            assert(all.take(n) =~= replies.take(n));
            lemma_goes_through(command, replies);
            lemma_answer_completed(command, all);
        }
    }
}

/// A command whose keys all have replies goes through them unless one stops it.
pub proof fn lemma_goes_through(command: CommandView, replies: Seq<LockReplyView>)
    requires
        command.keys.len() <= replies.len(),
        forall|i: int| !stops_at(command, replies, i),
    ensures
        goes_through(command, replies.take(command.keys.len() as int)),
{
    lemma_goes_through_first(command, replies, command.keys.len());
}

proof fn lemma_goes_through_first(command: CommandView, replies: Seq<LockReplyView>, n: nat)
    requires
        n <= command.keys.len() <= replies.len(),
        forall|i: int| !stops_at(command, replies, i),
    ensures
        goes_through(command, replies.take(n as int)),
    decreases n,
{
    if n > 0 {
        lemma_goes_through_first(command, replies, (n - 1) as nat);
        assert(!stops_at(command, replies, n - 1));
        assert forall|i: int| 0 <= i < n implies goes_on(
            command,
            #[trigger] replies.take(n as int)[i],
        ) by {
            if i < n - 1 {
                assert(replies.take(n - 1)[i] == replies.take(n as int)[i]);
            }
        }
    }
}

} // verus!
