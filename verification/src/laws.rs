//! What holds of every lock request, whatever the engine answers.

use vstd::prelude::*;

use crate::command::CommandView;
use crate::errors::{ErrorView, MvccErrorView, StorageErrorView};
use crate::lock::{LockHolderView, LockInfoView, SharedLocksView};
use crate::old_values::{OldValueEntryView, OldValuesView};
use crate::outcome::{
    all_modifies, all_new_locks, all_old_values, answer, goes_on, goes_through, is_blocked,
    is_settled, key_result, lemma_answer_completed, lemma_answer_stopped, lemma_goes_through,
    lock_to_wait_for, rejection, stops_at,
};
use crate::reply::LockReplyView;
use crate::results::{KeyResultView, ResponsePolicy, WriteResultView};
use crate::txn::ModifyView;
use crate::types::{KeyView, TimeStamp};
use crate::write_data::WriteDataView;

verus! {

/// Conflicts can be allowed for at most one key, and not together with skipping: a command that
/// asks for either fails, whatever the replies, and any other command is processed.
pub proof fn law_commands_turned_down(command: CommandView, replies: Seq<LockReplyView>)
    ensures
        rejection(command) is Some <==> command.allow_lock_with_conflict && (command.keys.len() > 1
            || command.skip_locked),
        rejection(command) matches Some(error) ==> {
            &&& error is Other
            &&& answer(command, replies) == Err::<WriteResultView, _>(error)
        },
{
}

/// A request that names no key succeeds with no result and writes nothing.
pub proof fn law_no_keys(command: CommandView, replies: Seq<LockReplyView>)
    requires
        command.keys.len() == 0,
        rejection(command) is None,
    ensures
        answer(command, replies) matches Ok(result) && {
            &&& result.pr.results() == Some(Seq::<KeyResultView>::empty())
            &&& result.to_be_write == WriteDataView::nothing()
            &&& result.rows == 0
            &&& result.lock_info.len() == 0
            &&& result.new_acquired_locks.len() == 0
        },
{
    lemma_answer_completed(command, replies);
    assert(replies.take(0) =~= Seq::empty());
    assert(replies.take(0).map_values(|reply: LockReplyView| key_result(reply)) =~= Seq::empty());
}

/// When every key is locked, each result is the one that the engine gave for its key, in the order
/// of the request, and all that the engine wants written is written.
pub proof fn law_all_keys_locked(command: CommandView, replies: Seq<LockReplyView>)
    requires
        rejection(command) is None,
        replies.len() == command.keys.len(),
        forall|i: int| 0 <= i < replies.len() ==> (#[trigger] replies[i]) is Acquired,
    ensures
        answer(command, replies) matches Ok(result) && {
            &&& result.pr.results() matches Some(results) && {
                &&& results.len() == command.keys.len()
                &&& forall|i: int|
                    0 <= i < results.len() ==> #[trigger] results[i]
                        == replies[i]->Acquired_0.result
            }
            &&& result.to_be_write == WriteDataView::of(
                all_modifies(replies),
                all_old_values(command.keys, command.start_ts, replies),
            )
            &&& result.new_acquired_locks == all_new_locks(replies)
            &&& result.lock_info.len() == 0
        },
{
    assert(replies.take(command.keys.len() as int) =~= replies);
    lemma_answer_completed(command, replies);
}

/// With `skip_locked`, a key that others have locked is reported as skipped, at its place among the
/// results, and the other keys are locked as ever. What is written comes from the keys that the
/// engine locked, so the locks of others stay as they are, and nothing is waited for, whether or
/// not the request has a timeout.
pub proof fn law_skip_locked(command: CommandView, replies: Seq<LockReplyView>)
    requires
        rejection(command) is None,
        command.skip_locked,
        replies.len() == command.keys.len(),
        forall|i: int|
            0 <= i < replies.len() ==> (#[trigger] replies[i]) is Acquired || is_blocked(replies[i]),
    ensures
        answer(command, replies) matches Ok(result) && {
            &&& result.pr.results() matches Some(results) && {
                &&& results.len() == command.keys.len()
                &&& forall|i: int|
                    0 <= i < results.len() ==> #[trigger] results[i] == match replies[i] {
                        LockReplyView::Acquired(acquired) => acquired.result,
                        LockReplyView::Failed(_) => KeyResultView::Skipped,
                    }
            }
            &&& result.to_be_write.modifies == all_modifies(replies)
            &&& result.lock_info.len() == 0
            &&& result.rows == command.keys.len()
        },
{
    assert(replies.take(command.keys.len() as int) =~= replies);
    lemma_answer_completed(command, replies);
}

/// With `skip_locked`, locks of others never make a request fail or wait: where it fails, an error
/// of another kind is to blame, and no result has a lock to wait for.
pub proof fn law_skip_locked_never_waits(command: CommandView, replies: Seq<LockReplyView>)
    requires
        rejection(command) is None,
        command.skip_locked,
        is_settled(command, replies),
    ensures
        match answer(command, replies) {
            Ok(result) => {
                &&& result.pr.results() is Some
                &&& result.lock_info.len() == 0
                &&& command.keys.len() <= replies.len()
                &&& result.to_be_write.modifies == all_modifies(
                    replies.take(command.keys.len() as int),
                )
            },
            Err(error) => exists|i: int|
                {
                    &&& 0 <= i < replies.len()
                    &&& (#[trigger] replies[i]) is Failed
                    &&& !is_blocked(replies[i])
                    &&& error == ErrorView::Mvcc(replies[i]->Failed_0)
                },
        },
{
    if exists|i: int| stops_at(command, replies, i) {
        let i = choose|i: int| stops_at(command, replies, i);
        lemma_answer_stopped(command, replies, i);
        assert(replies[i] is Failed && !is_blocked(replies[i]));
    } else {
        lemma_goes_through(command, replies);
        lemma_answer_completed(command, replies);
    }
}

/// The replies for the keys that are not locked by others.
pub open spec fn unblocked_replies(replies: Seq<LockReplyView>) -> Seq<LockReplyView>
    decreases replies.len(),
{
    if replies.len() == 0 {
        replies
    } else if is_blocked(replies.last()) {
        unblocked_replies(replies.drop_last())
    } else {
        unblocked_replies(replies.drop_last()).push(replies.last())
    }
}

/// The keys that are not locked by others.
pub open spec fn unblocked_keys(
    keys: Seq<(KeyView, bool, bool)>,
    replies: Seq<LockReplyView>,
) -> Seq<(KeyView, bool, bool)>
    decreases replies.len(),
{
    if replies.len() == 0 {
        Seq::empty()
    } else if is_blocked(replies.last()) {
        unblocked_keys(keys, replies.drop_last())
    } else {
        unblocked_keys(keys, replies.drop_last()).push(keys[replies.len() - 1])
    }
}

/// Old values do not depend on keys beyond those that have replies.
proof fn lemma_old_values_of_first_keys(
    keys: Seq<(KeyView, bool, bool)>,
    more: Seq<(KeyView, bool, bool)>,
    start_ts: TimeStamp,
    replies: Seq<LockReplyView>,
)
    requires
        replies.len() <= keys.len() <= more.len(),
        more.take(keys.len() as int) == keys,
    ensures
        all_old_values(more, start_ts, replies) == all_old_values(keys, start_ts, replies),
    decreases replies.len(),
{
    if replies.len() > 0 {
        lemma_old_values_of_first_keys(keys, more, start_ts, replies.drop_last());
        assert(more.take(keys.len() as int)[replies.len() - 1] == more[replies.len() - 1]);
    }
}

proof fn lemma_unblocked(
    keys: Seq<(KeyView, bool, bool)>,
    start_ts: TimeStamp,
    replies: Seq<LockReplyView>,
)
    requires
        replies.len() <= keys.len(),
        forall|i: int|
            0 <= i < replies.len() ==> (#[trigger] replies[i]) is Acquired || is_blocked(replies[i]),
    ensures
        unblocked_replies(replies).len() == unblocked_keys(keys, replies).len(),
        forall|i: int|
            0 <= i < unblocked_replies(replies).len() ==> (#[trigger] unblocked_replies(replies)[i])
                is Acquired,
        all_modifies(unblocked_replies(replies)) == all_modifies(replies),
        all_new_locks(unblocked_replies(replies)) == all_new_locks(replies),
        all_old_values(unblocked_keys(keys, replies), start_ts, unblocked_replies(replies))
            == all_old_values(keys, start_ts, replies),
    decreases replies.len(),
{
    if replies.len() == 0 {
        assert(all_old_values(keys, start_ts, replies) == OldValuesView::empty());
    } else {
        let first = replies.drop_last();
        lemma_unblocked(keys, start_ts, first);
        assert(replies.last() == replies[replies.len() - 1]);
        if is_blocked(replies.last()) {
            assert(all_modifies(first) + Seq::<ModifyView>::empty() =~= all_modifies(first));
            assert(all_new_locks(first) + Seq::<LockInfoView>::empty() =~= all_new_locks(first));
        } else {
            let kept = unblocked_replies(first);
            let kept_keys = unblocked_keys(keys, first);
            let key = keys[replies.len() - 1];
            assert(kept.push(replies.last()).drop_last() =~= kept);
            assert(kept_keys.push(key).take(kept_keys.len() as int) =~= kept_keys);
            lemma_old_values_of_first_keys(kept_keys, kept_keys.push(key), start_ts, kept);
        }
    }
}

/// A skipped key leaves no trace: what is written, which locks are new, which old values are
/// recorded and what is told of the other keys is what it would be had the request not named the
/// keys that others have locked.
pub proof fn law_skipped_keys_leave_no_trace(
    command: CommandView,
    replies: Seq<LockReplyView>,
)
    requires
        rejection(command) is None,
        command.skip_locked,
        replies.len() == command.keys.len(),
        forall|i: int|
            0 <= i < replies.len() ==> (#[trigger] replies[i]) is Acquired || is_blocked(replies[i]),
    ensures
        ({
            let fewer = CommandView { keys: unblocked_keys(command.keys, replies), ..command };
            &&& answer(command, replies) matches Ok(result)
            &&& answer(fewer, unblocked_replies(replies)) matches Ok(without)
            &&& result.to_be_write == without.to_be_write
            &&& result.new_acquired_locks == without.new_acquired_locks
            &&& result.lock_info == without.lock_info
            &&& without.pr.results() == Some(
                unblocked_replies(replies).map_values(|reply: LockReplyView| key_result(reply)),
            )
        }),
{
    let kept = unblocked_replies(replies);
    let fewer = CommandView { keys: unblocked_keys(command.keys, replies), ..command };
    lemma_unblocked(command.keys, command.start_ts, replies);
    assert(kept.take(fewer.keys.len() as int) =~= kept);
    lemma_answer_completed(fewer, kept);
    assert(replies.take(command.keys.len() as int) =~= replies);
    lemma_answer_completed(command, replies);
}

/// No key that the engine locked is reported with the given result.
pub open spec fn no_locked_key_told(
    command: CommandView,
    replies: Seq<LockReplyView>,
    told: KeyResultView,
) -> bool {
    forall|i: int|
        0 <= i < replies.len() && i < command.keys.len() ==> (#[trigger] replies[i] matches
            LockReplyView::Acquired(acquired) ==> acquired.result != told)
}

/// The items at whose places the results say anything but that the key was skipped.
pub open spec fn unskipped<A>(items: Seq<A>, results: Seq<KeyResultView>) -> Seq<A>
    decreases results.len(),
{
    if results.len() == 0 {
        Seq::empty()
    } else if results.last() is Skipped {
        unskipped(items, results.drop_last())
    } else {
        unskipped(items, results.drop_last()).push(items[results.len() - 1])
    }
}

/// The skipped keys are those that others have locked.
proof fn lemma_unskipped(
    keys: Seq<(KeyView, bool, bool)>,
    all: Seq<LockReplyView>,
    replies: Seq<LockReplyView>,
)
    requires
        replies.len() <= all.len(),
        all.take(replies.len() as int) == replies,
        forall|i: int|
            0 <= i < replies.len() ==> match #[trigger] replies[i] {
                LockReplyView::Acquired(acquired) => !(acquired.result is Skipped),
                LockReplyView::Failed(_) => is_blocked(replies[i]),
            },
    ensures
        ({
            let results = replies.map_values(|reply: LockReplyView| key_result(reply));
            &&& unskipped(keys, results) == unblocked_keys(keys, replies)
            &&& unskipped(all, results) == unblocked_replies(replies)
            &&& results.filter(|result: KeyResultView| !(result is Skipped)) == unblocked_replies(
                replies,
            ).map_values(|reply: LockReplyView| key_result(reply))
        }),
    decreases replies.len(),
{
    let told = |reply: LockReplyView| key_result(reply);
    let results = replies.map_values(told);
    reveal(Seq::filter);
    if replies.len() == 0 {
        assert(unblocked_replies(replies) =~= Seq::empty());
        assert(unblocked_replies(replies).map_values(told) =~= results.filter(
            |result: KeyResultView| !(result is Skipped),
        ));
    } else {
        let first = replies.drop_last();
        let last = replies.len() - 1;
        assert(all.take(first.len() as int) =~= first);
        lemma_unskipped(keys, all, first);
        assert(results.drop_last() =~= first.map_values(told));
        assert(replies[last] == all.take(replies.len() as int)[last]);
        assert(results.last() == key_result(replies[last]));
        if !is_blocked(replies[last]) {
            assert(unblocked_replies(first).push(replies[last]).map_values(told)
                =~= unblocked_replies(first).map_values(told).push(key_result(replies[last])));
        }
    }
}

/// A request with `skip_locked` that succeeded would have come to the same without the keys that it
/// reports as skipped: the same is written, with the same old values, the same locks are new, and
/// the results are the same but for the skipped ones. That holds of an engine that reports no key
/// as skipped that it locked.
pub proof fn law_request_without_skipped_keys(
    command: CommandView,
    replies: Seq<LockReplyView>,
)
    requires
        rejection(command) is None,
        command.skip_locked,
        replies.len() == command.keys.len(),
        answer(command, replies) is Ok,
        no_locked_key_told(command, replies, KeyResultView::Skipped),
    ensures
        ({
            &&& answer(command, replies) matches Ok(result)
            &&& result.pr.results() matches Some(results)
            &&& answer(
                CommandView { keys: unskipped(command.keys, results), ..command },
                unskipped(replies, results),
            ) matches Ok(without)
            &&& without.to_be_write == result.to_be_write
            &&& without.new_acquired_locks == result.new_acquired_locks
            &&& without.lock_info == result.lock_info
            &&& without.pr.results() == Some(
                results.filter(|result: KeyResultView| !(result is Skipped)),
            )
        }),
{
    if exists|i: int| stops_at(command, replies, i) {
        let i = choose|i: int| stops_at(command, replies, i);
        lemma_answer_stopped(command, replies, i);
    }
    assert(replies.take(command.keys.len() as int) =~= replies);
    lemma_goes_through(command, replies);
    lemma_answer_completed(command, replies);
    assert forall|i: int| 0 <= i < replies.len() implies (#[trigger] replies[i]) is Acquired
        || is_blocked(replies[i]) by {
        assert(goes_on(command, replies[i]));
    }
    law_skipped_keys_leave_no_trace(command, replies);
    assert(replies.take(replies.len() as int) =~= replies);
    lemma_unskipped(command.keys, replies, replies);
}

/// Without `skip_locked`, a request that meets a lock locks nothing: neither the keys before it nor
/// those after it. It waits for that lock if it has a timeout, and otherwise reports the lock, for
/// its one key where conflicts are allowed and as the failure of the whole request elsewhere.
pub proof fn law_met_lock(
    command: CommandView,
    replies: Seq<LockReplyView>,
    i: int,
    info: LockInfoView,
)
    requires
        rejection(command) is None,
        !command.skip_locked,
        0 <= i < replies.len(),
        i < command.keys.len(),
        forall|j: int| 0 <= j < i ==> (#[trigger] replies[j]) is Acquired,
        replies[i] == LockReplyView::Failed(MvccErrorView::KeyIsLocked(info)),
    ensures
        answer(command, replies) matches Ok(result) && {
            &&& result.to_be_write == WriteDataView::nothing()
            &&& result.new_acquired_locks.len() == 0
            &&& command.wait_timeout is Some ==> {
                &&& result.pr.results() == Some(seq![KeyResultView::Waiting])
                &&& result.lock_info == seq![lock_to_wait_for(command, i, info)]
            }
            &&& command.wait_timeout is None ==> {
                &&& result.lock_info.len() == 0
                &&& command.allow_lock_with_conflict ==> result.pr.results() == Some(
                    seq![KeyResultView::Failed(StorageErrorView::key_is_locked(info))],
                )
                &&& !command.allow_lock_with_conflict ==> result.pr.key_lock_info() == Some(info)
            }
        },
{
    assert(goes_through(command, replies.take(i)));
    lemma_answer_stopped(command, replies, i);
}

/// Without `skip_locked`, a request for an exclusive lock that meets shared ones makes them
/// shrink-only, which is all that it writes: the same transactions hold them still. It reports them
/// as its failure and does not wait, even with a timeout.
pub proof fn law_met_shared_locks(
    command: CommandView,
    replies: Seq<LockReplyView>,
    i: int,
    shared_locks: SharedLocksView,
    raw_key: Seq<u8>,
)
    requires
        rejection(command) is None,
        !command.skip_locked,
        0 <= i < replies.len(),
        i < command.keys.len(),
        forall|j: int| 0 <= j < i ==> (#[trigger] replies[j]) is Acquired,
        replies[i] == LockReplyView::Failed(MvccErrorView::NotInShrinkMode(shared_locks)),
        command.keys[i].0.raw == Ok::<_, Seq<char>>(raw_key),
    ensures
        answer(command, replies) matches Ok(result) && {
            &&& result.to_be_write == WriteDataView::plain(
                seq![
                    ModifyView::PutSharedLocks(
                        command.keys[i].0,
                        SharedLocksView { shrink_only: true, locks: shared_locks.locks },
                    ),
                ],
                OldValuesView::empty(),
            )
            &&& result.new_acquired_locks.len() == 0
            &&& result.lock_info.len() == 0
            &&& result.rows == 0
            &&& result.pr.key_lock_info() matches Some(info) && {
                &&& info.key == raw_key
                &&& info.holder == LockHolderView::Shared(shared_locks.locks)
            }
        },
{
    assert(goes_through(command, replies.take(i)));
    lemma_answer_stopped(command, replies, i);
}

/// Without `skip_locked`, a request that meets shared locks on a key that cannot be decoded fails,
/// and writes nothing.
pub proof fn law_met_shared_locks_on_bad_key(
    command: CommandView,
    replies: Seq<LockReplyView>,
    i: int,
    shared_locks: SharedLocksView,
    reason: Seq<char>,
)
    requires
        rejection(command) is None,
        !command.skip_locked,
        0 <= i < replies.len(),
        i < command.keys.len(),
        forall|j: int| 0 <= j < i ==> (#[trigger] replies[j]) is Acquired,
        replies[i] == LockReplyView::Failed(MvccErrorView::NotInShrinkMode(shared_locks)),
        command.keys[i].0.raw == Err::<Seq<u8>, _>(reason),
    ensures
        answer(command, replies) == Err::<WriteResultView, _>(ErrorView::Key(reason)),
{
    assert(goes_through(command, replies.take(i)));
    lemma_answer_stopped(command, replies, i);
}

/// An error that is no lock fails the request, whatever its flags and whatever was locked before.
pub proof fn law_other_errors(
    command: CommandView,
    replies: Seq<LockReplyView>,
    i: int,
    error: MvccErrorView,
)
    requires
        rejection(command) is None,
        0 <= i < replies.len(),
        i < command.keys.len(),
        goes_through(command, replies.take(i)),
        replies[i] == LockReplyView::Failed(error),
        !is_blocked(replies[i]),
    ensures
        answer(command, replies) == Err::<WriteResultView, _>(
            ErrorView::Mvcc(error),
        ),
{
    lemma_answer_stopped(command, replies, i);
}

/// Without `skip_locked` a request is all or nothing: its result writes all that the engine wants
/// written for its keys, each of which is locked, or nothing of it. In the latter case it may make
/// the shared locks on one key shrink-only.
pub proof fn law_all_or_nothing(command: CommandView, replies: Seq<LockReplyView>)
    requires
        rejection(command) is None,
        !command.skip_locked,
        is_settled(command, replies),
    ensures
        answer(command, replies) matches Ok(result) ==> {
            let n = command.keys.len() as int;
            ||| {
                &&& n <= replies.len()
                &&& forall|i: int| 0 <= i < n ==> (#[trigger] replies[i]) is Acquired
                &&& result.to_be_write.modifies == all_modifies(replies.take(n))
                &&& result.new_acquired_locks == all_new_locks(replies.take(n))
                &&& result.pr.results() matches Some(results) && results.len() == n
            }
            ||| {
                &&& result.new_acquired_locks.len() == 0
                &&& result.to_be_write.extra.old_values == OldValuesView::empty()
                &&& result.to_be_write.modifies.len() <= 1
                &&& forall|modify: ModifyView|
                    result.to_be_write.modifies.contains(modify) ==> (modify matches
                        ModifyView::PutSharedLocks(_, shared_locks) && shared_locks.shrink_only)
            }
        },
{
    if exists|i: int| stops_at(command, replies, i) {
        let i = choose|i: int| stops_at(command, replies, i);
        lemma_answer_stopped(command, replies, i);
    } else {
        let n = command.keys.len() as int;
        lemma_goes_through(command, replies);
        lemma_answer_completed(command, replies);
        assert forall|i: int| 0 <= i < n implies (#[trigger] replies[i]) is Acquired by {
            assert(goes_on(command, replies.take(n)[i]));
        }
    }
}

/// There is at most one lock to wait for. Where there is one, the request has a timeout and does
/// not skip, the client is told just that it waits, and nothing is written. The client is told so
/// only then, if the engine does not report a key as waiting that it locked.
pub proof fn law_waiting(command: CommandView, replies: Seq<LockReplyView>)
    requires
        is_settled(command, replies),
    ensures
        answer(command, replies) matches Ok(result) ==> {
            &&& result.lock_info.len() <= 1
            &&& result.lock_info.len() == 1 ==> {
                &&& command.wait_timeout is Some
                &&& !command.skip_locked
                &&& result.pr.results() == Some(seq![KeyResultView::Waiting])
                &&& result.to_be_write == WriteDataView::nothing()
                &&& result.new_acquired_locks.len() == 0
            }
            &&& no_locked_key_told(command, replies, KeyResultView::Waiting) ==> (
            result.lock_info.len() == 1 <==> result.pr.results() == Some(
                seq![KeyResultView::Waiting],
            ))
        },
{
    let waits = seq![KeyResultView::Waiting];
    if rejection(command) is None {
        if exists|i: int| stops_at(command, replies, i) {
            let i = choose|i: int| stops_at(command, replies, i);
            lemma_answer_stopped(command, replies, i);
            if let Ok(result) = answer(command, replies) {
                if let Some(results) = result.pr.results() {
                    assert(results == waits ==> results[0] == waits[0]);
                }
            }
        } else if command.keys.len() > 0 {
            let results = replies.take(command.keys.len() as int).map_values(
                |reply: LockReplyView| key_result(reply),
            );
            assert(results[0] == key_result(replies[0]));
            assert(results == waits ==> results[0] == waits[0]);
        } else {
            assert(waits.len() == 1);
        }
    }
}

/// A result counts all keys of the request if the request did not fail and none if it did, hands
/// the context back, is sent as soon as the write is proposed, and neither releases locks, nor
/// guards keys, nor settles other transactions.
pub proof fn law_every_result(command: CommandView, replies: Seq<LockReplyView>)
    requires
        is_settled(command, replies),
    ensures
        answer(command, replies) matches Ok(result) ==> {
            &&& result.rows == if result.pr.results() is Some {
                command.keys.len()
            } else {
                0
            }
            &&& result.ctx == command.ctx
            &&& result.response_policy == ResponsePolicy::OnProposed
            &&& result.released_locks.len() == 0
            &&& result.lock_guards.len() == 0
            &&& result.known_txn_status.len() == 0
        },
{
    if rejection(command) is None && exists|i: int| stops_at(command, replies, i) {
        let i = choose|i: int| stops_at(command, replies, i);
        lemma_answer_stopped(command, replies, i);
    }
}

/// Old values are written only along with changes, and a transaction that takes locks is neither
/// said to commit in one phase nor allowed while flashing back.
pub proof fn law_old_values_go_with_changes(command: CommandView, replies: Seq<LockReplyView>)
    requires
        is_settled(command, replies),
    ensures
        answer(command, replies) matches Ok(result) ==> {
            &&& result.to_be_write.modifies.len() == 0 ==> result.to_be_write
                == WriteDataView::nothing()
            &&& !result.to_be_write.extra.one_pc
            &&& !result.to_be_write.extra.allowed_in_flashback
        },
{
    if rejection(command) is None && exists|i: int| stops_at(command, replies, i) {
        let i = choose|i: int| stops_at(command, replies, i);
        lemma_answer_stopped(command, replies, i);
    } else {
        assert(all_modifies(Seq::empty()) == Seq::<ModifyView>::empty());
    }
}

/// The reply at index `i` reports an old value of the key that `encoded` encodes.
pub open spec fn reports_old_value(
    keys: Seq<(KeyView, bool, bool)>,
    replies: Seq<LockReplyView>,
    encoded: Seq<u8>,
    i: int,
) -> bool {
    &&& 0 <= i < replies.len()
    &&& keys[i].0.encoded == encoded
    &&& replies[i] matches LockReplyView::Acquired(acquired) && acquired.old_value is Some
}

/// The old values are those that the engine resolved for keys that it locked, under the
/// transaction's timestamp and with no mutation type. For a key that the request names more than
/// once the last one counts.
pub proof fn law_old_values(
    keys: Seq<(KeyView, bool, bool)>,
    start_ts: TimeStamp,
    replies: Seq<LockReplyView>,
    encoded: Seq<u8>,
    ts: TimeStamp,
)
    requires
        replies.len() <= keys.len(),
    ensures
        ({
            let old_values = all_old_values(keys, start_ts, replies);
            &&& old_values.contains_key((encoded, ts)) <==> ts == start_ts && exists|i: int|
                reports_old_value(keys, replies, encoded, i)
            &&& forall|i: int|
                #![trigger reports_old_value(keys, replies, encoded, i)]
                {
                    &&& reports_old_value(keys, replies, encoded, i)
                    &&& forall|j: int| i < j ==> !reports_old_value(keys, replies, encoded, j)
                } ==> old_values[(encoded, start_ts)] == (OldValueEntryView {
                    key: keys[i].0,
                    start_ts,
                    old_value: replies[i]->Acquired_0.old_value->Some_0,
                    mutation_type: None,
                })
        }),
    decreases replies.len(),
{
    if replies.len() > 0 {
        let first = replies.drop_last();
        let last = replies.len() - 1;
        law_old_values(keys, start_ts, first, encoded, ts);
        let earlier = all_old_values(keys, start_ts, first);
        let old_values = all_old_values(keys, start_ts, replies);
        assert forall|i: int| i != last implies #[trigger] reports_old_value(
            keys,
            replies,
            encoded,
            i,
        ) == reports_old_value(keys, first, encoded, i) by {}
        if exists|i: int| reports_old_value(keys, first, encoded, i) {
            let i = choose|i: int| reports_old_value(keys, first, encoded, i);
            assert(reports_old_value(keys, replies, encoded, i));
        }
        if reports_old_value(keys, replies, encoded, last) {
            assert(old_values.contains_key((encoded, start_ts)));
        } else {
            assert(old_values.contains_key((encoded, ts)) == earlier.contains_key((encoded, ts)));
            assert(old_values[(encoded, start_ts)] == earlier[(encoded, start_ts)]);
        }
        assert forall|i: int|
            #![trigger reports_old_value(keys, replies, encoded, i)]
            {
                &&& reports_old_value(keys, replies, encoded, i)
                &&& forall|j: int| i < j ==> !reports_old_value(keys, replies, encoded, j)
            } implies old_values[(encoded, start_ts)] == (OldValueEntryView {
            key: keys[i].0,
            start_ts,
            old_value: replies[i]->Acquired_0.old_value->Some_0,
            mutation_type: None,
        }) by {
            if i != last {
                assert(reports_old_value(keys, first, encoded, i));
                assert forall|j: int| i < j implies !reports_old_value(keys, first, encoded, j) by {
                    assert(j != last ==> !reports_old_value(keys, replies, encoded, j));
                }
                assert(!reports_old_value(keys, replies, encoded, last));
                assert(first[i] == replies[i]);
            }
        }
    }
}

} // verus!
