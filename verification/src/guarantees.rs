//! What a request comes to, said of its fields, the replies and the result alone.
//!
//! Each law takes a command and the replies for its keys as they are, and says what each field of
//! the result is. Together they cover every command and all replies that settle it.

use vstd::prelude::*;

use crate::command::{encoded_size, CommandView};
use crate::errors::{ErrorView, MvccErrorView, StorageErrorView};
use crate::lock::{LockHolderView, LockInfoView, SharedLocksView};
use crate::old_values::{
    entry_map, found_at, found_once, with_old_value, MutationType, OldValueEntry,
    OldValueEntryView, OldValueView, OldValuesView,
};
use crate::laws::{law_old_values, reports_old_value};
use crate::outcome::{
    all_modifies, all_new_locks, all_old_values, answer, goes_on, goes_through, is_settled,
    key_result, lemma_answer_completed, lemma_answer_stopped, request_for, stops_at,
};
use crate::reply::LockReplyView;
use crate::results::{KeyResultView, ProcessResultView, ResponsePolicy, WriteResultView};
use crate::run::LockRun;
use crate::txn::ModifyView;
use crate::types::{ExtraOp, KeyView, TimeStamp};
use crate::write_data::WriteDataView;

verus! {

/// A command that allows conflicts for more than one key, or together with skipping, fails with the
/// message that says so, whatever the replies.
pub proof fn law_forbidden_flags(command: CommandView, replies: Seq<LockReplyView>)
    requires
        command.allow_lock_with_conflict,
        command.keys.len() > 1 || command.skip_locked,
    ensures
        is_settled(command, replies),
        command.keys.len() > 1 ==> answer(command, replies) == Err::<WriteResultView, _>(
            ErrorView::Other(
                "multiple keys in a single request with allowed_lock_with_conflict set is not allowed"@,
            ),
        ),
        command.keys.len() <= 1 ==> answer(command, replies) == Err::<WriteResultView, _>(
            ErrorView::Other(
                "skip_locked together with allow_lock_with_conflict is not allowed"@,
            ),
        ),
{
}

/// What the engine is asked for a key is what the request says: the key with its own two flags, and
/// the request's flags, timestamps and primary. Old values are asked for if the server wants them.
pub proof fn law_what_the_engine_is_asked(command: CommandView, extra_op: ExtraOp, i: int)
    requires
        0 <= i < command.keys.len(),
    ensures
        ({
            let request = request_for(command, extra_op, i);
            &&& request.key == command.keys[i].0
            &&& request.should_not_exist == command.keys[i].1
            &&& request.is_shared_lock == command.keys[i].2
            &&& request.need_value == command.return_values
            &&& request.need_check_existence == command.check_existence
            &&& request.lock_only_if_exists == command.lock_only_if_exists
            &&& request.allow_lock_with_conflict == command.allow_lock_with_conflict
            &&& request.lock_ttl == command.lock_ttl
            &&& request.start_ts == command.start_ts
            &&& request.for_update_ts == command.for_update_ts
            &&& request.min_commit_ts == command.min_commit_ts
            &&& request.primary == command.primary
            &&& request.ctx == command.ctx
            &&& request.need_old_value <==> extra_op == ExtraOp::ReadOldValue
        }),
{
}

/// The engine owes a reply for the next key exactly as long as the command is allowed, a key is
/// left, and every reply so far locked its key or, with `skip_locked`, reported locks of others.
pub proof fn law_when_a_reply_is_owed(command: CommandView, replies: Seq<LockReplyView>)
    ensures
        !is_settled(command, replies) <==> {
            &&& !(command.allow_lock_with_conflict && (command.keys.len() > 1
                || command.skip_locked))
            &&& replies.len() < command.keys.len()
            &&& forall|i: int|
                0 <= i < replies.len() ==> match #[trigger] replies[i] {
                    LockReplyView::Acquired(_) => true,
                    LockReplyView::Failed(error) => command.skip_locked && (error is KeyIsLocked
                        || error is NotInShrinkMode),
                }
        },
{
    let passes = |i: int|
        match replies[i] {
            LockReplyView::Acquired(_) => true,
            LockReplyView::Failed(error) => command.skip_locked && (error is KeyIsLocked || error is
                NotInShrinkMode),
        };
    assert forall|i: int| 0 <= i < replies.len() implies goes_on(command, #[trigger] replies[i])
        == passes(i) by {}
    if replies.len() < command.keys.len() {
        if goes_through(command, replies) {
            assert forall|i: int| !stops_at(command, replies, i) by {}
        } else {
            assert(replies.take(replies.len() as int) =~= replies);
            lemma_some_reply_stops(command, replies, replies.len());
        }
    }
}

/// If the request does not go through the first `n` replies, one of them stops it.
proof fn lemma_some_reply_stops(command: CommandView, replies: Seq<LockReplyView>, n: nat)
    requires
        n <= replies.len() <= command.keys.len(),
        !goes_through(command, replies.take(n as int)),
    ensures
        exists|i: int| stops_at(command, replies, i),
    decreases n,
{
    if n > 0 {
        let first = replies.take(n - 1);
        if goes_through(command, first) {
            assert(forall|i: int| 0 <= i < n - 1 ==> replies.take(n as int)[i] == first[i]);
            assert(!goes_on(command, replies[n - 1]));
            assert(stops_at(command, replies, n - 1));
        } else {
            lemma_some_reply_stops(command, replies, (n - 1) as nat);
        }
    }
}

/// A command that is being processed awaits a reply exactly as long as the engine owes one.
pub proof fn law_run_awaits_what_is_owed(run: LockRun)
    ensures
        run.awaits_reply() <==> {
            let command = run.command();
            let replies = run.replies();
            &&& !(command.allow_lock_with_conflict && (command.keys.len() > 1
                || command.skip_locked))
            &&& replies.len() < command.keys.len()
            &&& forall|i: int|
                0 <= i < replies.len() ==> match #[trigger] replies[i] {
                    LockReplyView::Acquired(_) => true,
                    LockReplyView::Failed(error) => command.skip_locked && (error is KeyIsLocked
                        || error is NotInShrinkMode),
                }
        },
{
    law_when_a_reply_is_owed(run.command(), run.replies());
}

/// What all replies want written is what those that locked their keys want written.
proof fn lemma_written(replies: Seq<LockReplyView>)
    ensures
        all_modifies(replies) == replies.filter(
            |reply: LockReplyView| reply is Acquired,
        ).map_values(|reply: LockReplyView| reply->Acquired_0.modifies).flatten(),
        all_new_locks(replies) == replies.filter(
            |reply: LockReplyView| reply is Acquired,
        ).map_values(|reply: LockReplyView| reply->Acquired_0.new_locks).flatten(),
    decreases replies.len(),
{
    reveal(Seq::filter);
    let locked = |reply: LockReplyView| reply is Acquired;
    let modifies = |reply: LockReplyView| reply->Acquired_0.modifies;
    let new_locks = |reply: LockReplyView| reply->Acquired_0.new_locks;
    if replies.len() == 0 {
        assert(replies.filter(locked).map_values(modifies) =~= Seq::empty());
        assert(replies.filter(locked).map_values(new_locks) =~= Seq::empty());
    } else {
        let first = replies.drop_last();
        let last = replies.last();
        lemma_written(first);
        let kept = first.filter(locked);
        if last is Acquired {
            assert(kept.push(last).map_values(modifies) =~= kept.map_values(modifies).push(
                modifies(last),
            ));
            assert(kept.push(last).map_values(new_locks) =~= kept.map_values(new_locks).push(
                new_locks(last),
            ));
            kept.map_values(modifies).lemma_flatten_push(modifies(last));
            kept.map_values(new_locks).lemma_flatten_push(new_locks(last));
        } else {
            assert(all_modifies(first) + Seq::<ModifyView>::empty() =~= all_modifies(first));
            assert(all_new_locks(first) + Seq::<LockInfoView>::empty() =~= all_new_locks(first));
        }
    }
}

/// Where every reply locked its key, none is left out.
proof fn lemma_all_locked(replies: Seq<LockReplyView>)
    requires
        forall|i: int| 0 <= i < replies.len() ==> (#[trigger] replies[i]) is Acquired,
    ensures
        replies.filter(|reply: LockReplyView| reply is Acquired) == replies,
    decreases replies.len(),
{
    reveal(Seq::filter);
    if replies.len() > 0 {
        lemma_all_locked(replies.drop_last());
        assert(replies.last() == replies[replies.len() - 1]);
        assert(replies.drop_last().push(replies.last()) =~= replies);
    }
}

/// A request all of whose keys the engine locks writes exactly what the engine wants written for
/// them, one key after the other, whatever the client is told of the keys: each lock that the client
/// is told of is written. The new locks are those of the replies, and the client is told of each
/// key what the engine says.
pub proof fn law_locked_keys_are_written(command: CommandView, replies: Seq<LockReplyView>)
    requires
        !(command.allow_lock_with_conflict && (command.keys.len() > 1 || command.skip_locked)),
        replies.len() == command.keys.len(),
        forall|i: int| 0 <= i < replies.len() ==> (#[trigger] replies[i]) is Acquired,
    ensures
        answer(command, replies) matches Ok(result) && {
            &&& result.to_be_write.modifies == replies.map_values(
                |reply: LockReplyView| reply->Acquired_0.modifies,
            ).flatten()
            &&& result.new_acquired_locks == replies.map_values(
                |reply: LockReplyView| reply->Acquired_0.new_locks,
            ).flatten()
            &&& result.pr == (ProcessResultView::PessimisticLockRes {
                res: Ok(replies.map_values(|reply: LockReplyView| reply->Acquired_0.result)),
            })
            &&& result.lock_info.len() == 0
            &&& result.rows == command.keys.len()
        },
{
    law_request_goes_through(command, replies);
    lemma_all_locked(replies);
    assert(replies.take(command.keys.len() as int) =~= replies);
    let told = replies.map_values(|reply: LockReplyView| reply->Acquired_0.result);
    assert(answer(command, replies)->Ok_0.pr->res->Ok_0 =~= told);
}

/// A request one of whose keys the engine locks writes what the engine wants written for that key,
/// even where conflicts are allowed and there is one.
pub proof fn law_one_locked_key_is_written(command: CommandView, replies: Seq<LockReplyView>)
    requires
        !(command.allow_lock_with_conflict && command.skip_locked),
        command.keys.len() == 1,
        replies.len() == 1,
        replies[0] is Acquired,
    ensures
        answer(command, replies) matches Ok(result) && {
            &&& result.to_be_write.modifies == replies[0]->Acquired_0.modifies
            &&& result.new_acquired_locks == replies[0]->Acquired_0.new_locks
            &&& result.pr == (ProcessResultView::PessimisticLockRes {
                res: Ok(seq![replies[0]->Acquired_0.result]),
            })
        },
{
    law_locked_keys_are_written(command, replies);
    let modifies = replies.map_values(|reply: LockReplyView| reply->Acquired_0.modifies);
    let new_locks = replies.map_values(|reply: LockReplyView| reply->Acquired_0.new_locks);
    modifies.lemma_flatten_one_element();
    new_locks.lemma_flatten_one_element();
    assert(replies.map_values(|reply: LockReplyView| reply->Acquired_0.result) =~= seq![
        replies[0]->Acquired_0.result,
    ]);
}

/// A request that no reply stops tells the client of every key, in order, what the engine says of
/// it, or that it was skipped where others have locked it. It writes, one after the other, what the
/// engine wants written for the keys that it locked, and nothing else. Replies beyond the keys do
/// not count. Nothing is waited for.
pub proof fn law_request_goes_through(command: CommandView, replies: Seq<LockReplyView>)
    requires
        !(command.allow_lock_with_conflict && (command.keys.len() > 1 || command.skip_locked)),
        command.keys.len() <= replies.len(),
        forall|i: int|
            0 <= i < command.keys.len() ==> match #[trigger] replies[i] {
                LockReplyView::Acquired(_) => true,
                LockReplyView::Failed(error) => command.skip_locked && (error is KeyIsLocked
                    || error is NotInShrinkMode),
            },
    ensures
        answer(command, replies) matches Ok(result) && {
            let counted = replies.take(command.keys.len() as int);
            let locked = counted.filter(|reply: LockReplyView| reply is Acquired);
            &&& result.pr matches ProcessResultView::PessimisticLockRes { res: Ok(results) } && {
                &&& results.len() == command.keys.len()
                &&& forall|i: int|
                    0 <= i < results.len() ==> (replies[i] matches LockReplyView::Acquired(acquired)
                        ==> #[trigger] results[i] == acquired.result)
                &&& forall|i: int|
                    0 <= i < results.len() && replies[i] is Failed ==> #[trigger] results[i]
                        == KeyResultView::Skipped
            }
            &&& result.to_be_write.modifies == locked.map_values(
                |reply: LockReplyView| reply->Acquired_0.modifies,
            ).flatten()
            &&& result.new_acquired_locks == locked.map_values(
                |reply: LockReplyView| reply->Acquired_0.new_locks,
            ).flatten()
            &&& !result.to_be_write.extra.one_pc
            &&& !result.to_be_write.extra.allowed_in_flashback
            &&& result.rows == command.keys.len()
            &&& result.lock_info.len() == 0
            &&& result.ctx == command.ctx
            &&& result.response_policy == ResponsePolicy::OnProposed
            &&& result.released_locks.len() == 0
            &&& result.lock_guards.len() == 0
            &&& result.known_txn_status.len() == 0
        },
{
    let counted = replies.take(command.keys.len() as int);
    assert forall|i: int| 0 <= i < counted.len() implies goes_on(
        command,
        #[trigger] counted[i],
    ) by {
        assert(counted[i] == replies[i]);
    }
    lemma_answer_completed(command, replies);
    lemma_written(counted);
    let results = counted.map_values(|reply: LockReplyView| key_result(reply));
    assert forall|i: int| 0 <= i < results.len() implies #[trigger] results[i] == key_result(
        replies[i],
    ) by {
        assert(counted[i] == replies[i]);
    }
    assert(answer(command, replies)->Ok_0.pr->res->Ok_0 == results);
}

/// A request that no reply stops and that writes anything hands over the old value of every key that
/// the engine locked and whose old value it resolved, and no other: under the transaction's
/// timestamp, with no mutation type, and the last one where a key is named more than once. A
/// request that writes nothing hands over no old values.
pub proof fn law_old_values_are_handed_over(
    command: CommandView,
    replies: Seq<LockReplyView>,
    encoded: Seq<u8>,
    ts: TimeStamp,
)
    requires
        !(command.allow_lock_with_conflict && (command.keys.len() > 1 || command.skip_locked)),
        replies.len() == command.keys.len(),
        forall|i: int|
            0 <= i < command.keys.len() ==> match #[trigger] replies[i] {
                LockReplyView::Acquired(_) => true,
                LockReplyView::Failed(error) => command.skip_locked && (error is KeyIsLocked
                    || error is NotInShrinkMode),
            },
    ensures
        answer(command, replies) matches Ok(result) && {
            let old_values = result.to_be_write.extra.old_values;
            &&& result.to_be_write.modifies.len() == 0 ==> !old_values.contains_key((encoded, ts))
            &&& result.to_be_write.modifies.len() > 0 ==> {
                &&& ts != command.start_ts ==> !old_values.contains_key((encoded, ts))
                &&& old_values.contains_key((encoded, command.start_ts)) <==> exists|i: int|
                    {
                        &&& 0 <= i < replies.len()
                        &&& (#[trigger] replies[i]) is Acquired
                        &&& replies[i]->Acquired_0.old_value is Some
                        &&& command.keys[i].0.encoded == encoded
                    }
                &&& forall|i: int|
                    {
                        &&& 0 <= i < replies.len()
                        &&& (#[trigger] replies[i]) is Acquired
                        &&& replies[i]->Acquired_0.old_value is Some
                        &&& command.keys[i].0.encoded == encoded
                        &&& forall|j: int|
                            i < j < replies.len() && (#[trigger] replies[j]) is Acquired
                                && replies[j]->Acquired_0.old_value is Some
                                ==> command.keys[j].0.encoded != encoded
                    } ==> {
                        let entry = old_values[(encoded, command.start_ts)];
                        &&& entry.key == command.keys[i].0
                        &&& entry.start_ts == command.start_ts
                        &&& Some(entry.old_value) == replies[i]->Acquired_0.old_value
                        &&& entry.mutation_type is None
                    }
            }
        },
{
    law_request_goes_through(command, replies);
    let counted = replies.take(command.keys.len() as int);
    assert(counted =~= replies);
    assert forall|i: int| 0 <= i < counted.len() implies goes_on(
        command,
        #[trigger] counted[i],
    ) by {
        assert(counted[i] == replies[i]);
    }
    lemma_answer_completed(command, replies);
    law_old_values(command.keys, command.start_ts, replies, encoded, ts);
    law_old_values(command.keys, command.start_ts, replies, encoded, command.start_ts);
    let keys = command.keys;
    let old_values = all_old_values(keys, command.start_ts, replies);
    if old_values.contains_key((encoded, command.start_ts)) {
        let i = choose|i: int| reports_old_value(keys, replies, encoded, i);
        assert(replies[i] is Acquired);
    }
    assert forall|i: int|
        {
            &&& 0 <= i < replies.len()
            &&& (#[trigger] replies[i]) is Acquired
            &&& replies[i]->Acquired_0.old_value is Some
            &&& keys[i].0.encoded == encoded
        } implies reports_old_value(keys, replies, encoded, i) by {}
}

/// A request that does not skip and meets the lock of another transaction locks none of its keys. If
/// it has a timeout, it waits: the waiting queue gets the lock that was met, the key with its own
/// two flags, and the request's parameters, each as the request has it. If it has none, the lock
/// is reported, at the one key where conflicts are allowed and as a failure elsewhere.
pub proof fn law_request_meets_a_lock(
    command: CommandView,
    replies: Seq<LockReplyView>,
    i: int,
    info: LockInfoView,
)
    requires
        !command.skip_locked,
        !(command.allow_lock_with_conflict && command.keys.len() > 1),
        0 <= i < replies.len(),
        i < command.keys.len(),
        forall|j: int| 0 <= j < i ==> (#[trigger] replies[j]) is Acquired,
        replies[i] == LockReplyView::Failed(MvccErrorView::KeyIsLocked(info)),
    ensures
        answer(command, replies) matches Ok(result) && {
            let error = StorageErrorView::Txn(ErrorView::Mvcc(MvccErrorView::KeyIsLocked(info)));
            &&& result.to_be_write.modifies.len() == 0
            &&& result.to_be_write.extra.old_values == OldValuesView::empty()
            &&& !result.to_be_write.extra.one_pc
            &&& !result.to_be_write.extra.allowed_in_flashback
            &&& result.new_acquired_locks.len() == 0
            &&& result.ctx == command.ctx
            &&& result.response_policy == ResponsePolicy::OnProposed
            &&& result.released_locks.len() == 0
            &&& result.lock_guards.len() == 0
            &&& result.known_txn_status.len() == 0
            &&& command.wait_timeout is Some ==> {
                let lock = result.lock_info[0];
                &&& result.lock_info.len() == 1
                &&& lock.lock_info_pb == info
                &&& lock.key == command.keys[i].0
                &&& lock.should_not_exist == command.keys[i].1
                &&& lock.is_shared_lock == command.keys[i].2
                &&& lock.parameters.pb_ctx == command.ctx
                &&& lock.parameters.primary == command.primary
                &&& lock.parameters.start_ts == command.start_ts
                &&& lock.parameters.lock_ttl == command.lock_ttl
                &&& lock.parameters.for_update_ts == command.for_update_ts
                &&& lock.parameters.wait_timeout == command.wait_timeout
                &&& lock.parameters.return_values == command.return_values
                &&& lock.parameters.min_commit_ts == command.min_commit_ts
                &&& lock.parameters.check_existence == command.check_existence
                &&& lock.parameters.is_first_lock == command.is_first_lock
                &&& lock.parameters.lock_only_if_exists == command.lock_only_if_exists
                &&& lock.parameters.allow_lock_with_conflict == command.allow_lock_with_conflict
                &&& result.pr == (ProcessResultView::PessimisticLockRes {
                    res: Ok(seq![KeyResultView::Waiting]),
                })
                &&& result.rows == command.keys.len()
            }
            &&& command.wait_timeout is None ==> result.lock_info.len() == 0
            &&& command.wait_timeout is None && command.allow_lock_with_conflict ==> {
                &&& result.pr == (ProcessResultView::PessimisticLockRes {
                    res: Ok(seq![KeyResultView::Failed(error)]),
                })
                &&& result.rows == command.keys.len()
            }
            &&& command.wait_timeout is None && !command.allow_lock_with_conflict ==> {
                &&& result.pr == (ProcessResultView::PessimisticLockRes { res: Err(error) })
                &&& result.rows == 0
            }
        },
{
    assert(goes_through(command, replies.take(i)));
    lemma_answer_stopped(command, replies, i);
}

/// A request that does not skip and meets shared locks that others may still join fails and reports
/// them, whether or not it has a timeout. What it writes is that the same transactions hold the
/// key on, and no further ones may join; its own keys are not locked. If the key cannot be
/// decoded, the request fails for that reason.
pub proof fn law_request_meets_shared_locks(
    command: CommandView,
    replies: Seq<LockReplyView>,
    i: int,
    shared_locks: SharedLocksView,
)
    requires
        !command.skip_locked,
        !(command.allow_lock_with_conflict && command.keys.len() > 1),
        0 <= i < replies.len(),
        i < command.keys.len(),
        forall|j: int| 0 <= j < i ==> (#[trigger] replies[j]) is Acquired,
        replies[i] == LockReplyView::Failed(MvccErrorView::NotInShrinkMode(shared_locks)),
    ensures
        command.keys[i].0.raw matches Err(reason) ==> answer(command, replies) == Err::<
            WriteResultView,
            _,
        >(ErrorView::Key(reason)),
        command.keys[i].0.raw matches Ok(raw_key) ==> (answer(command, replies) matches Ok(result)
            && {
            &&& result.to_be_write.modifies.len() == 1
            &&& result.to_be_write.modifies[0] matches ModifyView::PutSharedLocks(key, written) && {
                &&& key == command.keys[i].0
                &&& written.shrink_only
                &&& written.locks == shared_locks.locks
            }
            &&& result.to_be_write.extra.old_values == OldValuesView::empty()
            &&& !result.to_be_write.extra.one_pc
            &&& !result.to_be_write.extra.allowed_in_flashback
            &&& result.new_acquired_locks.len() == 0
            &&& result.lock_info.len() == 0
            &&& result.pr matches ProcessResultView::PessimisticLockRes { res: Err(
                StorageErrorView::Txn(ErrorView::Mvcc(MvccErrorView::KeyIsLocked(info))),
            ) } && {
                &&& info.key == raw_key
                &&& info.holder == LockHolderView::Shared(shared_locks.locks)
            }
            &&& result.rows == 0
            &&& result.ctx == command.ctx
            &&& result.response_policy == ResponsePolicy::OnProposed
            &&& result.released_locks.len() == 0
            &&& result.lock_guards.len() == 0
            &&& result.known_txn_status.len() == 0
        }),
{
    assert(goes_through(command, replies.take(i)));
    lemma_answer_stopped(command, replies, i);
}

/// An error that reports no lock fails the request with that very error, whatever its flags and
/// whatever was locked or skipped before.
pub proof fn law_request_meets_another_error(
    command: CommandView,
    replies: Seq<LockReplyView>,
    i: int,
    error: MvccErrorView,
)
    requires
        !(command.allow_lock_with_conflict && (command.keys.len() > 1 || command.skip_locked)),
        0 <= i < replies.len(),
        i < command.keys.len(),
        forall|j: int|
            0 <= j < i ==> match #[trigger] replies[j] {
                LockReplyView::Acquired(_) => true,
                LockReplyView::Failed(earlier) => command.skip_locked && (earlier is KeyIsLocked
                    || earlier is NotInShrinkMode),
            },
        replies[i] == LockReplyView::Failed(error),
        !(error is KeyIsLocked),
        !(error is NotInShrinkMode),
    ensures
        answer(command, replies) == Err::<WriteResultView, _>(ErrorView::Mvcc(error)),
{
    assert(goes_through(command, replies.take(i)));
    lemma_answer_stopped(command, replies, i);
}

/// The replies before the one that stops a request do not matter: with any others that lock their
/// keys the request comes to the same.
pub proof fn law_stopped_request_forgets(
    command: CommandView,
    replies: Seq<LockReplyView>,
    others: Seq<LockReplyView>,
    i: int,
)
    requires
        !command.skip_locked,
        !(command.allow_lock_with_conflict && command.keys.len() > 1),
        0 <= i < replies.len(),
        i < others.len(),
        i < command.keys.len(),
        forall|j: int| 0 <= j < i ==> (#[trigger] replies[j]) is Acquired,
        forall|j: int| 0 <= j < i ==> (#[trigger] others[j]) is Acquired,
        replies[i] is Failed,
        others[i] == replies[i],
    ensures
        answer(command, others) == answer(command, replies),
{
    assert(goes_through(command, replies.take(i)));
    assert(goes_through(command, others.take(i)));
    lemma_answer_stopped(command, replies, i);
    lemma_answer_stopped(command, others, i);
}

/// What is handed over to be written has exactly the given changes. The old values go along
/// unchanged if there is any change, and are dropped if there is none. The transaction is neither
/// said to commit in one phase nor allowed while flashing back.
pub proof fn law_changes_and_old_values(modifies: Seq<ModifyView>, old_values: OldValuesView)
    ensures
        ({
            let data = WriteDataView::of(modifies, old_values);
            &&& data.modifies == modifies
            &&& modifies.len() > 0 ==> data.extra.old_values == old_values
            &&& modifies.len() == 0 ==> data.extra.old_values == OldValuesView::empty()
            &&& !data.extra.one_pc
            &&& !data.extra.allowed_in_flashback
        }),
{
    if modifies.len() == 0 {
        assert(modifies =~= Seq::empty());
    }
}

/// The size of keys is the sum of the lengths of their encoded forms: none for no keys, the length
/// for one key, and the sum for keys and further keys.
pub proof fn law_size_of_keys(
    key: (KeyView, bool, bool),
    keys: Seq<(KeyView, bool, bool)>,
    further: Seq<(KeyView, bool, bool)>,
)
    ensures
        encoded_size(Seq::empty()) == 0,
        encoded_size(seq![key]) == key.0.encoded.len(),
        encoded_size(keys + further) == encoded_size(keys) + encoded_size(further),
    decreases further.len(),
{
    assert(seq![key].drop_last() =~= Seq::empty());
    assert(encoded_size(seq![key].drop_last()) == 0);
    if further.len() == 0 {
        assert(keys + further =~= keys);
    } else {
        law_size_of_keys(key, keys, further.drop_last());
        assert((keys + further).drop_last() =~= keys + further.drop_last());
    }
}

/// That no key and transaction has two entries means that any two entries differ in the encoded key
/// or in the timestamp.
pub proof fn law_no_entry_twice(entries: Seq<OldValueEntry>)
    ensures
        found_once(entries) <==> forall|i: int, j: int|
            0 <= i < j < entries.len() ==> (#[trigger] entries[i]).key.deep_view().encoded != (
            #[trigger] entries[j]).key.deep_view().encoded || entries[i].start_ts
                != entries[j].start_ts,
{
    if found_once(entries) {
        assert forall|i: int, j: int| 0 <= i < j < entries.len() implies (
        #[trigger] entries[i]).key.deep_view().encoded != (
        #[trigger] entries[j]).key.deep_view().encoded || entries[i].start_ts
            != entries[j].start_ts by {
            assert(entries[i].found_by() != entries[j].found_by());
        }
    }
}

/// Recording an old value changes the entry of its own key and transaction and no other; an
/// unresolved old value changes nothing.
pub proof fn law_recording_an_old_value(
    old_values: OldValuesView,
    key: KeyView,
    start_ts: TimeStamp,
    old_value: Option<OldValueView>,
    mutation_type: Option<MutationType>,
    other: (Seq<u8>, TimeStamp),
)
    ensures
        ({
            let after = with_old_value(old_values, key, start_ts, old_value, mutation_type);
            &&& old_value is None ==> after == old_values
            &&& old_value matches Some(value) ==> {
                let entry = after[(key.encoded, start_ts)];
                &&& after.contains_key((key.encoded, start_ts))
                &&& entry.key == key
                &&& entry.start_ts == start_ts
                &&& entry.old_value == value
                &&& entry.mutation_type == mutation_type
            }
            &&& other != (key.encoded, start_ts) ==> {
                &&& after.contains_key(other) == old_values.contains_key(other)
                &&& old_values.contains_key(other) ==> after[other] == old_values[other]
            }
        }),
{
}

/// Entries no two of which have the same encoded key and timestamp stand for a map that holds each
/// of them under these two, and nothing else.
pub proof fn law_entries_as_a_map(
    entries: Seq<OldValueEntry>,
    encoded: Seq<u8>,
    start_ts: TimeStamp,
)
    requires
        forall|i: int, j: int|
            0 <= i < j < entries.len() ==> (#[trigger] entries[i]).key.deep_view().encoded != (
            #[trigger] entries[j]).key.deep_view().encoded || entries[i].start_ts
                != entries[j].start_ts,
    ensures
        found_once(entries),
        entry_map(entries).contains_key((encoded, start_ts)) <==> exists|i: int|
            0 <= i < entries.len() && (#[trigger] entries[i]).key.deep_view().encoded == encoded
                && entries[i].start_ts == start_ts,
        forall|i: int|
            0 <= i < entries.len() && (#[trigger] entries[i]).key.deep_view().encoded == encoded
                && entries[i].start_ts == start_ts ==> {
                let entry: OldValueEntryView = entry_map(entries)[(encoded, start_ts)];
                &&& entry.key == entries[i].key.deep_view()
                &&& entry.start_ts == entries[i].start_ts
                &&& entry.old_value == entries[i].old_value.deep_view()
                &&& entry.mutation_type == entries[i].mutation_type
            },
{
    let key = (encoded, start_ts);
    assert forall|i: int|
        0 <= i < entries.len() && (#[trigger] entries[i]).key.deep_view().encoded == encoded
            && entries[i].start_ts == start_ts implies found_at(entries, key, i) by {}
    if exists|i: int| found_at(entries, key, i) {
        let chosen = choose|i: int| found_at(entries, key, i);
        assert(entries[chosen].key.deep_view().encoded == encoded);
    }
}

} // verus!
