//! Processing a request, reply by reply.

use vstd::prelude::*;

use crate::bytes::copy_bytes;
use crate::command::{AcquirePessimisticLock, CommandView};
use crate::errors::{Error, ErrorView, MvccError, MvccErrorView, StorageError};
use crate::lock::{LockInfo, LockInfoView};
use crate::old_values::{with_old_value, OldValues, OldValuesView};
use crate::outcome::{
    all_modifies, all_new_locks, all_old_values, answer, goes_on, goes_through, is_settled,
    key_result, lemma_answer_completed, lemma_answer_stopped, lemma_settled_for_good,
    lock_to_wait_for, parameters_of, rejection, reply_modifies, reply_new_locks, request_for,
    stops_at,
};
use crate::reply::{LockReply, LockReplyView, LockRequest};
use crate::results::{
    KeyResultView, PessimisticLockKeyResult, PessimisticLockParameters, PessimisticLockResults,
    ProcessResult, ResponsePolicy, WriteResult, WriteResultLockInfo, WriteResultView,
};
use crate::txn::{ModifyView, MvccTxn, MvccTxnView};
use crate::types::ExtraOp;
use crate::write_data::make_write_data;

verus! {

/// What the server tells a command about its surroundings.
#[derive(Clone, Copy, Debug, PartialEq, Eq, Structural)]
pub struct WriteContext {
    pub extra_op: ExtraOp,
}

/// What a result or an error holds.
pub open spec fn result_view(
    result: Result<WriteResult, Error>,
) -> Result<WriteResultView, ErrorView> {
    match result {
        Ok(result) => Ok(result.deep_view()),
        Err(error) => Err(error.deep_view()),
    }
}

/// A command that is being processed. It says which key the engine is to try next, and takes the
/// reply, until nothing is left to ask.
pub struct LockRun {
    command: AcquirePessimisticLock,
    context: WriteContext,
    /// The number of replies taken.
    taken: usize,
    /// Whether a reply stopped the request.
    stopped: bool,
    txn: MvccTxn,
    res: PessimisticLockResults,
    old_values: OldValues,
    encountered_locks: Vec<WriteResultLockInfo>,
    updated_shared_lock_info: Option<LockInfo>,
    failure: Option<Error>,
    replies: Ghost<Seq<LockReplyView>>,
}

impl LockRun {
    /// The command.
    pub closed spec fn command(self) -> CommandView {
        self.command.deep_view()
    }

    /// The surroundings of the command.
    pub closed spec fn context(self) -> WriteContext {
        self.context
    }

    /// The replies taken so far.
    pub closed spec fn replies(self) -> Seq<LockReplyView> {
        self.replies@
    }

    /// Whether the engine owes a reply.
    pub open spec fn awaits_reply(self) -> bool {
        !is_settled(self.command(), self.replies())
    }

    /// No reply has stopped the request: all that the replies gave is gathered.
    spec fn gathers(self) -> bool {
        let command = self.command();
        let replies = self.replies@;
        &&& goes_through(command, replies)
        &&& self.txn.deep_view() == (MvccTxnView {
            start_ts: command.start_ts,
            modifies: all_modifies(replies),
            new_locks: all_new_locks(replies),
        })
        &&& self.res.deep_view() == replies.map_values(|reply: LockReplyView| key_result(reply))
        &&& self.old_values@ == all_old_values(command.keys, command.start_ts, replies)
        &&& self.encountered_locks@.len() == 0
        &&& self.updated_shared_lock_info is None
        &&& self.failure is None
    }

    /// The last reply stopped the request.
    spec fn stopped_by(self, error: MvccErrorView) -> bool {
        let command = self.command();
        let i = self.replies@.len() - 1;
        let none = MvccTxnView::empty(command.start_ts);
        match error {
            MvccErrorView::KeyIsLocked(info) => {
                &&& self.failure is None
                &&& self.updated_shared_lock_info is None
                &&& self.txn.deep_view() == none
                &&& self.res.deep_view() == seq![KeyResultView::Waiting]
                &&& self.encountered_locks.deep_view() == seq![lock_to_wait_for(command, i, info)]
            },
            MvccErrorView::NotInShrinkMode(shared_locks) => match command.keys[i].0.raw {
                Ok(raw_key) => {
                    let modify = ModifyView::PutSharedLocks(
                        command.keys[i].0,
                        shared_locks.shrunk(),
                    );
                    &&& self.failure is None
                    &&& self.updated_shared_lock_info.deep_view() == Some(
                        shared_locks.lock_info(raw_key),
                    )
                    &&& self.txn.deep_view() == (MvccTxnView { modifies: seq![modify], ..none })
                    &&& self.encountered_locks@.len() == 0
                    &&& self.old_values@ == OldValuesView::empty()
                },
                Err(reason) => self.failure.deep_view() == Some(ErrorView::Key(reason)),
            },
            _ => self.failure.deep_view() == Some(ErrorView::Mvcc(error)),
        }
    }

    /// The state is that to which the replies lead.
    pub closed spec fn wf(self) -> bool {
        let command = self.command();
        let replies = self.replies@;
        &&& rejection(command) is None
        &&& self.taken == replies.len()
        &&& self.taken <= self.command.keys.len()
        &&& self.old_values.wf()
        &&& if self.stopped {
            &&& stops_at(command, replies, replies.len() - 1)
            &&& self.stopped_by(replies.last()->Failed_0)
        } else {
            self.gathers()
        }
    }

    /// The engine owes a reply unless one has stopped the request or every key has its own.
    proof fn lemma_awaits_reply(self)
        requires
            self.wf(),
        ensures
            self.awaits_reply() == (!self.stopped && self.taken < self.command.keys.len()),
            !self.stopped ==> forall|i: int| !stops_at(self.command(), self.replies(), i),
    {
        let command = self.command();
        let replies = self.replies();
        if !self.stopped {
            assert forall|i: int| !stops_at(command, replies, i) by {}
        }
    }

    /// What the engine is to try next; nothing once the request is settled.
    pub fn request(&self) -> (request: Option<LockRequest<'_>>)
        requires
            self.wf(),
        ensures
            request is Some <==> self.awaits_reply(),
            request matches Some(request) ==> request.deep_view() == request_for(
                self.command(),
                self.context().extra_op,
                self.replies().len() as int,
            ),
            request matches Some(request) ==> {
                let command = self.command();
                let key = command.keys[self.replies().len() as int];
                &&& self.replies().len() < command.keys.len()
                &&& request.ctx.deep_view() == command.ctx
                &&& request.start_ts == command.start_ts
                &&& request.key.deep_view() == key.0
                &&& request.primary@ == command.primary
                &&& request.should_not_exist == key.1
                &&& request.lock_ttl == command.lock_ttl
                &&& request.for_update_ts == command.for_update_ts
                &&& request.need_value == command.return_values
                &&& request.need_check_existence == command.check_existence
                &&& request.min_commit_ts == command.min_commit_ts
                &&& request.need_old_value == (self.context().extra_op is ReadOldValue)
                &&& request.lock_only_if_exists == command.lock_only_if_exists
                &&& request.allow_lock_with_conflict == command.allow_lock_with_conflict
                &&& request.is_shared_lock == key.2
            },
    {
        proof {
            self.lemma_awaits_reply();
        }
        if self.stopped || self.taken >= self.command.keys.len() {
            return None;
        }
        let key = &self.command.keys[self.taken];
        Some(
            LockRequest {
                ctx: &self.command.ctx,
                start_ts: self.command.start_ts,
                key: &key.0,
                primary: &self.command.primary,
                should_not_exist: key.1,
                lock_ttl: self.command.lock_ttl,
                for_update_ts: self.command.for_update_ts,
                need_value: self.command.return_values,
                need_check_existence: self.command.check_existence,
                min_commit_ts: self.command.min_commit_ts,
                need_old_value: self.context.extra_op == ExtraOp::ReadOldValue,
                lock_only_if_exists: self.command.lock_only_if_exists,
                allow_lock_with_conflict: self.command.allow_lock_with_conflict,
                is_shared_lock: key.2,
            },
        )
    }

    /// Takes the engine's reply for the key that it was to try.
    pub fn take_reply(&mut self, reply: LockReply)
        requires
            old(self).wf(),
            old(self).awaits_reply(),
        ensures
            final(self).wf(),
            final(self).command() == old(self).command(),
            final(self).context() == old(self).context(),
            final(self).replies() == old(self).replies().push(reply.deep_view()),
    {
        proof {
            self.lemma_awaits_reply();
        }
        let ghost replies = self.replies@;
        let ghost view = reply.deep_view();
        let i = self.taken;
        let key = self.command.keys[i].0.clone();
        proof {
            lemma_next_reply(self.command(), replies, view);
        }
        self.taken = self.taken + 1;
        self.replies = Ghost(replies.push(view));
        match reply {
            LockReply::Acquired(acquired) => {
                self.txn.extend(acquired.modifies, acquired.new_locks);
                self.res.push(acquired.result);
                // What is done to the key later is not known yet.
                self.old_values.insert_if_resolved(
                    key,
                    self.txn.start_ts(),
                    acquired.old_value,
                    None,
                );
            },
            LockReply::Failed(MvccError::KeyIsLocked(lock_info)) => {
                if self.command.skip_locked {
                    // The key is left to the other transaction; the rest of the keys are still
                    // tried, and those locked before stay locked.
                    self.res.push(PessimisticLockKeyResult::Skipped);
                } else {
                    let parameters = self.command.parameters();
                    self.encountered_locks.push(
                        WriteResultLockInfo {
                            lock_info_pb: lock_info,
                            parameters,
                            key,
                            should_not_exist: self.command.keys[i].1,
                            is_shared_lock: self.command.keys[i].2,
                        },
                    );
                    assert(self.encountered_locks.deep_view() =~= seq![
                        lock_to_wait_for(self.command(), i as int, lock_info.deep_view()),
                    ]);
                    // Keys locked before do not stay locked.
                    self.txn.clear();
                    self.res.clear();
                    self.res.push(PessimisticLockKeyResult::Waiting);
                    self.stopped = true;
                }
            },
            LockReply::Failed(MvccError::NotInShrinkMode(shared_locks)) => {
                if self.command.skip_locked {
                    // Nor are the locks of the other transactions touched.
                    self.res.push(PessimisticLockKeyResult::Skipped);
                } else {
                    self.stopped = true;
                    match key.to_raw() {
                        Ok(locked_raw_key) => {
                            // That the shared locks are shrink-only is all that is written.
                            let mut shared_locks = shared_locks;
                            shared_locks.set_shrink_only();
                            self.txn.clear();
                            self.txn.put_shared_locks(key, &shared_locks);
                            self.old_values.clear();
                            self.res.clear();
                            self.updated_shared_lock_info = Some(
                                shared_locks.into_lock_info(locked_raw_key),
                            );
                        },
                        Err(error) => {
                            self.failure = Some(Error::Key(error));
                        },
                    }
                }
            },
            LockReply::Failed(error) => {
                self.stopped = true;
                self.failure = Some(Error::Mvcc(error));
            },
        }
    }

    /// What the command comes to.
    pub fn finish(self) -> (result: Result<WriteResult, Error>)
        requires
            self.wf(),
            !self.awaits_reply(),
        ensures
            result_view(result) == answer(self.command(), self.replies()),
            match result {
                Ok(result) => answer(self.command(), self.replies()) == Ok::<_, ErrorView>(
                    result.deep_view(),
                ),
                Err(error) => answer(self.command(), self.replies()) == Err::<WriteResultView, _>(
                    error.deep_view(),
                ),
            },
            result matches Ok(result) ==> result.to_be_write.extra.old_values.wf(),
    {
        proof {
            self.lemma_awaits_reply();
            let command = self.command();
            let replies = self.replies();
            if self.stopped {
                lemma_answer_stopped(command, replies, replies.len() - 1);
            } else {
                assert(replies.take(command.keys.len() as int) =~= replies);
                lemma_answer_completed(command, replies);
            }
        }
        if let Some(error) = self.failure {
            return Err(error);
        }
        let total_keys = self.command.keys.len();
        let (modifies, new_acquired_locks) = self.txn.into_parts();
        let mut encountered_locks = self.encountered_locks;
        let ghost met = encountered_locks;
        assert(met.deep_view().len() == met@.len() <= 1);
        let mut res: Result<PessimisticLockResults, StorageError> = Ok(self.res);

        // A lock was met and the request does not wait.
        if self.command.wait_timeout.is_none() {
            if let Some(lock) = encountered_locks.pop() {
                assert(met.deep_view()[0] == lock.deep_view());
                assert(encountered_locks.deep_view() =~= Seq::empty());
                let error = StorageError::key_is_locked(lock.lock_info_pb);
                if self.command.allow_lock_with_conflict {
                    // Such a request is answered key by key.
                    let mut results = PessimisticLockResults::with_capacity(1);
                    results.push(PessimisticLockKeyResult::Failed(error));
                    res = Ok(results);
                } else {
                    res = Err(error);
                }
            }
        }
        // Shared locks were met and made shrink-only.
        if let Some(lock_info) = self.updated_shared_lock_info {
            res = Err(StorageError::key_is_locked(lock_info));
        }
        let rows = match &res {
            Ok(_) => total_keys,
            Err(_) => 0,
        };
        let result = WriteResult {
            ctx: self.command.ctx,
            to_be_write: make_write_data(modifies, self.old_values),
            rows,
            pr: ProcessResult::PessimisticLockRes { res },
            lock_info: encountered_locks,
            released_locks: Vec::new(),
            new_acquired_locks,
            lock_guards: Vec::new(),
            response_policy: ResponsePolicy::OnProposed,
            known_txn_status: Vec::new(),
        };
        assert(result.released_locks.deep_view() =~= Seq::empty());
        assert(result.lock_guards.deep_view() =~= Seq::empty());
        proof {
            let expected = answer(self.command(), self.replies())->Ok_0;
            assert(result.lock_info.deep_view() =~= expected.lock_info);
        }
        Ok(result)
    }
}

/// What one more reply adds to those that the request went through.
proof fn lemma_next_reply(
    command: CommandView,
    replies: Seq<LockReplyView>,
    reply: LockReplyView,
)
    requires
        goes_through(command, replies),
        replies.len() < command.keys.len(),
    ensures
        goes_on(command, reply) ==> goes_through(command, replies.push(reply)),
        !goes_on(command, reply) ==> stops_at(
            command,
            replies.push(reply),
            replies.len() as int,
        ),
        all_modifies(replies.push(reply)) == all_modifies(replies) + reply_modifies(reply),
        all_new_locks(replies.push(reply)) == all_new_locks(replies) + reply_new_locks(reply),
        reply is Failed ==> all_modifies(replies.push(reply)) == all_modifies(replies),
        reply is Failed ==> all_new_locks(replies.push(reply)) == all_new_locks(replies),
        replies.push(reply).map_values(|reply: LockReplyView| key_result(reply))
            == replies.map_values(|reply: LockReplyView| key_result(reply)).push(key_result(reply)),
        all_old_values(command.keys, command.start_ts, replies.push(reply)) == match reply {
            LockReplyView::Acquired(acquired) => with_old_value(
                all_old_values(command.keys, command.start_ts, replies),
                command.keys[replies.len() as int].0,
                command.start_ts,
                acquired.old_value,
                None,
            ),
            LockReplyView::Failed(_) => all_old_values(command.keys, command.start_ts, replies),
        },
{
    let after = replies.push(reply);
    assert(after.drop_last() =~= replies);
    assert(after.take(replies.len() as int) =~= replies);
    assert(all_modifies(replies) + Seq::<ModifyView>::empty() =~= all_modifies(replies));
    assert(all_new_locks(replies) + Seq::<LockInfoView>::empty() =~= all_new_locks(replies));
    assert(after.map_values(|reply: LockReplyView| key_result(reply)) =~= replies.map_values(
        |reply: LockReplyView| key_result(reply),
    ).push(key_result(reply)));
}

impl AcquirePessimisticLock {
    /// Starts to process the command, unless it is not allowed: conflicts can be allowed for one
    /// key only, and not where locked keys are skipped.
    pub fn begin(self, context: WriteContext) -> (run: Result<LockRun, Error>)
        ensures
            match run {
                Ok(run) => {
                    &&& rejection(self.deep_view()) is None
                    &&& run.wf()
                    &&& run.command() == self.deep_view()
                    &&& run.context() == context
                    &&& run.replies() == Seq::<LockReplyView>::empty()
                },
                Err(error) => rejection(self.deep_view()) == Some(error.deep_view()),
            },
            run is Err <==> self.allow_lock_with_conflict && (self.keys@.len() > 1
                || self.skip_locked),
            run matches Err(error) ==> error.deep_view() == ErrorView::Other(
                if self.keys@.len() > 1 {
                    "multiple keys in a single request with allowed_lock_with_conflict set is not allowed"@
                } else {
                    "skip_locked together with allow_lock_with_conflict is not allowed"@
                },
            ),
    {
        if self.allow_lock_with_conflict && self.keys.len() > 1 {
            return Err(
                Error::Other(
                    "multiple keys in a single request with allowed_lock_with_conflict set is not allowed".to_owned(),
                ),
            );
        }
        if self.skip_locked && self.allow_lock_with_conflict {
            // To skip what others have locked and to lock through conflicts do not go together.
            return Err(
                Error::Other(
                    "skip_locked together with allow_lock_with_conflict is not allowed".to_owned(),
                ),
            );
        }
        let total_keys = self.keys.len();
        let start_ts = self.start_ts;
        let run = LockRun {
            command: self,
            context,
            taken: 0,
            stopped: false,
            txn: MvccTxn::new(start_ts),
            res: PessimisticLockResults::with_capacity(total_keys),
            old_values: OldValues::new(),
            encountered_locks: Vec::new(),
            updated_shared_lock_info: None,
            failure: None,
            replies: Ghost(Seq::empty()),
        };
        assert(run.replies@.map_values(|reply: LockReplyView| key_result(reply)) =~= Seq::empty());
        Ok(run)
    }

    /// Processes the command with the replies that the engine gives for its keys, in their order.
    /// No reply is needed beyond the one that settles the command.
    pub fn process_write(
        self,
        context: WriteContext,
        replies: Vec<LockReply>,
    ) -> (result: Result<WriteResult, Error>)
        requires
            is_settled(self.deep_view(), replies.deep_view()),
        ensures
            result_view(result) == answer(self.deep_view(), replies.deep_view()),
            match result {
                Ok(result) => answer(self.deep_view(), replies.deep_view()) == Ok::<_, ErrorView>(
                    result.deep_view(),
                ),
                Err(error) => answer(self.deep_view(), replies.deep_view()) == Err::<
                    WriteResultView,
                    _,
                >(error.deep_view()),
            },
            result matches Ok(result) ==> result.to_be_write.extra.old_values.wf(),
    {
        let ghost command = self.deep_view();
        let ghost given = replies.deep_view();
        let mut run = match self.begin(context) {
            Ok(run) => run,
            Err(error) => {
                return Err(error);
            },
        };
        let ghost handed = replies@;
        for reply in it: replies
            invariant
                run.wf(),
                run.command() == command,
                it.seq() == handed,
                given.len() == handed.len(),
                forall|i: int| 0 <= i < handed.len() ==> given[i] == #[trigger] handed[i].deep_view(),
                run.replies().len() <= it.index(),
                run.replies() == given.take(run.replies().len() as int),
                run.awaits_reply() ==> run.replies().len() == it.index(),
        {
            if run.request().is_some() {
                let ghost before = run.replies();
                run.take_reply(reply);
                assert(before.push(reply.deep_view()) =~= given.take(before.len() as int + 1));
            }
        }
        proof {
            let taken = run.replies();
            if run.awaits_reply() {
                assert(taken =~= given);
            }
            assert(given =~= taken + given.skip(taken.len() as int));
            lemma_settled_for_good(command, taken, given.skip(taken.len() as int));
        }
        run.finish()
    }

    /// The parameters with which the request is taken up again once it has waited.
    fn parameters(&self) -> (parameters: PessimisticLockParameters)
        ensures
            parameters.deep_view() == parameters_of(self.deep_view()),
            parameters.pb_ctx.deep_view() == self.ctx.deep_view(),
            parameters.primary@ == self.primary@,
            parameters.start_ts == self.start_ts,
            parameters.lock_ttl == self.lock_ttl,
            parameters.for_update_ts == self.for_update_ts,
            parameters.wait_timeout == self.wait_timeout,
            parameters.return_values == self.return_values,
            parameters.min_commit_ts == self.min_commit_ts,
            parameters.check_existence == self.check_existence,
            parameters.is_first_lock == self.is_first_lock,
            parameters.lock_only_if_exists == self.lock_only_if_exists,
            parameters.allow_lock_with_conflict == self.allow_lock_with_conflict,
    {
        PessimisticLockParameters {
            pb_ctx: self.ctx.clone(),
            primary: copy_bytes(&self.primary),
            start_ts: self.start_ts,
            lock_ttl: self.lock_ttl,
            for_update_ts: self.for_update_ts,
            wait_timeout: self.wait_timeout,
            return_values: self.return_values,
            min_commit_ts: self.min_commit_ts,
            check_existence: self.check_existence,
            is_first_lock: self.is_first_lock,
            lock_only_if_exists: self.lock_only_if_exists,
            allow_lock_with_conflict: self.allow_lock_with_conflict,
        }
    }
}

} // verus!
