//! The request to lock a set of keys.

use vstd::prelude::*;

use crate::types::{Context, Key, KeyView, TimeStamp, WaitTimeout};

verus! {

/// Acquires a pessimistic lock on each of a set of keys.
#[derive(Debug, PartialEq, Eq)]
pub struct AcquirePessimisticLock {
    /// The keys to lock; with each, whether it must not exist, and whether the lock is shared.
    pub keys: Vec<(Key, bool, bool)>,
    /// The primary lock. The locks on `keys` refer to it.
    pub primary: Vec<u8>,
    /// The timestamp of the transaction.
    pub start_ts: TimeStamp,
    /// The time to live of the locks, in milliseconds.
    pub lock_ttl: u64,
    pub is_first_lock: bool,
    pub for_update_ts: TimeStamp,
    /// How long to wait for a lock that is met; without it the request does not wait.
    pub wait_timeout: Option<WaitTimeout>,
    /// Whether the values of the keys are reported, so that the client need not read them later.
    pub return_values: bool,
    pub min_commit_ts: TimeStamp,
    pub check_existence: bool,
    pub lock_only_if_exists: bool,
    pub allow_lock_with_conflict: bool,
    /// Whether keys that other transactions have locked are left alone, and reported so, instead
    /// of being waited for or failing the request. Not to be had together with
    /// `allow_lock_with_conflict`.
    pub skip_locked: bool,
    pub ctx: Context,
}

/// What an [`AcquirePessimisticLock`] holds.
pub struct CommandView {
    pub keys: Seq<(KeyView, bool, bool)>,
    pub primary: Seq<u8>,
    pub start_ts: TimeStamp,
    pub lock_ttl: u64,
    pub is_first_lock: bool,
    pub for_update_ts: TimeStamp,
    pub wait_timeout: Option<WaitTimeout>,
    pub return_values: bool,
    pub min_commit_ts: TimeStamp,
    pub check_existence: bool,
    pub lock_only_if_exists: bool,
    pub allow_lock_with_conflict: bool,
    pub skip_locked: bool,
    pub ctx: Seq<u8>,
}

impl DeepView for AcquirePessimisticLock {
    type V = CommandView;

    open spec fn deep_view(&self) -> CommandView {
        CommandView {
            keys: self.keys.deep_view(),
            primary: self.primary@,
            start_ts: self.start_ts,
            lock_ttl: self.lock_ttl,
            is_first_lock: self.is_first_lock,
            for_update_ts: self.for_update_ts,
            wait_timeout: self.wait_timeout,
            return_values: self.return_values,
            min_commit_ts: self.min_commit_ts,
            check_existence: self.check_existence,
            lock_only_if_exists: self.lock_only_if_exists,
            allow_lock_with_conflict: self.allow_lock_with_conflict,
            skip_locked: self.skip_locked,
            ctx: self.ctx.deep_view(),
        }
    }
}

/// The number of bytes of the encoded keys.
pub open spec fn encoded_size(keys: Seq<(KeyView, bool, bool)>) -> nat
    decreases keys.len(),
{
    if keys.len() == 0 {
        0
    } else {
        encoded_size(keys.drop_last()) + keys.last().0.encoded.len()
    }
}

/// The first keys are not larger than all of them.
proof fn lemma_encoded_size_grows(keys: Seq<(KeyView, bool, bool)>, n: int)
    requires
        0 <= n <= keys.len(),
    ensures
        encoded_size(keys.take(n)) <= encoded_size(keys),
    decreases keys.len(),
{
    if n == keys.len() {
        assert(keys.take(n) =~= keys);
    } else {
        lemma_encoded_size_grows(keys.drop_last(), n);
        assert(keys.drop_last().take(n) =~= keys.take(n));
    }
}

impl AcquirePessimisticLock {
    /// The request with the given content.
    #[allow(clippy::too_many_arguments)]
    pub fn new(
        keys: Vec<(Key, bool, bool)>,
        primary: Vec<u8>,
        start_ts: TimeStamp,
        lock_ttl: u64,
        is_first_lock: bool,
        for_update_ts: TimeStamp,
        wait_timeout: Option<WaitTimeout>,
        return_values: bool,
        min_commit_ts: TimeStamp,
        check_existence: bool,
        lock_only_if_exists: bool,
        allow_lock_with_conflict: bool,
        skip_locked: bool,
        ctx: Context,
    ) -> (command: AcquirePessimisticLock)
        ensures
            command.keys == keys,
            command.primary == primary,
            command.start_ts == start_ts,
            command.lock_ttl == lock_ttl,
            command.is_first_lock == is_first_lock,
            command.for_update_ts == for_update_ts,
            command.wait_timeout == wait_timeout,
            command.return_values == return_values,
            command.min_commit_ts == min_commit_ts,
            command.check_existence == check_existence,
            command.lock_only_if_exists == lock_only_if_exists,
            command.allow_lock_with_conflict == allow_lock_with_conflict,
            command.skip_locked == skip_locked,
            command.ctx == ctx,
    {
        AcquirePessimisticLock {
            keys,
            primary,
            start_ts,
            lock_ttl,
            is_first_lock,
            for_update_ts,
            wait_timeout,
            return_values,
            min_commit_ts,
            check_existence,
            lock_only_if_exists,
            allow_lock_with_conflict,
            skip_locked,
            ctx,
        }
    }

    /// The context of the request.
    pub fn ctx(&self) -> (ctx: &Context)
        ensures
            ctx.deep_view() == self.deep_view().ctx,
    {
        &self.ctx
    }

    /// The name under which the command is accounted for.
    pub fn tag(&self) -> (tag: &'static str)
        ensures
            tag@ == "acquire_pessimistic_lock"@,
    {
        "acquire_pessimistic_lock"
    }

    /// The kind of client request that the command serves.
    pub fn request_type(&self) -> (request_type: &'static str)
        ensures
            request_type@ == "KvPessimisticLock"@,
    {
        "KvPessimisticLock"
    }

    /// The timestamp of the transaction.
    pub fn ts(&self) -> (ts: TimeStamp)
        ensures
            ts == self.start_ts,
    {
        self.start_ts
    }

    /// Whether the client may be answered before the write is replicated.
    pub fn can_be_pipelined(&self) -> (r: bool)
        ensures
            r,
    {
        true
    }

    /// The size of the command: that of its encoded keys.
    pub fn write_bytes(&self) -> (size: usize)
        requires
            encoded_size(self.deep_view().keys) <= usize::MAX,
        ensures
            size == encoded_size(self.deep_view().keys),
    {
        let ghost keys = self.deep_view().keys;
        let mut size: usize = 0;
        let mut i: usize = 0;
        while i < self.keys.len()
            invariant
                i <= self.keys.len(),
                keys == self.keys.deep_view(),
                keys.len() == self.keys.len(),
                encoded_size(keys) <= usize::MAX,
                size == encoded_size(keys.take(i as int)),
            decreases self.keys.len() - i,
        {
            proof {
                lemma_encoded_size_grows(keys, i + 1);
                assert(keys.take(i + 1).drop_last() =~= keys.take(i as int));
            }
            size += self.keys[i].0.as_encoded().len();
            i += 1;
        }
        assert(keys.take(i as int) =~= keys);
        size
    }

    /// The keys whose latches are held while the command is processed: all that it names.
    pub fn gen_lock(&self) -> (keys: Vec<&Key>)
        ensures
            keys.deep_view() == self.deep_view().keys.map_values(
                |key: (KeyView, bool, bool)| key.0,
            ),
    {
        let mut keys: Vec<&Key> = Vec::new();
        let mut i: usize = 0;
        while i < self.keys.len()
            invariant
                i <= self.keys.len(),
                keys.len() == i,
                forall|j: int| 0 <= j < i ==> *#[trigger] keys@[j] == self.keys@[j].0,
            decreases self.keys.len() - i,
        {
            keys.push(&self.keys[i].0);
            i += 1;
        }
        assert(keys.deep_view() =~= self.deep_view().keys.map_values(
            |key: (KeyView, bool, bool)| key.0,
        ));
        keys
    }
}

} // verus!
