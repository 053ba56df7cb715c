//! Requests whose replies are given by hand.

use pessimistic_lock::bytes::{copy_bytes, same_bytes};
use pessimistic_lock::command::AcquirePessimisticLock;
use pessimistic_lock::errors::{Error, MvccError, StorageError};
use pessimistic_lock::lock::{Lock, LockHolder, LockInfo, LockType, SharedLocks};
use pessimistic_lock::old_values::{OldValue, OldValueEntry, OldValues};
use pessimistic_lock::reply::{Acquired, LockReply};
use pessimistic_lock::results::{
    PessimisticLockKeyResult, PessimisticLockParameters, PessimisticLockResults, ProcessResult,
    ResponsePolicy, WriteResult, WriteResultLockInfo,
};
use pessimistic_lock::run::WriteContext;
use pessimistic_lock::txn::{Modify, MvccTxn};
use pessimistic_lock::types::{Context, ExtraOp, Key, KeyError, TimeStamp, WaitTimeout};
use pessimistic_lock::write_data::{make_write_data, WriteData};

const START_TS: u64 = 20;

fn key(raw: &str) -> Key {
    Key::new(format!("{}!", raw).into_bytes(), Ok(raw.as_bytes().to_vec()))
}

fn bad_key() -> Key {
    Key::new(vec![1, 2], Err(KeyError { reason: "too short".to_owned() }))
}

fn lock(ts: u64) -> Lock {
    Lock {
        lock_type: LockType::Pessimistic,
        primary: b"p".to_vec(),
        ts: TimeStamp::new(ts),
        ttl: 3000,
        for_update_ts: TimeStamp::new(ts),
        min_commit_ts: TimeStamp::zero(),
        rest: vec![9],
    }
}

fn lock_info(raw: &str, ts: u64) -> LockInfo {
    LockInfo { key: raw.as_bytes().to_vec(), holder: LockHolder::Exclusive(lock(ts)) }
}

fn put(raw: &str) -> Modify {
    Modify::PutLock(key(raw), lock(START_TS))
}

fn acquired_with(
    raw: &str,
    result: PessimisticLockKeyResult,
    old_value: Option<OldValue>,
) -> LockReply {
    LockReply::Acquired(Acquired {
        result,
        old_value,
        modifies: vec![put(raw)],
        new_locks: vec![lock_info(raw, START_TS)],
    })
}

fn acquired(raw: &str) -> LockReply {
    acquired_with(raw, PessimisticLockKeyResult::Empty, None)
}

fn locked(raw: &str) -> LockReply {
    LockReply::Failed(MvccError::KeyIsLocked(lock_info(raw, 10)))
}

fn shared() -> LockReply {
    LockReply::Failed(MvccError::NotInShrinkMode(SharedLocks::new(
        false,
        vec![lock(5), lock(7)],
    )))
}

fn context() -> Context {
    Context { encoded: vec![8, 1] }
}

fn request(raws: &[&str]) -> AcquirePessimisticLock {
    AcquirePessimisticLock::new(
        raws.iter().map(|raw| (key(raw), *raw == "new", false)).collect(),
        b"p".to_vec(),
        TimeStamp::new(START_TS),
        3000,
        true,
        TimeStamp::new(25),
        Some(WaitTimeout::Millis(100)),
        false,
        TimeStamp::new(21),
        false,
        false,
        false,
        false,
        context(),
    )
}

fn no_extra_op() -> WriteContext {
    WriteContext { extra_op: ExtraOp::Noop }
}

fn process(
    command: AcquirePessimisticLock,
    replies: Vec<LockReply>,
) -> Result<WriteResult, Error> {
    command.process_write(no_extra_op(), replies)
}

fn results(result: &WriteResult) -> &Vec<PessimisticLockKeyResult> {
    &result.pr.results().unwrap().0
}

#[test]
fn every_key_locked() {
    let result = process(
        request(&["a", "b"]),
        vec![
            acquired_with("a", PessimisticLockKeyResult::Value(Some(b"1".to_vec())), None),
            acquired_with("b", PessimisticLockKeyResult::Existence(false), None),
        ],
    )
    .unwrap();
    assert_eq!(
        *results(&result),
        vec![
            PessimisticLockKeyResult::Value(Some(b"1".to_vec())),
            PessimisticLockKeyResult::Existence(false),
        ]
    );
    assert_eq!(result.to_be_write.modifies, vec![put("a"), put("b")]);
    assert_eq!(
        result.new_acquired_locks,
        vec![lock_info("a", START_TS), lock_info("b", START_TS)]
    );
    assert_eq!(result.rows, 2);
    assert_eq!(result.ctx, context());
    assert_eq!(result.response_policy, ResponsePolicy::OnProposed);
    assert!(result.lock_info.is_empty());
    assert!(result.released_locks.is_empty());
    assert!(result.lock_guards.is_empty());
    assert!(result.known_txn_status.is_empty());
    assert!(!result.to_be_write.extra.one_pc);
    assert!(!result.to_be_write.extra.allowed_in_flashback);
}

#[test]
fn no_keys() {
    let result = process(request(&[]), vec![]).unwrap();
    assert!(results(&result).is_empty());
    assert_eq!(result.to_be_write, WriteData::default());
    assert_eq!(result.rows, 0);
}

#[test]
fn conflicts_are_allowed_for_one_key_only() {
    let mut command = request(&["a", "b"]);
    command.allow_lock_with_conflict = true;
    command.skip_locked = true;
    assert_eq!(
        process(command, vec![]),
        Err(Error::Other(
            "multiple keys in a single request with allowed_lock_with_conflict set is not allowed"
                .to_owned()
        ))
    );
}

#[test]
fn conflicts_are_not_allowed_with_skipping() {
    let mut command = request(&["a"]);
    command.allow_lock_with_conflict = true;
    command.skip_locked = true;
    assert_eq!(
        process(command, vec![]),
        Err(Error::Other(
            "skip_locked together with allow_lock_with_conflict is not allowed".to_owned()
        ))
    );
}

#[test]
fn conflict_result_is_passed_on() {
    let mut command = request(&["a"]);
    command.allow_lock_with_conflict = true;
    let conflict = || PessimisticLockKeyResult::LockedWithConflict {
        value: Some(b"1".to_vec()),
        conflict_ts: TimeStamp::new(30),
    };
    let result = process(command, vec![acquired_with("a", conflict(), None)]).unwrap();
    assert_eq!(*results(&result), vec![conflict()]);
}

#[test]
fn met_lock_is_waited_for() {
    let result = process(
        request(&["a", "new", "c"]),
        vec![acquired_with("a", PessimisticLockKeyResult::Empty, Some(OldValue::Absent)), locked("new")],
    )
    .unwrap();
    assert_eq!(*results(&result), vec![PessimisticLockKeyResult::Waiting]);
    assert_eq!(result.to_be_write, WriteData::default());
    assert!(result.new_acquired_locks.is_empty());
    assert_eq!(result.rows, 3);
    assert_eq!(
        result.lock_info,
        vec![WriteResultLockInfo {
            lock_info_pb: lock_info("new", 10),
            parameters: PessimisticLockParameters {
                pb_ctx: context(),
                primary: b"p".to_vec(),
                start_ts: TimeStamp::new(START_TS),
                lock_ttl: 3000,
                for_update_ts: TimeStamp::new(25),
                wait_timeout: Some(WaitTimeout::Millis(100)),
                return_values: false,
                min_commit_ts: TimeStamp::new(21),
                check_existence: false,
                is_first_lock: true,
                lock_only_if_exists: false,
                allow_lock_with_conflict: false,
            },
            key: key("new"),
            should_not_exist: true,
            is_shared_lock: false,
        }]
    );
}

#[test]
fn met_lock_fails_a_request_that_does_not_wait() {
    let mut command = request(&["a", "b"]);
    command.wait_timeout = None;
    let result = process(command, vec![acquired("a"), locked("b")]).unwrap();
    assert_eq!(result.pr.get_key_lock_info(), Some(&lock_info("b", 10)));
    assert!(result.pr.results().is_none());
    assert_eq!(result.to_be_write, WriteData::default());
    assert!(result.lock_info.is_empty());
    assert!(result.new_acquired_locks.is_empty());
    assert_eq!(result.rows, 0);
}

#[test]
fn met_lock_fails_the_key_where_conflicts_are_allowed() {
    let mut command = request(&["a"]);
    command.wait_timeout = None;
    command.allow_lock_with_conflict = true;
    let result = process(command, vec![locked("a")]).unwrap();
    assert_eq!(
        *results(&result),
        vec![PessimisticLockKeyResult::Failed(StorageError::Txn(Error::Mvcc(
            MvccError::KeyIsLocked(lock_info("a", 10))
        )))]
    );
    assert_eq!(result.pr.get_key_lock_info(), None);
    assert_eq!(result.rows, 1);
    assert!(result.lock_info.is_empty());
}

#[test]
fn met_shared_locks_are_made_shrink_only() {
    let result = process(
        request(&["a", "b"]),
        vec![acquired_with("a", PessimisticLockKeyResult::Empty, Some(OldValue::Absent)), shared()],
    )
    .unwrap();
    assert_eq!(
        result.to_be_write.modifies,
        vec![Modify::PutSharedLocks(key("b"), SharedLocks::new(true, vec![lock(5), lock(7)]))]
    );
    assert!(result.to_be_write.extra.old_values.entries().is_empty());
    assert_eq!(
        result.pr,
        ProcessResult::PessimisticLockRes {
            res: Err(StorageError::Txn(Error::Mvcc(MvccError::KeyIsLocked(LockInfo {
                key: b"b".to_vec(),
                holder: LockHolder::Shared(vec![lock(5), lock(7)]),
            }))))
        }
    );
    assert!(result.lock_info.is_empty());
    assert!(result.new_acquired_locks.is_empty());
    assert_eq!(result.rows, 0);
}

#[test]
fn met_shared_locks_on_a_key_that_cannot_be_decoded() {
    let mut command = request(&["a"]);
    command.keys.push((bad_key(), false, false));
    assert_eq!(
        process(command, vec![acquired("a"), shared()]),
        Err(Error::Key(KeyError { reason: "too short".to_owned() }))
    );
}

#[test]
fn locked_keys_are_skipped() {
    let mut command = request(&["a", "b", "c", "d"]);
    command.skip_locked = true;
    let result =
        process(command, vec![locked("a"), acquired("b"), shared(), acquired("d")]).unwrap();
    assert_eq!(
        *results(&result),
        vec![
            PessimisticLockKeyResult::Skipped,
            PessimisticLockKeyResult::Empty,
            PessimisticLockKeyResult::Skipped,
            PessimisticLockKeyResult::Empty,
        ]
    );
    assert_eq!(result.rows, 4);

    // The skipped keys leave no trace.
    let mut fewer = request(&["b", "d"]);
    fewer.skip_locked = true;
    let without = process(fewer, vec![acquired("b"), acquired("d")]).unwrap();
    assert_eq!(result.to_be_write, without.to_be_write);
    assert_eq!(result.new_acquired_locks, without.new_acquired_locks);
    assert_eq!(result.lock_info, without.lock_info);
    let told: Vec<&PessimisticLockKeyResult> = results(&result)
        .iter()
        .filter(|result| **result != PessimisticLockKeyResult::Skipped)
        .collect();
    assert_eq!(told, results(&without).iter().collect::<Vec<_>>());
}

#[test]
fn a_key_that_cannot_be_decoded_is_skipped_as_well() {
    let mut command = request(&[]);
    command.keys.push((bad_key(), false, false));
    command.skip_locked = true;
    command.wait_timeout = None;
    let result = process(command, vec![shared()]).unwrap();
    assert_eq!(*results(&result), vec![PessimisticLockKeyResult::Skipped]);
    assert_eq!(result.to_be_write, WriteData::default());
}

#[test]
fn other_errors_fail_the_request() {
    let rolled_back = || MvccError::Other {
        description: "rolled back".to_owned(),
        encoded: vec![4, 2],
    };
    for skip_locked in [false, true] {
        let mut command = request(&["a", "b", "c"]);
        command.skip_locked = skip_locked;
        let result = process(
            command,
            vec![
                acquired("a"),
                LockReply::Failed(rolled_back()),
            ],
        );
        assert_eq!(result, Err(Error::Mvcc(rolled_back())));
    }
}

#[test]
fn replies_beyond_those_that_settle_do_not_count() {
    let once = process(request(&["a", "b"]), vec![locked("a")]);
    let more = process(request(&["a", "b"]), vec![locked("a"), acquired("b"), shared()]);
    assert_eq!(once, more);
}

#[test]
fn old_values_are_recorded_where_resolved() {
    let value = |value: &str| OldValue::Value(value.as_bytes().to_vec());
    let result = process(
        request(&["a", "b", "a", "c"]),
        vec![
            acquired_with("a", PessimisticLockKeyResult::Empty, Some(value("1"))),
            acquired_with("b", PessimisticLockKeyResult::Empty, None),
            acquired_with("a", PessimisticLockKeyResult::Empty, Some(value("2"))),
            acquired_with(
                "c",
                PessimisticLockKeyResult::Empty,
                Some(OldValue::ValueTimeStamp(TimeStamp::new(4))),
            ),
        ],
    )
    .unwrap();
    let entry = |raw: &str, old_value: OldValue| OldValueEntry {
        key: key(raw),
        start_ts: TimeStamp::new(START_TS),
        old_value,
        mutation_type: None,
    };
    assert_eq!(
        *result.to_be_write.extra.old_values.entries(),
        vec![
            entry("a", value("2")),
            entry("c", OldValue::ValueTimeStamp(TimeStamp::new(4))),
        ]
    );
}

#[test]
fn the_engine_is_asked_key_by_key() {
    let mut command = request(&["a", "new"]);
    command.keys[0].2 = true;
    command.return_values = true;
    command.check_existence = true;
    let mut run = command.begin(WriteContext { extra_op: ExtraOp::ReadOldValue }).ok().unwrap();
    {
        let request = run.request().unwrap();
        assert_eq!(*request.key, key("a"));
        assert_eq!(*request.ctx, context());
        assert_eq!(*request.primary, b"p".to_vec());
        assert_eq!(request.start_ts, TimeStamp::new(START_TS));
        assert_eq!(request.for_update_ts, TimeStamp::new(25));
        assert_eq!(request.min_commit_ts, TimeStamp::new(21));
        assert_eq!(request.lock_ttl, 3000);
        assert!(request.need_value);
        assert!(request.need_check_existence);
        assert!(request.need_old_value);
        assert!(!request.should_not_exist);
        assert!(request.is_shared_lock);
        assert!(!request.lock_only_if_exists);
        assert!(!request.allow_lock_with_conflict);
    }
    run.take_reply(acquired("a"));
    {
        let request = run.request().unwrap();
        assert_eq!(*request.key, key("new"));
        assert!(request.should_not_exist);
        assert!(!request.is_shared_lock);
    }
    run.take_reply(locked("new"));
    assert!(run.request().is_none());
    assert_eq!(run.finish().unwrap().lock_info.len(), 1);
}

#[test]
fn no_old_value_is_asked_for_without_the_extra_operation() {
    let run = request(&["a"]).begin(no_extra_op()).ok().unwrap();
    assert!(!run.request().unwrap().need_old_value);
}

#[test]
fn results_count_as_sent_unless_the_request_failed() {
    let size = |results: &PessimisticLockResults| 10 + results.0.len() as u64;
    let result = process(request(&["a", "b"]), vec![acquired("a"), acquired("b")]).unwrap();
    assert_eq!(result.pr.network_out_bytes(size), 12);
    let mut command = request(&["a"]);
    command.wait_timeout = None;
    let result = process(command, vec![locked("a")]).unwrap();
    assert_eq!(result.pr.network_out_bytes(size), 0);
}

#[test]
fn encoded_changes_are_passed_on() {
    let reply = LockReply::Acquired(Acquired {
        result: PessimisticLockKeyResult::Empty,
        old_value: None,
        modifies: vec![Modify::Encoded(vec![1, 2, 3]), put("a")],
        new_locks: vec![],
    });
    let result = process(request(&["a"]), vec![reply]).unwrap();
    assert_eq!(result.to_be_write.modifies, vec![Modify::Encoded(vec![1, 2, 3]), put("a")]);
}

#[test]
fn command_properties() {
    let command = request(&["a", "bcd"]);
    assert_eq!(command.write_bytes(), 6);
    assert_eq!(command.gen_lock(), vec![&key("a"), &key("bcd")]);
    assert_eq!(command.ts(), TimeStamp::new(START_TS));
    assert_eq!(command.tag(), "acquire_pessimistic_lock");
    assert_eq!(command.request_type(), "KvPessimisticLock");
    assert_eq!(*command.ctx(), context());
    assert!(command.can_be_pipelined());
    assert_eq!(request(&[]).write_bytes(), 0);
}

#[test]
fn old_values_alone_are_not_written() {
    let mut old_values = OldValues::new();
    old_values.insert_if_resolved(key("a"), TimeStamp::new(1), Some(OldValue::Absent), None);
    assert_eq!(old_values.entries().len(), 1);
    assert_eq!(make_write_data(vec![], old_values), WriteData::default());

    let mut old_values = OldValues::new();
    old_values.insert_if_resolved(
        key("a"),
        TimeStamp::new(1),
        Some(OldValue::SeekWrite(b"s".to_vec())),
        None,
    );
    old_values.insert_if_resolved(key("a"), TimeStamp::new(2), Some(OldValue::Absent), None);
    let data = make_write_data(vec![put("a")], old_values);
    assert_eq!(data.modifies, vec![put("a")]);
    assert_eq!(data.extra.old_values.entries().len(), 2);

    let mut old_values = data.extra.old_values;
    old_values.clear();
    assert_eq!(old_values, OldValues::new());
}

#[test]
fn a_transaction_forgets_what_it_gathered() {
    let mut txn = MvccTxn::new(TimeStamp::new(START_TS));
    txn.extend(vec![put("a")], vec![lock_info("a", START_TS)]);
    txn.clear();
    txn.put_shared_locks(key("b"), &SharedLocks::new(true, vec![lock(5)]));
    assert_eq!(txn.start_ts(), TimeStamp::new(START_TS));
    let (modifies, new_locks) = txn.into_parts();
    assert_eq!(
        modifies,
        vec![Modify::PutSharedLocks(key("b"), SharedLocks::new(true, vec![lock(5)]))]
    );
    assert!(new_locks.is_empty());
}

#[test]
fn shared_locks_are_reported_as_such() {
    let mut locks = SharedLocks::new(false, vec![lock(5)]);
    assert!(!locks.is_shrink_only());
    locks.set_shrink_only();
    assert!(locks.is_shrink_only());
    let info = locks.into_lock_info(b"a".to_vec());
    assert!(info.is_shared_lock());
    assert_eq!(info.key, b"a".to_vec());
    assert!(!lock_info("a", 5).is_shared_lock());
}

#[test]
fn byte_strings() {
    assert_eq!(copy_bytes(&vec![1, 2]), vec![1, 2]);
    assert!(same_bytes(&vec![1, 2], &vec![1, 2]));
    assert!(!same_bytes(&vec![1, 2], &vec![1, 3]));
    assert!(!same_bytes(&vec![1, 2], &vec![1]));
    assert_eq!(key("a").to_raw(), Ok(b"a".to_vec()));
    assert!(bad_key().to_raw().is_err());
    assert_eq!(TimeStamp::new(3).into_inner(), 3);
}
