//! Lock requests against a small in-memory engine with multi-version rows.

use std::collections::BTreeMap;

use pessimistic_lock::command::AcquirePessimisticLock;
use pessimistic_lock::errors::{Error, MvccError};
use pessimistic_lock::lock::{Lock, LockHolder, LockInfo, LockType, SharedLocks};
use pessimistic_lock::reply::{Acquired, LockReply, LockRequest};
use pessimistic_lock::results::{
    PessimisticLockKeyResult, PessimisticLockResults, ProcessResult, WriteResult,
};
use pessimistic_lock::run::WriteContext;
use pessimistic_lock::txn::Modify;
use pessimistic_lock::types::{Context, ExtraOp, Key, KeyError, TimeStamp, WaitTimeout};
use pessimistic_lock::write_data::WriteData;

const GROUP: usize = 8;

/// The memory-comparable encoding: groups of eight bytes, each followed by a byte that says how
/// many of them are padding.
fn encode(raw: &[u8]) -> Vec<u8> {
    let mut encoded = Vec::new();
    let mut rest = raw;
    loop {
        let taken = rest.len().min(GROUP);
        encoded.extend_from_slice(&rest[..taken]);
        encoded.resize(encoded.len() + GROUP - taken, 0);
        encoded.push(255 - (GROUP - taken) as u8);
        if taken < GROUP {
            return encoded;
        }
        rest = &rest[taken..];
    }
}

fn decode(encoded: &[u8]) -> Result<Vec<u8>, KeyError> {
    let error = || KeyError { reason: "bad encoding".to_owned() };
    let mut raw = Vec::new();
    for group in encoded.chunks(GROUP + 1) {
        if group.len() != GROUP + 1 {
            return Err(error());
        }
        let padding = (255 - group[GROUP]) as usize;
        if padding > GROUP {
            return Err(error());
        }
        raw.extend_from_slice(&group[..GROUP - padding]);
        if padding > 0 {
            return Ok(raw);
        }
    }
    Err(error())
}

fn key_from_raw(raw: &[u8]) -> Key {
    let encoded = encode(raw);
    let decoded = decode(&encoded);
    assert_eq!(decoded, Ok(raw.to_vec()));
    Key::new(encoded, decoded)
}

enum Held {
    Exclusive(Lock, Option<Vec<u8>>),
    Shared(SharedLocks),
}

#[derive(Clone)]
enum Change {
    Put(Vec<u8>),
    Delete,
    Lock,
    Rollback,
}

struct Version {
    start_ts: u64,
    commit_ts: u64,
    change: Change,
}

#[derive(Default)]
struct Row {
    held: Option<Held>,
    versions: Vec<Version>,
}

impl Row {
    fn latest(&self) -> Option<&Version> {
        self.versions.iter().max_by_key(|version| version.commit_ts)
    }

    fn value(&self) -> Option<Vec<u8>> {
        self.versions
            .iter()
            .filter(|version| matches!(version.change, Change::Put(_) | Change::Delete))
            .max_by_key(|version| version.commit_ts)
            .and_then(|version| match &version.change {
                Change::Put(value) => Some(value.clone()),
                _ => None,
            })
    }
}

#[derive(Default)]
struct Engine {
    rows: BTreeMap<Vec<u8>, Row>,
}

impl Engine {
    fn row(&mut self, raw: &[u8]) -> &mut Row {
        self.rows.entry(raw.to_vec()).or_default()
    }

    /// Tries to lock one key.
    fn acquire(&mut self, request: &LockRequest<'_>) -> LockReply {
        let raw = decode(request.key.as_encoded()).unwrap();
        let row = self.row(&raw);
        let lock = Lock {
            lock_type: LockType::Pessimistic,
            primary: request.primary.clone(),
            ts: request.start_ts,
            ttl: request.lock_ttl,
            for_update_ts: request.for_update_ts,
            min_commit_ts: request.min_commit_ts,
            rest: vec![],
        };
        let result = if request.need_value {
            PessimisticLockKeyResult::Value(row.value())
        } else if request.need_check_existence {
            PessimisticLockKeyResult::Existence(row.value().is_some())
        } else {
            PessimisticLockKeyResult::Empty
        };
        let mut shared = Vec::new();
        match &row.held {
            Some(Held::Exclusive(held, _)) => {
                if held.ts != request.start_ts {
                    return LockReply::Failed(MvccError::KeyIsLocked(LockInfo {
                        key: raw,
                        holder: LockHolder::Exclusive(held.clone()),
                    }));
                }
                return LockReply::Acquired(Acquired {
                    result,
                    old_value: None,
                    modifies: vec![],
                    new_locks: vec![],
                });
            }
            Some(Held::Shared(locks)) => {
                if locks.is_shrink_only() {
                    let info = locks.clone().into_lock_info(raw);
                    return LockReply::Failed(MvccError::KeyIsLocked(info));
                }
                if !request.is_shared_lock {
                    return LockReply::Failed(MvccError::NotInShrinkMode(locks.clone()));
                }
                shared = locks.locks().clone();
            }
            None => {}
        }
        if let Some(latest) = row.latest() {
            if latest.commit_ts > request.for_update_ts.into_inner() {
                return LockReply::Failed(MvccError::WriteConflict {
                    start_ts: request.start_ts,
                    conflict_start_ts: TimeStamp::new(latest.start_ts),
                    conflict_commit_ts: TimeStamp::new(latest.commit_ts),
                    key: raw,
                    primary: request.primary.clone(),
                    rest: vec![],
                });
            }
        }
        let new_locks = vec![LockInfo {
            key: raw,
            holder: LockHolder::Exclusive(lock.clone()),
        }];
        let modify = if request.is_shared_lock {
            shared.push(lock);
            Modify::PutSharedLocks(request.key.clone(), SharedLocks::new(false, shared))
        } else {
            Modify::PutLock(request.key.clone(), lock)
        };
        LockReply::Acquired(Acquired {
            result,
            old_value: None,
            modifies: vec![modify],
            new_locks,
        })
    }

    fn write(&mut self, data: WriteData) {
        for modify in data.modifies {
            let (key, held) = match modify {
                Modify::PutLock(key, lock) => (key, Held::Exclusive(lock, None)),
                Modify::PutSharedLocks(key, locks) => (key, Held::Shared(locks)),
                Modify::Encoded(_) => panic!("the engine encodes no change"),
            };
            let raw = decode(key.as_encoded()).unwrap();
            self.row(&raw).held = Some(held);
        }
    }

    fn process(
        &mut self,
        command: AcquirePessimisticLock,
        context: WriteContext,
    ) -> Result<WriteResult, Error> {
        let mut run = command.begin(context)?;
        while let Some(request) = run.request() {
            let reply = self.acquire(&request);
            run.take_reply(reply);
        }
        run.finish()
    }
}

fn prewrite(
    engine: &mut Engine,
    key: &[u8],
    lock_type: LockType,
    value: Option<Vec<u8>>,
    primary: &[u8],
    start_ts: u64,
) {
    let row = engine.row(key);
    assert!(row.held.is_none());
    let lock = Lock {
        lock_type,
        primary: primary.to_vec(),
        ts: TimeStamp::new(start_ts),
        ttl: 0,
        for_update_ts: TimeStamp::zero(),
        min_commit_ts: TimeStamp::zero(),
        rest: vec![],
    };
    row.held = Some(Held::Exclusive(lock, value));
}

fn must_prewrite_put(engine: &mut Engine, key: &[u8], value: &[u8], pk: &[u8], ts: u64) {
    prewrite(engine, key, LockType::Put, Some(value.to_vec()), pk, ts);
}

fn must_prewrite_delete(engine: &mut Engine, key: &[u8], pk: &[u8], ts: u64) {
    prewrite(engine, key, LockType::Delete, None, pk, ts);
}

fn must_prewrite_lock(engine: &mut Engine, key: &[u8], pk: &[u8], ts: u64) {
    prewrite(engine, key, LockType::Lock, None, pk, ts);
}

fn must_commit(engine: &mut Engine, key: &[u8], start_ts: u64, commit_ts: u64) {
    let row = engine.row(key);
    let change = match row.held.take() {
        Some(Held::Exclusive(lock, value)) => {
            assert_eq!(lock.ts, TimeStamp::new(start_ts));
            match (lock.lock_type, value) {
                (LockType::Put, Some(value)) => Change::Put(value),
                (LockType::Delete, None) => Change::Delete,
                (LockType::Lock, None) => Change::Lock,
                _ => panic!("cannot commit this lock"),
            }
        }
        _ => panic!("nothing to commit"),
    };
    row.versions.push(Version { start_ts, commit_ts, change });
}

fn must_rollback(engine: &mut Engine, key: &[u8], start_ts: u64, _protect_rollback: bool) {
    let row = engine.row(key);
    match row.held.take() {
        Some(Held::Exclusive(lock, _)) => assert_eq!(lock.ts, TimeStamp::new(start_ts)),
        _ => panic!("nothing to roll back"),
    }
    row.versions.push(Version { start_ts, commit_ts: start_ts, change: Change::Rollback });
}

fn must_pessimistic_locked(engine: &mut Engine, key: &[u8], start_ts: u64, for_update_ts: u64) {
    match &engine.row(key).held {
        Some(Held::Exclusive(lock, None)) => {
            assert_eq!(lock.lock_type, LockType::Pessimistic);
            assert_eq!(lock.ts, TimeStamp::new(start_ts));
            assert_eq!(lock.for_update_ts, TimeStamp::new(for_update_ts));
        }
        _ => panic!("not locked pessimistically"),
    }
}

fn must_load_shared_lock(engine: &mut Engine, key: &[u8]) -> SharedLocks {
    match &engine.row(key).held {
        Some(Held::Shared(locks)) => locks.clone(),
        _ => panic!("no shared locks"),
    }
}

fn assert_empty(result: &PessimisticLockKeyResult) {
    assert_eq!(*result, PessimisticLockKeyResult::Empty);
}

fn assert_value(result: &PessimisticLockKeyResult, value: Option<&[u8]>) {
    let value = value.map(|value| value.to_vec());
    assert_eq!(*result, PessimisticLockKeyResult::Value(value));
}

fn assert_skipped(result: &PessimisticLockKeyResult) {
    assert_eq!(*result, PessimisticLockKeyResult::Skipped);
}

fn no_extra_op() -> WriteContext {
    WriteContext { extra_op: ExtraOp::Noop }
}

/// Locks keys without waiting, and writes the locks.
fn pessimistic_lock(
    engine: &mut Engine,
    keys: Vec<(&[u8], bool)>,
    pk: Vec<u8>,
    start_ts: u64,
    for_update_ts: u64,
    return_values: bool,
) -> PessimisticLockResults {
    let command = AcquirePessimisticLock::new(
        keys.into_iter()
            .map(|(key, should_not_exist)| (key_from_raw(key), should_not_exist, false))
            .collect(),
        pk,
        TimeStamp::new(start_ts),
        3000,
        false,
        TimeStamp::new(for_update_ts),
        None,
        return_values,
        TimeStamp::zero(),
        false,
        false,
        false,
        false,
        Context::default(),
    );
    let result = engine.process(command, no_extra_op()).unwrap();
    engine.write(result.to_be_write);
    match result.pr {
        ProcessResult::PessimisticLockRes { res } => res.unwrap(),
    }
}

/// Processes a request with `skip_locked` set, checks that no key enters the lock waiting queue,
/// and writes what it writes.
#[allow(clippy::too_many_arguments)]
fn acquire_skip_locked(
    engine: &mut Engine,
    keys: Vec<&[u8]>,
    pk: &[u8],
    start_ts: u64,
    for_update_ts: u64,
    return_values: bool,
    allow_lock_with_conflict: bool,
) -> Result<PessimisticLockResults, Error> {
    let command = AcquirePessimisticLock::new(
        keys.into_iter().map(|key| (key_from_raw(key), false, false)).collect(),
        pk.to_vec(),
        TimeStamp::new(start_ts),
        3000,
        false,
        TimeStamp::new(for_update_ts),
        Some(WaitTimeout::Default),
        return_values,
        TimeStamp::zero(),
        false,
        false,
        allow_lock_with_conflict,
        true,
        Context::default(),
    );
    let result = engine.process(command, no_extra_op())?;
    // Skipped keys never enter the lock waiting queue, even though the request has a timeout.
    assert!(result.lock_info.is_empty());
    if !result.to_be_write.modifies.is_empty() {
        engine.write(result.to_be_write);
    }
    match result.pr {
        ProcessResult::PessimisticLockRes { res } => Ok(res.unwrap()),
    }
}

fn must_process_acquire_pessimistic_cmd(
    engine: &mut Engine,
    ctx: Context,
    start_ts: u64,
    for_update_ts: u64,
    pk: &[u8],
    key: &[u8],
    shared: bool,
) -> WriteResult {
    let command = AcquirePessimisticLock::new(
        vec![(key_from_raw(key), false, shared)],
        pk.to_vec(),
        TimeStamp::new(start_ts),
        3000,
        false,
        TimeStamp::new(for_update_ts),
        Some(WaitTimeout::Default),
        false,
        TimeStamp::zero(),
        false,
        false,
        false,
        false,
        ctx,
    );
    engine.process(command, no_extra_op()).unwrap()
}

#[test]
fn test_pessimistic_with_return_values() {
    let mut engine = Engine::default();

    let k1 = b"k1";
    let k2 = b"k2";
    let k3 = b"k3";
    let k4 = b"k4";
    let k5 = b"k5";

    let v1 = b"v1";
    let v2 = b"v2";
    let v3 = b"v3";

    // Versions of the rows
    // commit_ts  writes
    // 20         k1: put(v1)  k2: put(v1) k3: put(v1)    k4: put(v1)
    // 40         k1: put(v2)  k2: put(v2) k3: delete     k4: delete
    // 50         k1: rollback             k3: rollback
    // 60                      k2: lock                   k4: lock
    // values:    k1: v2       k2: v2      k3: -          k4: -          k5: -

    // version 20
    for k in [k1, k2, k3, k4] {
        must_prewrite_put(&mut engine, k, v1, k1, 10);
    }
    for k in [k1, k2, k3, k4] {
        must_commit(&mut engine, k, 10, 20);
    }
    // version 40
    for k in [k1, k2] {
        must_prewrite_put(&mut engine, k, v2, k1, 30);
    }
    for k in [k3, k4] {
        must_prewrite_delete(&mut engine, k, k1, 30);
    }
    for k in [k1, k2, k3, k4] {
        must_commit(&mut engine, k, 30, 40);
    }
    // version 50
    for k in [k1, k3] {
        must_prewrite_put(&mut engine, k, v3, k1, 50);
    }
    for k in [k1, k3] {
        must_rollback(&mut engine, k, 50, false)
    }
    // version 60
    for k in [k2, k4] {
        must_prewrite_lock(&mut engine, k, v2, 51);
    }
    for k in [k2, k4] {
        must_commit(&mut engine, k, 51, 60);
    }

    for start_ts in [15, 25, 35, 45, 55, 65] {
        let for_update_ts = start_ts + 50;
        let pk = k1.to_vec();
        let keys = vec![k1, k2, k3, k4, k5];
        let expects: Vec<PessimisticLockKeyResult> = [Some(v2), Some(v2), None, None, None]
            .iter()
            .map(|v| PessimisticLockKeyResult::Value(v.map(|b| b.to_vec())))
            .collect();
        let res = pessimistic_lock(
            &mut engine,
            keys.clone().into_iter().map(|k| (k.as_ref(), false)).collect(),
            pk,
            start_ts,
            for_update_ts,
            true,
        );
        assert_eq!(res.0, expects);
        for key in keys.clone() {
            must_pessimistic_locked(&mut engine, key, start_ts, for_update_ts);
        }
        for key in keys.clone() {
            must_rollback(&mut engine, key, start_ts, false)
        }

        // single key lock test
        let start_ts = start_ts + 1;
        let for_update_ts = start_ts + 50;
        for (i, key) in keys.clone().into_iter().enumerate() {
            let pk = key.to_vec();
            let keys = vec![(key.as_ref(), false)];
            let expect = &expects[i];
            let res = pessimistic_lock(&mut engine, keys, pk, start_ts, for_update_ts, true);
            assert_eq!(res.0.len(), 1);
            assert_eq!(&res.0[0], expect);
            must_pessimistic_locked(&mut engine, key, start_ts, for_update_ts);
        }
        for key in keys {
            must_rollback(&mut engine, key, start_ts, false);
        }
    }
}

#[test]
fn test_shared_locks() {
    let mut engine = Engine::default();
    let pk = b"shared-lock-pk";
    let key = b"shared-lock";
    let ctx = Context::default();

    // Acquire a shared lock and write it.
    let res =
        must_process_acquire_pessimistic_cmd(&mut engine, ctx.clone(), 5, 5, pk, key, true);
    engine.write(res.to_be_write);

    // Acquire another one on the same key, which succeeds since the shared locks are not
    // shrink-only.
    let res =
        must_process_acquire_pessimistic_cmd(&mut engine, ctx.clone(), 7, 7, pk, key, true);
    engine.write(res.to_be_write);

    // Acquire an exclusive lock on the same key, which writes the shared locks back and reports
    // them.
    let res =
        must_process_acquire_pessimistic_cmd(&mut engine, ctx.clone(), 10, 10, pk, key, false);
    assert!(res.lock_info.is_empty());
    assert!(!res.to_be_write.modifies.is_empty());
    let lock_info = res.pr.get_key_lock_info().expect("expected shared lock info");
    assert!(lock_info.is_shared_lock());
    assert_eq!(lock_info.key, key.to_vec());

    // Write the shared locks back.
    engine.write(res.to_be_write);
    let shared_locks = must_load_shared_lock(&mut engine, key);
    assert!(shared_locks.is_shrink_only());
    assert_eq!(shared_locks.locks().len(), 2);

    // Acquire an exclusive lock again on the same key, which waits.
    let res =
        must_process_acquire_pessimistic_cmd(&mut engine, ctx.clone(), 12, 12, pk, key, false);
    assert!(!res.lock_info.is_empty());
    assert!(res.to_be_write.modifies.is_empty());
    match &res.pr {
        ProcessResult::PessimisticLockRes { res: Ok(res) } => {
            assert_eq!(res.0.len(), 1);
            assert_eq!(res.0[0], PessimisticLockKeyResult::Waiting);
        }
        _ => panic!("unexpected process result"),
    }

    // Acquire a shared lock on the same key, which waits as well.
    let res =
        must_process_acquire_pessimistic_cmd(&mut engine, ctx.clone(), 15, 15, pk, key, true);
    assert!(!res.lock_info.is_empty());
    assert!(res.to_be_write.modifies.is_empty());
    match &res.pr {
        ProcessResult::PessimisticLockRes { res: Ok(res) } => {
            assert_eq!(res.0.len(), 1);
            assert_eq!(res.0[0], PessimisticLockKeyResult::Waiting);
        }
        _ => panic!("unexpected process result"),
    }
}

#[test]
fn test_skip_locked() {
    let mut engine = Engine::default();

    let (k1, k2, k3) = (b"k1", b"k2", b"k3");
    must_prewrite_put(&mut engine, k1, b"v1", k1, 1);
    must_commit(&mut engine, k1, 1, 2);

    // txn1 locks k2.
    let res = acquire_skip_locked(&mut engine, vec![k2], k2, 10, 10, false, false).unwrap();
    assert_empty(&res.0[0]);
    must_pessimistic_locked(&mut engine, k2, 10, 10);

    // txn2 locks [k1, k2, k3] with skip-locked: k2 is skipped while k1 and k3 are still locked,
    // unlike a request that waits or fails, which is given up as a whole.
    let res =
        acquire_skip_locked(&mut engine, vec![k1, k2, k3], k1, 20, 20, false, false).unwrap();
    assert_eq!(res.0.len(), 3);
    assert_empty(&res.0[0]);
    assert_skipped(&res.0[1]);
    assert_empty(&res.0[2]);
    must_pessimistic_locked(&mut engine, k1, 20, 20);
    must_pessimistic_locked(&mut engine, k3, 20, 20);
    // k2 is still locked by txn1.
    must_pessimistic_locked(&mut engine, k2, 10, 10);

    // Keys locked by the same transaction are not skipped.
    let res = acquire_skip_locked(&mut engine, vec![k2], k2, 10, 10, false, false).unwrap();
    assert_empty(&res.0[0]);

    // With return_values, no value is returned for a skipped key.
    let res = acquire_skip_locked(&mut engine, vec![k1, k2], k1, 20, 20, true, false).unwrap();
    assert_value(&res.0[0], Some(b"v1"));
    assert_skipped(&res.0[1]);

    // Optimistic (prewrite) locks of other transactions are skipped as well.
    must_prewrite_put(&mut engine, b"k4", b"v4", b"k4", 15);
    let res =
        acquire_skip_locked(&mut engine, vec![b"k4"], b"k4", 20, 20, false, false).unwrap();
    assert_skipped(&res.0[0]);

    // A write conflict on an unlocked key is not a lock and still fails the request: the client
    // is expected to retry at a newer for_update_ts.
    must_prewrite_put(&mut engine, b"k5", b"v5", b"k5", 25);
    must_commit(&mut engine, b"k5", 25, 30);
    let err =
        acquire_skip_locked(&mut engine, vec![b"k5"], b"k5", 20, 20, false, false).unwrap_err();
    assert!(matches!(err, Error::Mvcc(MvccError::WriteConflict { .. })));

    // skip_locked together with allow_lock_with_conflict is rejected.
    let err =
        acquire_skip_locked(&mut engine, vec![b"k6"], b"k6", 20, 20, false, true).unwrap_err();
    assert!(matches!(err, Error::Other(_)));

    // Results are reported in request order even when the keys are not sorted: a transaction at
    // ts 30 locks k8, and a skip-locked request for [k9, k7, k8] must report
    // [Normal, Normal, Skipped].
    let res =
        acquire_skip_locked(&mut engine, vec![b"k8"], b"k8", 30, 30, false, false).unwrap();
    assert_empty(&res.0[0]);
    let res =
        acquire_skip_locked(&mut engine, vec![b"k9", b"k7", b"k8"], b"k9", 40, 40, false, false)
            .unwrap();
    assert_eq!(res.0.len(), 3);
    assert_empty(&res.0[0]);
    assert_empty(&res.0[1]);
    assert_skipped(&res.0[2]);
    must_pessimistic_locked(&mut engine, b"k9", 40, 40);
    must_pessimistic_locked(&mut engine, b"k7", 40, 40);
    must_pessimistic_locked(&mut engine, b"k8", 30, 30);
}

#[test]
fn test_skip_locked_shared_locks() {
    let mut engine = Engine::default();
    let pk = b"pk";
    let key = b"shared";
    let ctx = Context::default();

    // txn1 acquires a shared lock on the key.
    let res =
        must_process_acquire_pessimistic_cmd(&mut engine, ctx.clone(), 5, 5, pk, key, true);
    engine.write(res.to_be_write);

    // An exclusive skip-locked request skips the key without making the shared locks
    // shrink-only, since it must not touch what other transactions hold.
    let res = acquire_skip_locked(&mut engine, vec![key], pk, 10, 10, false, false).unwrap();
    assert_skipped(&res.0[0]);
    let shared_locks = must_load_shared_lock(&mut engine, key);
    assert!(!shared_locks.is_shrink_only());
}
