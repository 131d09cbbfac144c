use fuse_mutation::error::ErrorCode;
use fuse_mutation::error::ErrorKind;
use fuse_mutation::lock::predecessor;
use fuse_mutation::lock::LockAction;
use fuse_mutation::lock::LockEvent;
use fuse_mutation::lock::LockManager;
use fuse_mutation::lock::LockStage;
use fuse_mutation::lock::TableLock;
use fuse_mutation::table::DatabaseType;
use fuse_mutation::table::Engine;
use fuse_mutation::table::TableIdent;
use fuse_mutation::table::TableInfo;
use fuse_mutation::table::TableMeta;
use fuse_mutation::table::TableSchema;

fn lock() -> TableLock {
    LockManager::create_table_lock(&TableInfo {
        ident: TableIdent { table_id: 9, seq: 4 },
        desc: "'db'.'t'".to_string(),
        name: "t".to_string(),
        meta: TableMeta {
            schema: TableSchema { fields: vec![], next_column_id: 0 },
            engine: Engine::Fuse,
            field_comments: vec![],
            snapshot_location: None,
        },
        db_type: DatabaseType::NormalDB,
        read_only: false,
        change_tracking: false,
    })
}

fn deleted(actions: &[LockAction]) -> Vec<u64> {
    actions
        .iter()
        .filter_map(|a| match a {
            LockAction::DeleteRevision { revision, .. } => Some(*revision),
            LockAction::Fail { delete, .. } => *delete,
            _ => None,
        })
        .collect()
}

#[test]
fn a_revision_waits_for_the_greatest_one_below_it() {
    assert_eq!(predecessor(&vec![], 5), None);
    assert_eq!(predecessor(&vec![5], 5), None);
    assert_eq!(predecessor(&vec![9, 5, 7], 5), None);
    assert_eq!(predecessor(&vec![9, 5, 3], 5), Some(3));
    assert_eq!(predecessor(&vec![1, 4, 2, 5, 3, 8], 5), Some(4));
    assert_eq!(predecessor(&vec![4, 4, 1], 5), Some(4));
    assert_eq!(predecessor(&vec![0], u64::MAX), Some(0));
}

#[test]
fn the_least_revision_holds_the_lock() {
    let mut lock = lock();
    assert_eq!(lock.table_id, 9);
    assert_eq!(lock.stage, LockStage::Idle);
    let actions = vec![
        lock.step(LockEvent::Acquire),
        lock.step(LockEvent::RevisionCreated { revision: 12 }),
        lock.step(LockEvent::Revisions { revisions: vec![15, 12, 13] }),
    ];
    assert!(matches!(actions[0], LockAction::CreateRevision { table_id: 9 }));
    assert!(matches!(actions[1], LockAction::ListRevisions { table_id: 9 }));
    assert!(matches!(actions[2], LockAction::Granted { revision: 12 }));
    assert_eq!(lock.stage, LockStage::Held);
    assert_eq!(lock.revision, Some(12));
    let release = lock.step(LockEvent::Release);
    assert!(matches!(release, LockAction::DeleteRevision { table_id: 9, revision: 12 }));
    assert_eq!(lock.stage, LockStage::Released);
    assert_eq!(lock.revision, None);
    assert!(matches!(lock.step(LockEvent::Release), LockAction::Nothing));
}

#[test]
fn a_later_revision_waits_its_turn() {
    let mut lock = lock();
    let actions = vec![
        lock.step(LockEvent::Acquire),
        lock.step(LockEvent::RevisionCreated { revision: 12 }),
        lock.step(LockEvent::Revisions { revisions: vec![10, 12, 11, 14] }),
        lock.step(LockEvent::PredecessorGone),
        lock.step(LockEvent::Revisions { revisions: vec![10, 12, 14] }),
        lock.step(LockEvent::PredecessorGone),
        lock.step(LockEvent::Revisions { revisions: vec![12, 14] }),
        lock.step(LockEvent::Release),
    ];
    assert!(matches!(actions[2], LockAction::WaitFor { revision: 11 }));
    assert!(matches!(actions[3], LockAction::ListRevisions { table_id: 9 }));
    assert!(matches!(actions[4], LockAction::WaitFor { revision: 10 }));
    assert!(matches!(actions[6], LockAction::Granted { revision: 12 }));
    assert_eq!(deleted(&actions), vec![12]);
}

#[test]
fn a_wait_that_times_out_ends_the_attempt_and_deletes_the_revision() {
    let mut lock = lock();
    let actions = vec![
        lock.step(LockEvent::Acquire),
        lock.step(LockEvent::RevisionCreated { revision: 12 }),
        lock.step(LockEvent::Revisions { revisions: vec![10, 12] }),
        lock.step(LockEvent::TimedOut),
    ];
    match &actions[3] {
        LockAction::Fail { delete, error } => {
            assert_eq!(*delete, Some(12));
            assert_eq!(error.kind, ErrorKind::Conflict);
            assert_eq!(error.message, "table is locked by other session, please retry later");
        }
        other => panic!("unexpected action {:?}", other),
    }
    assert_eq!(lock.stage, LockStage::Failed);
    assert_eq!(lock.revision, None);
    assert_eq!(deleted(&actions), vec![12]);
}

#[test]
fn a_failure_of_the_store_deletes_the_revision_that_was_registered() {
    let events = || {
        vec![
            LockEvent::Acquire,
            LockEvent::RevisionCreated { revision: 12 },
            LockEvent::Revisions { revisions: vec![10, 12] },
            LockEvent::PredecessorGone,
            LockEvent::Revisions { revisions: vec![12] },
        ]
    };
    for fail_at in 0..=events().len() {
        let mut lock = lock();
        let mut run = events();
        run.truncate(fail_at);
        run.push(LockEvent::Failed {
            error: ErrorCode::create(ErrorKind::Transient, "the store is away"),
        });
        let actions: Vec<LockAction> = run.into_iter().map(|e| lock.step(e)).collect();
        let registered = fail_at >= 2;
        match actions.last().unwrap() {
            LockAction::Fail { delete, error } => {
                assert_eq!(*delete, if registered { Some(12) } else { None });
                assert_eq!(error.kind, ErrorKind::Transient);
            }
            other => panic!("unexpected action {:?}", other),
        }
        assert_eq!(deleted(&actions), if registered { vec![12] } else { vec![] });
        assert_eq!(lock.revision, None);
    }
}

#[test]
fn an_event_out_of_turn_ends_the_attempt() {
    let mut lock = lock();
    lock.step(LockEvent::Acquire);
    match lock.step(LockEvent::Release) {
        LockAction::Fail { delete, error } => {
            assert_eq!(delete, None);
            assert_eq!(error.kind, ErrorKind::Internal);
        }
        other => panic!("unexpected action {:?}", other),
    }
}
