use fuse_mutation::commit::contains_location;
use fuse_mutation::commit::CommitAction;
use fuse_mutation::commit::CommitEvent;
use fuse_mutation::commit::CommitStage;
use fuse_mutation::commit::MutationGenerator;
use fuse_mutation::commit::SnapshotChanges;
use fuse_mutation::commit::SnapshotCommitter;
use fuse_mutation::commit::MAX_COMMIT_ATTEMPTS;
use fuse_mutation::error::ErrorCode;
use fuse_mutation::error::ErrorKind;
use fuse_mutation::meta::MatchSeq;
use fuse_mutation::part::Location;
use fuse_mutation::plan::MutationKind;
use fuse_mutation::snapshot::Statistics;
use fuse_mutation::snapshot::TableSnapshot;

fn location(name: &str) -> Location {
    Location { path: name.to_string(), version: 4 }
}

fn rows(rows: u64, blocks: u64) -> Statistics {
    Statistics {
        row_count: rows,
        block_count: blocks,
        uncompressed_byte_size: rows * 10,
        compressed_byte_size: rows * 3,
    }
}

fn snapshot(seq: u64, segments: &[&str], summary: Statistics) -> TableSnapshot {
    TableSnapshot { seq, segments: segments.iter().map(|s| location(s)).collect(), summary }
}

fn paths(snapshot: &TableSnapshot) -> Vec<&str> {
    snapshot.segments.iter().map(|s| s.path.as_str()).collect()
}

fn changes(
    removed: &[&str],
    added: &[&str],
    removed_statistics: Statistics,
    added_statistics: Statistics,
) -> SnapshotChanges {
    SnapshotChanges {
        removed_segments: removed.iter().map(|s| location(s)).collect(),
        added_segments: added.iter().map(|s| location(s)).collect(),
        removed_statistics,
        added_statistics,
    }
}

/// A metadata store for one table: it takes a snapshot only on the
/// condition that comes with it.
struct Store {
    version: u64,
    snapshot: TableSnapshot,
}

impl Store {
    fn publish(&mut self, seq: MatchSeq, snapshot: TableSnapshot) -> CommitEvent {
        if seq.match_seq(self.version).is_ok() {
            self.version += 1;
            self.snapshot = snapshot;
            CommitEvent::PublishAccepted { version: self.version, shared: false }
        } else {
            CommitEvent::PublishRejected
        }
    }

    fn reload(&self) -> CommitEvent {
        CommitEvent::Reloaded { latest: self.snapshot.duplicate(), version: self.version }
    }
}

#[test]
fn the_next_snapshot_puts_the_added_segments_in_front() {
    let generator = MutationGenerator::new(
        changes(&["s1"], &["n0", "n1"], rows(100, 1), rows(100, 2)),
        MutationKind::Update,
    );
    let base = snapshot(7, &["s0", "s1", "s2"], rows(300, 3));
    let next = generator.generate_new_snapshot(&base).unwrap();
    assert_eq!(next.seq, 8);
    assert_eq!(paths(&next), vec!["n0", "n1", "s0", "s2"]);
    assert_eq!(next.summary, rows(300, 4));
    assert_eq!(paths(&base), vec!["s0", "s1", "s2"]);
}

#[test]
fn a_mutation_whose_segment_is_gone_is_a_conflict() {
    let generator = MutationGenerator::new(
        changes(&["s1"], &["n0"], rows(100, 1), rows(100, 1)),
        MutationKind::Delete,
    );
    let err = generator.generate_new_snapshot(&snapshot(7, &["s0", "s2"], rows(200, 2))).unwrap_err();
    assert_eq!(err.kind, ErrorKind::Conflict);
    assert_eq!(
        err.message,
        "a segment that the mutation replaces is gone from the latest snapshot"
    );
    let other_version = TableSnapshot {
        seq: 7,
        segments: vec![Location { path: "s1".to_string(), version: 5 }],
        summary: rows(100, 1),
    };
    assert_eq!(
        generator.generate_new_snapshot(&other_version).unwrap_err().kind,
        ErrorKind::Conflict
    );
}

#[test]
fn totals_that_do_not_fit_are_an_internal_error() {
    let base = snapshot(7, &["s0"], rows(100, 1));
    let too_much = MutationGenerator::new(
        changes(&["s0"], &[], rows(101, 1), rows(0, 0)),
        MutationKind::Delete,
    );
    assert_eq!(too_much.generate_new_snapshot(&base).unwrap_err().kind, ErrorKind::Internal);
    let overflow = MutationGenerator::new(
        changes(
            &[],
            &["n0"],
            rows(0, 0),
            Statistics { row_count: u64::MAX, ..Statistics::zero() },
        ),
        MutationKind::Insert,
    );
    let err = overflow.generate_new_snapshot(&base).unwrap_err();
    assert_eq!(err.kind, ErrorKind::Internal);
    assert_eq!(err.message, "the totals of the mutation do not fit the snapshot");
    let last = snapshot(u64::MAX, &["s0"], rows(100, 1));
    let fine = MutationGenerator::new(changes(&[], &[], rows(0, 0), rows(0, 0)), MutationKind::Compact);
    assert_eq!(fine.generate_new_snapshot(&last).unwrap_err().kind, ErrorKind::Internal);
    assert_eq!(fine.generate_new_snapshot(&base).unwrap().seq, 8);
}

#[test]
fn locations_are_found_by_path_and_version() {
    let segments = vec![location("a"), location("b")];
    assert!(contains_location(&segments, &location("b")));
    assert!(!contains_location(&segments, &location("c")));
    assert!(!contains_location(&segments, &Location { path: "b".to_string(), version: 5 }));
    assert!(!contains_location(&vec![], &location("a")));
}

#[test]
fn a_commit_without_contention_is_published_once() {
    let mut store = Store { version: 4, snapshot: snapshot(7, &["s0"], rows(100, 1)) };
    let generator = MutationGenerator::new(
        changes(&["s0"], &["n0"], rows(100, 1), rows(100, 1)),
        MutationKind::Update,
    );
    let mut committer = SnapshotCommitter::new(9, generator);
    let action = committer.step(CommitEvent::Begin { base: store.snapshot.duplicate(), version: 4 });
    let answer = match action {
        CommitAction::Publish { table_id, seq, snapshot, kind } => {
            assert_eq!(table_id, 9);
            assert_eq!(seq, MatchSeq::Exact(4));
            assert_eq!(kind, MutationKind::Update);
            assert_eq!(paths(&snapshot), vec!["n0"]);
            store.publish(seq, snapshot)
        }
        other => panic!("unexpected action {:?}", other),
    };
    assert!(matches!(committer.step(answer), CommitAction::Done { version: 5 }));
    assert_eq!(committer.progress.stage, CommitStage::Committed);
    assert_eq!(committer.progress.attempts, 1);
    assert_eq!(store.version, 5);
    assert_eq!(paths(&store.snapshot), vec!["n0"]);
}

#[test]
fn an_update_behind_an_unrelated_delete_retries_and_wins() {
    // The table: the block of 100 rows that the UPDATE rewrites lies in
    // `s-update`; the DELETE of another session rewrites `s-other`.
    let base = snapshot(7, &["s-update", "s-other"], rows(150, 2));
    let mut store = Store { version: 4, snapshot: base.duplicate() };
    // The UPDATE has read the base: 20 of the 100 rows match, and the block
    // is rewritten with as many rows as it had.
    let update = MutationGenerator::new(
        changes(&["s-update"], &["s-updated"], rows(100, 1), rows(100, 1)),
        MutationKind::Update,
    );
    let mut committer = SnapshotCommitter::new(9, update);
    let first =
        committer.step(CommitEvent::Begin { base: base.duplicate(), version: store.version });
    // Meanwhile the DELETE commits: 10 of the 50 rows of `s-other` leave.
    let delete = MutationGenerator::new(
        changes(&["s-other"], &["s-other-2"], rows(50, 1), rows(40, 1)),
        MutationKind::Delete,
    );
    let deleted = delete.generate_new_snapshot(&store.snapshot).unwrap();
    assert!(matches!(
        store.publish(MatchSeq::Exact(4), deleted),
        CommitEvent::PublishAccepted { version: 5, .. }
    ));
    // The first attempt of the UPDATE is refused, and the store is as the
    // DELETE left it.
    let rejected = match first {
        CommitAction::Publish { seq, snapshot, .. } => {
            assert_eq!(seq, MatchSeq::Exact(4));
            store.publish(seq, snapshot)
        }
        other => panic!("unexpected action {:?}", other),
    };
    assert!(matches!(rejected, CommitEvent::PublishRejected));
    assert_eq!(store.version, 5);
    assert_eq!(paths(&store.snapshot), vec!["s-other-2", "s-update"]);
    // It reads the latest snapshot and tries again.
    assert!(matches!(committer.step(rejected), CommitAction::Reload));
    assert_eq!(committer.progress.stage, CommitStage::Reloading);
    let second = committer.step(store.reload());
    let accepted = match second {
        CommitAction::Publish { seq, snapshot, .. } => {
            assert_eq!(seq, MatchSeq::Exact(5));
            store.publish(seq, snapshot)
        }
        other => panic!("unexpected action {:?}", other),
    };
    assert!(matches!(committer.step(accepted), CommitAction::Done { version: 6 }));
    assert_eq!(committer.progress.attempts, 2);
    // The final snapshot holds what the DELETE wrote and what the UPDATE
    // wrote, and neither of the segments that they replaced.
    assert_eq!(store.version, 6);
    assert_eq!(paths(&store.snapshot), vec!["s-updated", "s-other-2"]);
    assert_eq!(store.snapshot.summary, rows(140, 2));
    assert_eq!(store.snapshot.seq, 9);
}

#[test]
fn a_contended_segment_is_a_conflict_at_the_retry() {
    let base = snapshot(7, &["s0"], rows(100, 1));
    let mut store = Store { version: 4, snapshot: base.duplicate() };
    let update = MutationGenerator::new(
        changes(&["s0"], &["s0-updated"], rows(100, 1), rows(100, 1)),
        MutationKind::Update,
    );
    let mut committer = SnapshotCommitter::new(9, update);
    let first = committer.step(CommitEvent::Begin { base: base.duplicate(), version: 4 });
    let delete = MutationGenerator::new(
        changes(&["s0"], &["s0-deleted"], rows(100, 1), rows(90, 1)),
        MutationKind::Delete,
    );
    let deleted = delete.generate_new_snapshot(&store.snapshot).unwrap();
    store.publish(MatchSeq::Exact(4), deleted);
    let rejected = match first {
        CommitAction::Publish { seq, snapshot, .. } => store.publish(seq, snapshot),
        other => panic!("unexpected action {:?}", other),
    };
    assert!(matches!(committer.step(rejected), CommitAction::Reload));
    match committer.step(store.reload()) {
        CommitAction::Fail { error } => assert_eq!(error.kind, ErrorKind::Conflict),
        other => panic!("unexpected action {:?}", other),
    }
    assert_eq!(committer.progress.stage, CommitStage::Failed);
    assert_eq!(paths(&store.snapshot), vec!["s0-deleted"]);
    assert_eq!(store.version, 5);
}

#[test]
fn a_commit_gives_up_after_the_last_attempt() {
    let base = snapshot(7, &["s0"], rows(100, 1));
    let generator = MutationGenerator::new(
        changes(&[], &["n0"], rows(0, 0), rows(1, 1)),
        MutationKind::Insert,
    );
    let mut committer = SnapshotCommitter::new(9, generator);
    let mut action = committer.step(CommitEvent::Begin { base: base.duplicate(), version: 4 });
    let mut published = 0;
    loop {
        match action {
            CommitAction::Publish { seq, .. } => {
                published += 1;
                assert_eq!(seq, MatchSeq::Exact(3 + published));
                action = committer.step(CommitEvent::PublishRejected);
            }
            CommitAction::Reload => {
                action = committer.step(CommitEvent::Reloaded {
                    latest: base.duplicate(),
                    version: 4 + published,
                });
            }
            CommitAction::Fail { error } => {
                assert_eq!(error.kind, ErrorKind::Conflict);
                assert_eq!(
                    error.message,
                    "the table was changed by others at every attempt to commit"
                );
                break;
            }
            other => panic!("unexpected action {:?}", other),
        }
    }
    assert_eq!(published, MAX_COMMIT_ATTEMPTS as u64);
    assert_eq!(MAX_COMMIT_ATTEMPTS, 10);
    assert_eq!(committer.progress.stage, CommitStage::Failed);
    assert!(matches!(committer.step(CommitEvent::PublishRejected), CommitAction::Nothing));
}

#[test]
fn a_store_that_fails_for_now_is_tried_again() {
    let base = snapshot(7, &["s0"], rows(100, 1));
    let generator = MutationGenerator::new(
        changes(&[], &["n0"], rows(0, 0), rows(1, 1)),
        MutationKind::Insert,
    );
    let mut committer = SnapshotCommitter::new(9, generator);
    committer.step(CommitEvent::Begin { base: base.duplicate(), version: 4 });
    let away = || ErrorCode::create(ErrorKind::Transient, "the store is away");
    assert!(matches!(
        committer.step(CommitEvent::TransientFailure { error: away() }),
        CommitAction::Reload
    ));
    match committer.step(CommitEvent::TransientFailure { error: away() }) {
        CommitAction::Fail { error } => {
            assert_eq!(error.kind, ErrorKind::Transient);
            assert_eq!(error.message, "the store is away");
        }
        other => panic!("unexpected action {:?}", other),
    }
}

#[test]
fn a_fatal_answer_is_not_retried() {
    let base = snapshot(7, &["s0"], rows(100, 1));
    let generator = MutationGenerator::new(
        changes(&[], &["n0"], rows(0, 0), rows(1, 1)),
        MutationKind::Insert,
    );
    let mut committer = SnapshotCommitter::new(9, generator);
    committer.step(CommitEvent::Begin { base, version: 4 });
    let fatal = ErrorCode::create(ErrorKind::EngineNotSupported, "the table is not a table");
    match committer.step(CommitEvent::FatalFailure { error: fatal }) {
        CommitAction::Fail { error } => assert_eq!(error.kind, ErrorKind::EngineNotSupported),
        other => panic!("unexpected action {:?}", other),
    }
    assert_eq!(committer.progress.attempts, 1);
}

#[test]
fn the_shares_of_a_shared_table_are_told_before_the_end() {
    let base = snapshot(7, &["s0"], rows(100, 1));
    let generator = MutationGenerator::new(
        changes(&[], &["n0"], rows(0, 0), rows(1, 1)),
        MutationKind::Insert,
    );
    let mut committer = SnapshotCommitter::new(9, generator);
    committer.step(CommitEvent::Begin { base, version: 4 });
    assert!(matches!(
        committer.step(CommitEvent::PublishAccepted { version: 5, shared: true }),
        CommitAction::PropagateShare
    ));
    assert_eq!(committer.progress.stage, CommitStage::Propagating);
    assert!(matches!(
        committer.step(CommitEvent::SharePropagated),
        CommitAction::Done { version: 5 }
    ));
}

#[test]
fn an_acceptance_that_was_not_asked_for_commits_nothing() {
    let generator = MutationGenerator::new(
        changes(&[], &["n0"], rows(0, 0), rows(1, 1)),
        MutationKind::Insert,
    );
    let mut committer = SnapshotCommitter::new(9, generator);
    match committer.step(CommitEvent::PublishAccepted { version: 5, shared: false }) {
        CommitAction::Fail { error } => assert_eq!(error.kind, ErrorKind::Internal),
        other => panic!("unexpected action {:?}", other),
    }
    assert_eq!(committer.progress.stage, CommitStage::Failed);
}

#[test]
fn a_condition_on_the_version_is_met_as_it_says() {
    assert!(MatchSeq::Any.match_seq(7).is_ok());
    assert!(MatchSeq::Exact(7).match_seq(7).is_ok());
    assert!(MatchSeq::GE(7).match_seq(7).is_ok());
    assert!(MatchSeq::GE(7).match_seq(8).is_ok());
    for (condition, seq) in [(MatchSeq::Exact(7), 6), (MatchSeq::Exact(7), 8), (MatchSeq::GE(7), 6)] {
        let err = condition.match_seq(seq).unwrap_err();
        assert_eq!(err.kind, ErrorKind::Conflict);
        assert_eq!(err.message, "the record is not at the expected version");
    }
}
