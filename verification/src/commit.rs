//! The commit of a mutation: from a base snapshot and a description of
//! the segments that the mutation removes and adds to the next snapshot,
//! published on condition that nobody else has published since the base
//! was read; and what to do where somebody has.

use crate::error::ErrorCode;
use crate::error::ErrorKind;
use crate::error::ErrorView;
use crate::part::Location;
use crate::part::LocationView;
use crate::meta::MatchSeq;
use crate::plan::MutationKind;
use crate::snapshot::duplicate_locations;
use crate::snapshot::location_views;
use crate::snapshot::Statistics;
use crate::snapshot::TableSnapshot;
use crate::snapshot::TableSnapshotView;
use vstd::prelude::*;

verus! {

/// What a mutation changes in a snapshot: the segments that it takes out
/// and those that it puts in, with the totals of each.
#[derive(Debug)]
pub struct SnapshotChanges {
    pub removed_segments: Vec<Location>,
    pub added_segments: Vec<Location>,
    pub removed_statistics: Statistics,
    pub added_statistics: Statistics,
}

/// The mathematical value of [`SnapshotChanges`].
pub struct SnapshotChangesView {
    pub removed_segments: Seq<LocationView>,
    pub added_segments: Seq<LocationView>,
    pub removed_statistics: Statistics,
    pub added_statistics: Statistics,
}

impl View for SnapshotChanges {
    type V = SnapshotChangesView;

    open spec fn view(&self) -> SnapshotChangesView {
        SnapshotChangesView {
            removed_segments: location_views(self.removed_segments@),
            added_segments: location_views(self.added_segments@),
            removed_statistics: self.removed_statistics,
            added_statistics: self.added_statistics,
        }
    }
}

impl SnapshotChangesView {
    /// Whether the changes can be applied to `base`: every segment that
    /// they take out is there.
    pub open spec fn resolvable(self, base: TableSnapshotView) -> bool {
        forall|i: int|
            0 <= i < self.removed_segments.len() ==> base.segments.contains(
                #[trigger] self.removed_segments[i],
            )
    }

    /// Whether the totals of the next snapshot can be held: those that
    /// leave are covered by the base, those that come fit on top, and the
    /// base is not the last snapshot that can be numbered.
    pub open spec fn countable(self, base: TableSnapshotView) -> bool {
        &&& base.summary.covers(self.removed_statistics)
        &&& base.summary.deducted(self.removed_statistics).can_merge(self.added_statistics)
        &&& base.seq < u64::MAX
    }

    /// The segments of `base` that stay.
    pub open spec fn kept(self, base: TableSnapshotView) -> Seq<LocationView> {
        base.segments.filter(|s: LocationView| !self.removed_segments.contains(s))
    }

    /// The snapshot that follows `base` under the changes: the added
    /// segments in front of those that stay, in the order they had; the
    /// totals of the base less what leaves plus what comes; the next
    /// number.
    pub open spec fn applied(self, base: TableSnapshotView) -> TableSnapshotView {
        TableSnapshotView {
            seq: (base.seq + 1) as u64,
            segments: self.added_segments + self.kept(base),
            summary: base.summary.deducted(self.removed_statistics).merged(self.added_statistics),
        }
    }

    /// What generating the next snapshot gives: the snapshot, or the error
    /// that says why there is none.
    pub open spec fn generated(self, base: TableSnapshotView) -> Result<
        TableSnapshotView,
        ErrorView,
    > {
        if !self.resolvable(base) {
            Err(unresolvable())
        } else if !self.countable(base) {
            Err(uncountable())
        } else {
            Ok(self.applied(base))
        }
    }
}

/// The error for changes that no longer fit the latest snapshot.
pub open spec fn unresolvable() -> ErrorView {
    ErrorView {
        kind: ErrorKind::Conflict,
        message: "a segment that the mutation replaces is gone from the latest snapshot"@,
    }
}

/// The error for totals that cannot be held.
pub open spec fn uncountable() -> ErrorView {
    ErrorView {
        kind: ErrorKind::Internal,
        message: "the totals of the mutation do not fit the snapshot"@,
    }
}

/// Whether `segments` holds the location `wanted`.
pub fn contains_location(segments: &Vec<Location>, wanted: &Location) -> (found: bool)
    ensures
        found == location_views(segments@).contains(wanted@),
{
    let mut i: usize = 0;
    while i < segments.len()
        invariant
            i <= segments.len(),
            forall|j: int| 0 <= j < i ==> (#[trigger] location_views(segments@)[j]) != wanted@,
        decreases segments.len() - i,
    {
        if segments[i].equals(wanted) {
            assert(location_views(segments@)[i as int] == wanted@);
            return true;
        }
        i = i + 1;
    }
    false
}

/// Makes the next snapshot of a table from the latest one and the changes
/// of a mutation.
#[derive(Debug)]
pub struct MutationGenerator {
    pub changes: SnapshotChanges,
    pub kind: MutationKind,
}

impl MutationGenerator {
    /// The generator for the given changes.
    pub fn new(changes: SnapshotChanges, kind: MutationKind) -> (generator: MutationGenerator)
        ensures
            generator.changes == changes,
            generator.kind == kind,
    {
        MutationGenerator { changes, kind }
    }

    /// The snapshot that follows `latest` under the changes of the
    /// mutation. Where a segment that the mutation takes out is no longer
    /// in `latest`, the changes cannot be applied and the result is a
    /// conflict; where the totals cannot be held, an internal error.
    pub fn generate_new_snapshot(&self, latest: &TableSnapshot) -> (next: Result<
        TableSnapshot,
        ErrorCode,
    >)
        ensures
            match next {
                Ok(snapshot) => self.changes@.generated(latest@) == Ok::<
                    TableSnapshotView,
                    ErrorView,
                >(snapshot@),
                Err(e) => self.changes@.generated(latest@) == Err::<TableSnapshotView, ErrorView>(
                    e@,
                ),
            },
    {
        let ghost changes = self.changes@;
        let mut i: usize = 0;
        while i < self.changes.removed_segments.len()
            invariant
                i <= self.changes.removed_segments.len(),
                changes == self.changes@,
                forall|j: int|
                    0 <= j < i ==> latest@.segments.contains(#[trigger] changes.removed_segments[j]),
            decreases self.changes.removed_segments.len() - i,
        {
            if !contains_location(&latest.segments, &self.changes.removed_segments[i]) {
                assert(!latest@.segments.contains(changes.removed_segments[i as int]));
                return Err(
                    ErrorCode::create(
                        ErrorKind::Conflict,
                        "a segment that the mutation replaces is gone from the latest snapshot",
                    ),
                );
            }
            i = i + 1;
        }
        let rest = latest.summary.deduct(&self.changes.removed_statistics);
        let summary = match rest {
            Some(rest) => rest.merge(&self.changes.added_statistics),
            None => None,
        };
        let summary = match summary {
            Some(summary) => summary,
            None => {
                return Err(
                    ErrorCode::create(
                        ErrorKind::Internal,
                        "the totals of the mutation do not fit the snapshot",
                    ),
                );
            },
        };
        if latest.seq == u64::MAX {
            return Err(
                ErrorCode::create(
                    ErrorKind::Internal,
                    "the totals of the mutation do not fit the snapshot",
                ),
            );
        }
        let mut segments = duplicate_locations(&self.changes.added_segments);
        let ghost stays = |s: LocationView| !changes.removed_segments.contains(s);
        let mut k: usize = 0;
        assert(latest@.segments.take(0).filter(stays) =~= Seq::<LocationView>::empty()) by {
            reveal(Seq::filter);
        }
        assert(location_views(segments@) =~= changes.added_segments + latest@.segments.take(
            0,
        ).filter(stays));
        while k < latest.segments.len()
            invariant
                k <= latest.segments.len(),
                changes == self.changes@,
                stays == |s: LocationView| !changes.removed_segments.contains(s),
                location_views(segments@) == changes.added_segments + latest@.segments.take(
                    k as int,
                ).filter(stays),
            decreases latest.segments.len() - k,
        {
            let ghost before = location_views(segments@);
            let segment = &latest.segments[k];
            proof {
                assert(latest@.segments.take(k + 1).drop_last() =~= latest@.segments.take(k as int));
                assert(latest@.segments.take(k + 1).last() == segment@);
                reveal(Seq::filter);
            }
            if !contains_location(&self.changes.removed_segments, segment) {
                segments.push(segment.duplicate());
                assert(location_views(segments@) =~= before.push(segment@));
            }
            k = k + 1;
        }
        assert(latest@.segments.take(k as int) =~= latest@.segments);
        Ok(TableSnapshot { seq: latest.seq + 1, segments, summary })
    }
}

/// Under changes that can be applied, a segment is in the next snapshot
/// exactly when the mutation adds it, or the latest snapshot has it and
/// the mutation does not take it out. So a mutation that is applied again
/// to a later snapshot removes nothing but what it set out to remove, and
/// keeps whatever others have added in between.
pub proof fn lemma_applied_segments(
    changes: SnapshotChangesView,
    latest: TableSnapshotView,
    segment: LocationView,
)
    ensures
        changes.applied(latest).segments.contains(segment) <==> changes.added_segments.contains(
            segment,
        ) || (latest.segments.contains(segment) && !changes.removed_segments.contains(segment)),
{
    let stays = |s: LocationView| !changes.removed_segments.contains(s);
    let kept = latest.segments.filter(stays);
    let next = changes.added_segments + kept;
    assert(changes.applied(latest).segments == next);
    if next.contains(segment) {
        let i = choose|i: int| 0 <= i < next.len() && next[i] == segment;
        if i < changes.added_segments.len() {
            assert(changes.added_segments[i] == segment);
        } else {
            let j = i - changes.added_segments.len();
            assert(kept[j] == segment);
            latest.segments.lemma_filter_pred(stays, j);
            assert(kept.contains(segment));
            latest.segments.lemma_filter_contains_rev(stays, segment);
        }
    }
    if changes.added_segments.contains(segment) {
        let i = choose|i: int|
            0 <= i < changes.added_segments.len() && changes.added_segments[i] == segment;
        assert(next[i] == segment);
    }
    if latest.segments.contains(segment) && !changes.removed_segments.contains(segment) {
        let k = choose|k: int| 0 <= k < latest.segments.len() && latest.segments[k] == segment;
        assert(stays(latest.segments[k]));
        latest.segments.lemma_filter_contains(stays, k);
        let i = choose|i: int| 0 <= i < kept.len() && kept[i] == segment;
        assert(next[changes.added_segments.len() + i] == segment);
    }
}

/// The next snapshot counts the rows of the latest one, less those of the
/// segments that leave, plus those of the segments that come: where the
/// totals can be held, no row is counted twice and none is dropped from
/// the count.
pub proof fn lemma_applied_row_count(changes: SnapshotChangesView, latest: TableSnapshotView)
    requires
        changes.countable(latest),
    ensures
        changes.applied(latest).summary.row_count == latest.summary.row_count
            - changes.removed_statistics.row_count + changes.added_statistics.row_count,
        changes.applied(latest).summary.block_count == latest.summary.block_count
            - changes.removed_statistics.block_count + changes.added_statistics.block_count,
        changes.applied(latest).seq == latest.seq + 1,
{
}

/// The number of times that a commit is published before it gives up.
pub const MAX_COMMIT_ATTEMPTS: u32 = 10;

/// Where a commit stands.
#[derive(Clone, Copy, Debug, PartialEq, Eq, Structural)]
pub enum CommitStage {
    /// Nothing was asked for yet.
    Idle,
    /// A snapshot was handed to the store and the answer is awaited.
    Publishing,
    /// The store refused; the latest snapshot is being read.
    Reloading,
    /// The store took the snapshot; the shares of the table are being told.
    Propagating,
    Committed,
    Failed,
}

/// What a commit remembers between two steps.
#[derive(Clone, Copy, Debug, PartialEq, Eq, Structural)]
pub struct CommitProgress {
    pub stage: CommitStage,
    /// The number of times a snapshot was handed to the store.
    pub attempts: u32,
    /// While publishing: the version of the table that the snapshot was
    /// made for. From then on: the version that the store gave.
    pub version: u64,
}

/// What the outside reports back to a commit.
#[derive(Debug)]
pub enum CommitEvent {
    /// The base snapshot, and the version of the table at which it was
    /// read.
    Begin { base: TableSnapshot, version: u64 },
    /// The store took the snapshot. The table is now at `version`, and
    /// `shared` says whether it has shares that must be told.
    PublishAccepted { version: u64, shared: bool },
    /// The store refused the snapshot: the table is not at the version
    /// that the snapshot was made for.
    PublishRejected,
    /// The latest snapshot, and the version of the table at which it was
    /// read.
    Reloaded { latest: TableSnapshot, version: u64 },
    /// The shares of the table were told.
    SharePropagated,
    /// The store could not be reached, or failed for now.
    TransientFailure { error: ErrorCode },
    /// The store refused for a reason that no retry mends.
    FatalFailure { error: ErrorCode },
}

/// The mathematical value of a [`CommitEvent`].
pub enum CommitEventView {
    Begin { base: TableSnapshotView, version: u64 },
    PublishAccepted { version: u64, shared: bool },
    PublishRejected,
    Reloaded { latest: TableSnapshotView, version: u64 },
    SharePropagated,
    TransientFailure { error: ErrorView },
    FatalFailure { error: ErrorView },
}

impl View for CommitEvent {
    type V = CommitEventView;

    open spec fn view(&self) -> CommitEventView {
        match self {
            CommitEvent::Begin { base, version } => CommitEventView::Begin {
                base: base@,
                version: *version,
            },
            CommitEvent::PublishAccepted { version, shared } => CommitEventView::PublishAccepted {
                version: *version,
                shared: *shared,
            },
            CommitEvent::PublishRejected => CommitEventView::PublishRejected,
            CommitEvent::Reloaded { latest, version } => CommitEventView::Reloaded {
                latest: latest@,
                version: *version,
            },
            CommitEvent::SharePropagated => CommitEventView::SharePropagated,
            CommitEvent::TransientFailure { error } => CommitEventView::TransientFailure {
                error: error@,
            },
            CommitEvent::FatalFailure { error } => CommitEventView::FatalFailure { error: error@ },
        }
    }
}

/// What a commit asks of the outside next.
#[derive(Debug)]
pub enum CommitAction {
    /// Hand `snapshot` to the store as the table's content, on the
    /// condition `seq` on the table's version.
    Publish { table_id: u64, seq: MatchSeq, snapshot: TableSnapshot, kind: MutationKind },
    /// Read the latest snapshot and the table's version.
    Reload,
    /// Tell the shares of the table of its new description.
    PropagateShare,
    /// The commit is published; the table is at `version`.
    Done { version: u64 },
    /// The commit failed; the table is as the others left it.
    Fail { error: ErrorCode },
    /// The commit had ended before; the event is dropped.
    Nothing,
}

/// The mathematical value of a [`CommitAction`].
pub enum CommitActionView {
    Publish { table_id: u64, seq: MatchSeq, snapshot: TableSnapshotView, kind: MutationKind },
    Reload,
    PropagateShare,
    Done { version: u64 },
    Fail { error: ErrorView },
    Nothing,
}

impl View for CommitAction {
    type V = CommitActionView;

    open spec fn view(&self) -> CommitActionView {
        match self {
            CommitAction::Publish { table_id, seq, snapshot, kind } => CommitActionView::Publish {
                table_id: *table_id,
                seq: *seq,
                snapshot: snapshot@,
                kind: *kind,
            },
            CommitAction::Reload => CommitActionView::Reload,
            CommitAction::PropagateShare => CommitActionView::PropagateShare,
            CommitAction::Done { version } => CommitActionView::Done { version: *version },
            CommitAction::Fail { error } => CommitActionView::Fail { error: error@ },
            CommitAction::Nothing => CommitActionView::Nothing,
        }
    }
}

/// What a commit is about: the table, the kind of mutation and its
/// changes.
pub struct CommitSubject {
    pub table_id: u64,
    pub kind: MutationKind,
    pub changes: SnapshotChangesView,
}

/// The error of a commit that was refused once too often.
pub open spec fn retries_exhausted() -> ErrorView {
    ErrorView {
        kind: ErrorKind::Conflict,
        message: "the table was changed by others at every attempt to commit"@,
    }
}

/// The error for an event that does not answer what was asked.
pub open spec fn commit_out_of_turn() -> ErrorView {
    ErrorView {
        kind: ErrorKind::Internal,
        message: "the event does not answer the step that was asked for"@,
    }
}

impl CommitProgress {
    /// The progress of a commit that has not begun.
    pub open spec fn idle() -> CommitProgress {
        CommitProgress { stage: CommitStage::Idle, attempts: 0, version: 0 }
    }

    /// Whether the commit has ended.
    pub open spec fn is_terminal(self) -> bool {
        self.stage == CommitStage::Committed || self.stage == CommitStage::Failed
    }

    /// The attempts made do not exceed the bound, and a fresh read is
    /// under way only while an attempt is left.
    pub open spec fn wf(self) -> bool {
        &&& self.attempts <= MAX_COMMIT_ATTEMPTS
        &&& self.stage == CommitStage::Reloading ==> self.attempts < MAX_COMMIT_ATTEMPTS
        &&& self.stage == CommitStage::Idle ==> self.attempts == 0
    }

    /// The commit has failed with `error`.
    pub open spec fn fail(self, error: ErrorView) -> (CommitProgress, CommitActionView) {
        (CommitProgress { stage: CommitStage::Failed, ..self }, CommitActionView::Fail { error })
    }

    /// The next snapshot is made from `base`, read at `version`, and handed
    /// to the store on the condition that the table is still at exactly
    /// that version. Where no snapshot can be made, the commit fails.
    pub open spec fn publish(self, subject: CommitSubject, base: TableSnapshotView, version: u64) -> (
        CommitProgress,
        CommitActionView,
    ) {
        match subject.changes.generated(base) {
            Ok(snapshot) => (
                CommitProgress {
                    stage: CommitStage::Publishing,
                    attempts: (self.attempts + 1) as u32,
                    version,
                },
                CommitActionView::Publish {
                    table_id: subject.table_id,
                    seq: MatchSeq::Exact(version),
                    snapshot,
                    kind: subject.kind,
                },
            ),
            Err(error) => self.fail(error),
        }
    }

    /// After a refusal the latest snapshot is read, unless the attempts
    /// are used up: then the commit fails with `error`.
    pub open spec fn retry(self, error: ErrorView) -> (CommitProgress, CommitActionView) {
        if self.attempts < MAX_COMMIT_ATTEMPTS {
            (CommitProgress { stage: CommitStage::Reloading, ..self }, CommitActionView::Reload)
        } else {
            self.fail(error)
        }
    }
}

/// The transition function of a commit: the progress after `event`
/// arrives, and what to ask for next.
///
/// A snapshot is always made from the snapshot that was read last, and
/// is handed to the store on condition of the exact version at which that
/// one was read. A refusal, or a failure of the store for the moment,
/// leads to a fresh read and a new snapshot, up to
/// [`MAX_COMMIT_ATTEMPTS`] attempts; then the commit fails, a refusal as
/// a conflict. Only the store's acceptance leads to `Committed`, after
/// the shares of a shared table were told.
pub open spec fn commit_step(
    subject: CommitSubject,
    progress: CommitProgress,
    event: CommitEventView,
) -> (CommitProgress, CommitActionView) {
    if progress.is_terminal() {
        (progress, CommitActionView::Nothing)
    } else if event is FatalFailure {
        progress.fail(event->FatalFailure_error)
    } else {
        match (progress.stage, event) {
            (CommitStage::Idle, CommitEventView::Begin { base, version }) => progress.publish(
                subject,
                base,
                version,
            ),
            (
                CommitStage::Publishing,
                CommitEventView::PublishAccepted { version, shared },
            ) => if shared {
                (
                    CommitProgress { stage: CommitStage::Propagating, version, ..progress },
                    CommitActionView::PropagateShare,
                )
            } else {
                (
                    CommitProgress { stage: CommitStage::Committed, version, ..progress },
                    CommitActionView::Done { version },
                )
            },
            (CommitStage::Publishing, CommitEventView::PublishRejected) => progress.retry(
                retries_exhausted(),
            ),
            (CommitStage::Publishing, CommitEventView::TransientFailure { error }) => progress.retry(
                error,
            ),
            (CommitStage::Reloading, CommitEventView::Reloaded { latest, version }) => progress.publish(
                subject,
                latest,
                version,
            ),
            (CommitStage::Propagating, CommitEventView::SharePropagated) => (
                CommitProgress { stage: CommitStage::Committed, ..progress },
                CommitActionView::Done { version: progress.version },
            ),
            (_, CommitEventView::TransientFailure { error }) => progress.fail(error),
            _ => progress.fail(commit_out_of_turn()),
        }
    }
}

/// Commits the changes of one mutation to one table.
#[derive(Debug)]
pub struct SnapshotCommitter {
    pub table_id: u64,
    pub generator: MutationGenerator,
    pub progress: CommitProgress,
}

impl SnapshotCommitter {
    /// What the commit is about.
    pub open spec fn subject(&self) -> CommitSubject {
        CommitSubject {
            table_id: self.table_id,
            kind: self.generator.kind,
            changes: self.generator.changes@,
        }
    }

    /// The attempts made do not exceed the bound, and a fresh read is
    /// under way only while an attempt is left.
    pub open spec fn wf(&self) -> bool {
        self.progress.wf()
    }

    /// A commit of the generator's changes to the table `table_id`, not
    /// yet begun.
    pub fn new(table_id: u64, generator: MutationGenerator) -> (committer: SnapshotCommitter)
        ensures
            committer.wf(),
            committer.table_id == table_id,
            committer.generator == generator,
            committer.progress == CommitProgress::idle(),
    {
        SnapshotCommitter {
            table_id,
            generator,
            progress: CommitProgress { stage: CommitStage::Idle, attempts: 0, version: 0 },
        }
    }

    /// Takes `event` in and says what to ask for next, as [`commit_step`]
    /// has it.
    pub fn step(&mut self, event: CommitEvent) -> (action: CommitAction)
        requires
            old(self).wf(),
        ensures
            final(self).wf(),
            (final(self).progress, action@) == commit_step(
                old(self).subject(),
                old(self).progress,
                event@,
            ),
            final(self).subject() == old(self).subject(),
    {
        let progress = self.progress;
        let terminal = match progress.stage {
            CommitStage::Committed => true,
            CommitStage::Failed => true,
            _ => false,
        };
        if terminal {
            return CommitAction::Nothing;
        }
        match event {
            CommitEvent::FatalFailure { error } => self.fail(error),
            CommitEvent::Begin { base, version } => match progress.stage {
                CommitStage::Idle => self.publish(&base, version),
                _ => self.fail_out_of_turn(),
            },
            CommitEvent::PublishAccepted { version, shared } => match progress.stage {
                CommitStage::Publishing => {
                    if shared {
                        self.progress = CommitProgress {
                            stage: CommitStage::Propagating,
                            version,
                            ..progress
                        };
                        CommitAction::PropagateShare
                    } else {
                        self.progress = CommitProgress {
                            stage: CommitStage::Committed,
                            version,
                            ..progress
                        };
                        CommitAction::Done { version }
                    }
                },
                _ => self.fail_out_of_turn(),
            },
            CommitEvent::PublishRejected => match progress.stage {
                CommitStage::Publishing => self.retry(
                    ErrorCode::create(
                        ErrorKind::Conflict,
                        "the table was changed by others at every attempt to commit",
                    ),
                ),
                _ => self.fail_out_of_turn(),
            },
            CommitEvent::TransientFailure { error } => match progress.stage {
                CommitStage::Publishing => self.retry(error),
                _ => self.fail(error),
            },
            CommitEvent::Reloaded { latest, version } => match progress.stage {
                CommitStage::Reloading => self.publish(&latest, version),
                _ => self.fail_out_of_turn(),
            },
            CommitEvent::SharePropagated => match progress.stage {
                CommitStage::Propagating => {
                    self.progress = CommitProgress { stage: CommitStage::Committed, ..progress };
                    CommitAction::Done { version: progress.version }
                },
                _ => self.fail_out_of_turn(),
            },
        }
    }

    fn fail(&mut self, error: ErrorCode) -> (action: CommitAction)
        requires
            old(self).wf(),
        ensures
            final(self).wf(),
            (final(self).progress, action@) == old(self).progress.fail(error@),
            final(self).subject() == old(self).subject(),
    {
        self.progress = CommitProgress { stage: CommitStage::Failed, ..self.progress };
        CommitAction::Fail { error }
    }

    fn fail_out_of_turn(&mut self) -> (action: CommitAction)
        requires
            old(self).wf(),
        ensures
            final(self).wf(),
            (final(self).progress, action@) == old(self).progress.fail(commit_out_of_turn()),
            final(self).subject() == old(self).subject(),
    {
        self.fail(
            ErrorCode::create(
                ErrorKind::Internal,
                "the event does not answer the step that was asked for",
            ),
        )
    }

    fn retry(&mut self, error: ErrorCode) -> (action: CommitAction)
        requires
            old(self).wf(),
        ensures
            final(self).wf(),
            (final(self).progress, action@) == old(self).progress.retry(error@),
            final(self).subject() == old(self).subject(),
    {
        if self.progress.attempts < MAX_COMMIT_ATTEMPTS {
            self.progress = CommitProgress { stage: CommitStage::Reloading, ..self.progress };
            CommitAction::Reload
        } else {
            self.fail(error)
        }
    }

    fn publish(&mut self, base: &TableSnapshot, version: u64) -> (action: CommitAction)
        requires
            old(self).wf(),
            old(self).progress.stage == CommitStage::Idle || old(self).progress.stage
                == CommitStage::Reloading,
        ensures
            final(self).wf(),
            (final(self).progress, action@) == old(self).progress.publish(
                old(self).subject(),
                base@,
                version,
            ),
            final(self).subject() == old(self).subject(),
    {
        match self.generator.generate_new_snapshot(base) {
            Ok(snapshot) => {
                self.progress = CommitProgress {
                    stage: CommitStage::Publishing,
                    attempts: self.progress.attempts + 1,
                    version,
                };
                CommitAction::Publish {
                    table_id: self.table_id,
                    seq: MatchSeq::Exact(version),
                    snapshot,
                    kind: self.generator.kind,
                }
            },
            Err(error) => self.fail(error),
        }
    }
}

/// The progress that a sequence of events leads to.
pub open spec fn commit_run(
    subject: CommitSubject,
    progress: CommitProgress,
    events: Seq<CommitEventView>,
) -> CommitProgress
    decreases events.len(),
{
    if events.len() == 0 {
        progress
    } else {
        commit_step(subject, commit_run(subject, progress, events.drop_last()), events.last()).0
    }
}

/// The action that the `i`-th event of a sequence is answered with.
pub open spec fn commit_action_at(
    subject: CommitSubject,
    progress: CommitProgress,
    events: Seq<CommitEventView>,
    i: int,
) -> CommitActionView {
    commit_step(subject, commit_run(subject, progress, events.take(i)), events[i]).1
}

/// Whether the `i`-th event of a sequence is the store's acceptance of a
/// snapshot that was handed to it.
pub open spec fn accepted_at(
    subject: CommitSubject,
    progress: CommitProgress,
    events: Seq<CommitEventView>,
    i: int,
) -> bool {
    &&& 0 <= i < events.len()
    &&& events[i] is PublishAccepted
    &&& commit_run(subject, progress, events.take(i)).stage == CommitStage::Publishing
}

/// The number of snapshots handed to the store along a sequence of
/// events.
pub open spec fn publish_count(
    subject: CommitSubject,
    progress: CommitProgress,
    events: Seq<CommitEventView>,
) -> nat
    decreases events.len(),
{
    if events.len() == 0 {
        0
    } else {
        let before = commit_run(subject, progress, events.drop_last());
        publish_count(subject, progress, events.drop_last()) + if commit_step(
            subject,
            before,
            events.last(),
        ).1 is Publish {
            1nat
        } else {
            0nat
        }
    }
}

/// A snapshot that the store refuses because the table has moved on is
/// never taken for committed: either the latest snapshot is read for
/// another attempt, or the attempts are used up and the commit fails as
/// a conflict.
pub proof fn lemma_stale_publish_is_not_silent(subject: CommitSubject, progress: CommitProgress)
    requires
        progress.stage == CommitStage::Publishing,
    ensures
        ({
            let (next, action) = commit_step(subject, progress, CommitEventView::PublishRejected);
            &&& next.stage != CommitStage::Committed
            &&& progress.attempts < MAX_COMMIT_ATTEMPTS ==> next.stage == CommitStage::Reloading
                && action == CommitActionView::Reload
            &&& progress.attempts >= MAX_COMMIT_ATTEMPTS ==> next.stage == CommitStage::Failed
                && action == (CommitActionView::Fail { error: retries_exhausted() })
        }),
{
}

/// Every snapshot that is handed to the store was made from the snapshot
/// that the answered event brought, and is handed over on condition that
/// the table is at exactly the version at which that one was read.
pub proof fn lemma_publish_is_conditional(
    subject: CommitSubject,
    progress: CommitProgress,
    event: CommitEventView,
)
    ensures
        (match commit_step(subject, progress, event).1 {
            CommitActionView::Publish { table_id, seq, snapshot, kind } => {
                &&& table_id == subject.table_id
                &&& kind == subject.kind
                &&& match event {
                    CommitEventView::Begin { base, version } => seq == MatchSeq::Exact(version)
                        && subject.changes.generated(base) == Ok::<TableSnapshotView, ErrorView>(
                        snapshot,
                    ),
                    CommitEventView::Reloaded { latest, version } => seq == MatchSeq::Exact(version)
                        && subject.changes.generated(latest) == Ok::<TableSnapshotView, ErrorView>(
                        snapshot,
                    ),
                    _ => false,
                }
            },
            _ => true,
        }),
{
}

/// A commit ends as committed only where the store accepted a snapshot,
/// and then at the version that the store gave; and along any sequence of
/// events no more than [`MAX_COMMIT_ATTEMPTS`] snapshots are handed to
/// the store.
pub proof fn lemma_committed_only_when_accepted(
    subject: CommitSubject,
    events: Seq<CommitEventView>,
)
    ensures
        ({
            let start = CommitProgress::idle();
            let end = commit_run(subject, start, events);
            &&& end.wf()
            &&& publish_count(subject, start, events) == end.attempts
            &&& publish_count(subject, start, events) <= MAX_COMMIT_ATTEMPTS
            &&& end.stage == CommitStage::Committed || end.stage == CommitStage::Propagating
                ==> exists|i: int|
                #[trigger] accepted_at(subject, start, events, i) && events[i]->PublishAccepted_version
                    == end.version
        }),
    decreases events.len(),
{
    let start = CommitProgress::idle();
    if events.len() > 0 {
        let earlier = events.drop_last();
        lemma_committed_only_when_accepted(subject, earlier);
        let before = commit_run(subject, start, earlier);
        let end = commit_run(subject, start, events);
        let last = events.len() - 1;
        assert(events.take(last) =~= earlier);
        if end.stage == CommitStage::Committed || end.stage == CommitStage::Propagating {
            if before.stage == CommitStage::Publishing {
                assert(accepted_at(subject, start, events, last));
            } else {
                let i = choose|i: int|
                    #[trigger] accepted_at(subject, start, earlier, i)
                        && earlier[i]->PublishAccepted_version == before.version;
                assert(events.take(i) =~= earlier.take(i));
                assert(accepted_at(subject, start, events, i));
            }
        }
    }
}

} // verus!
