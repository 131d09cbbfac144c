//! The table lock: an advisory lock by revisions.
//!
//! Who wants the lock registers a revision with the metadata store; the
//! store numbers revisions in the order in which they are registered. The
//! lock is held by the least revision that is registered for the table.
//! The others wait, each for the greatest revision below its own, and no
//! longer than the store lets them: a wait that times out ends the attempt.
//! However an attempt ends, its revision is deleted.

use crate::error::ErrorCode;
use crate::error::ErrorKind;
use crate::error::ErrorView;
use crate::table::TableInfo;
use vstd::prelude::*;

verus! {

/// Whether `revision` is the least of `revisions`, and so holds the lock.
pub open spec fn holds_lock(revisions: Seq<u64>, revision: u64) -> bool {
    forall|i: int| 0 <= i < revisions.len() ==> revision <= #[trigger] revisions[i]
}

/// Whether `before` is the revision that `revision` waits for: the
/// greatest of `revisions` below it.
pub open spec fn waits_for(revisions: Seq<u64>, revision: u64, before: u64) -> bool {
    &&& revisions.contains(before)
    &&& before < revision
    &&& forall|i: int|
        0 <= i < revisions.len() && (#[trigger] revisions[i]) < revision ==> revisions[i]
            <= before
}

/// The revision that `revision` waits for: the greatest of `revisions`
/// below it, or none where there is none.
pub open spec fn spec_predecessor(revisions: Seq<u64>, revision: u64) -> Option<u64>
    decreases revisions.len(),
{
    if revisions.len() == 0 {
        None
    } else {
        let earlier = spec_predecessor(revisions.drop_last(), revision);
        let last = revisions.last();
        if last < revision && (earlier is None || last > earlier->0) {
            Some(last)
        } else {
            earlier
        }
    }
}

/// A revision waits for the greatest revision below it, and holds the
/// lock exactly where there is none.
pub proof fn lemma_predecessor(revisions: Seq<u64>, revision: u64)
    ensures
        match spec_predecessor(revisions, revision) {
            Some(before) => waits_for(revisions, revision, before),
            None => holds_lock(revisions, revision),
        },
    decreases revisions.len(),
{
    if revisions.len() > 0 {
        let seen = revisions.drop_last();
        lemma_predecessor(seen, revision);
        assert forall|k: int| 0 <= k < seen.len() implies seen[k] == revisions[k] by {}
        match spec_predecessor(revisions, revision) {
            Some(before) => {
                if before == revisions.last() {
                    assert(revisions[revisions.len() - 1] == before);
                } else {
                    let k = choose|k: int| 0 <= k < seen.len() && seen[k] == before;
                    assert(revisions[k] == before);
                }
                assert forall|i: int|
                    0 <= i < revisions.len() && (#[trigger] revisions[i]) < revision implies revisions[i]
                    <= before by {
                    if i < seen.len() {
                        assert(seen[i] == revisions[i]);
                    }
                }
            },
            None => {
                assert forall|i: int| 0 <= i < revisions.len() implies revision
                    <= #[trigger] revisions[i] by {
                    if i < seen.len() {
                        assert(seen[i] == revisions[i]);
                    }
                }
            },
        }
    }
}

/// Computes [`spec_predecessor`].
pub fn predecessor(revisions: &Vec<u64>, revision: u64) -> (before: Option<u64>)
    ensures
        before == spec_predecessor(revisions@, revision),
        match before {
            Some(b) => waits_for(revisions@, revision, b),
            None => holds_lock(revisions@, revision),
        },
{
    let mut best: Option<u64> = None;
    let mut i: usize = 0;
    while i < revisions.len()
        invariant
            i <= revisions.len(),
            best == spec_predecessor(revisions@.take(i as int), revision),
        decreases revisions.len() - i,
    {
        let r = revisions[i];
        proof {
            assert(revisions@.take(i + 1).drop_last() =~= revisions@.take(i as int));
            assert(revisions@.take(i + 1).last() == r);
        }
        if r < revision {
            let better = match best {
                Some(b) => r > b,
                None => true,
            };
            if better {
                best = Some(r);
            }
        }
        i = i + 1;
    }
    proof {
        assert(revisions@.take(i as int) =~= revisions@);
        lemma_predecessor(revisions@, revision);
    }
    best
}

/// Of the revisions registered for a table, one holds the lock and no
/// other.
pub proof fn lemma_one_holder(revisions: Seq<u64>, a: u64, b: u64)
    requires
        revisions.contains(a),
        revisions.contains(b),
        holds_lock(revisions, a),
        holds_lock(revisions, b),
    ensures
        a == b,
{
    let i = choose|i: int| 0 <= i < revisions.len() && revisions[i] == a;
    let j = choose|j: int| 0 <= j < revisions.len() && revisions[j] == b;
    assert(b <= revisions[i]);
    assert(a <= revisions[j]);
}

/// Where an attempt at the lock stands.
#[derive(Clone, Copy, Debug, PartialEq, Eq, Structural)]
pub enum LockStage {
    Idle,
    /// A revision is being registered.
    Registering,
    /// The revisions of the table are being listed.
    Listing,
    /// A revision below the own one is registered; its deletion is awaited.
    Waiting,
    Held,
    Released,
    Failed,
}

/// The lock of one table, and where the attempt at it stands.
#[derive(Clone, Copy, Debug, PartialEq, Eq, Structural)]
pub struct TableLock {
    pub table_id: u64,
    pub stage: LockStage,
    /// The own revision, from its registration to its deletion.
    pub revision: Option<u64>,
}

/// What the metadata store reports back to an attempt at the lock.
#[derive(Debug)]
pub enum LockEvent {
    /// The lock is asked for.
    Acquire,
    /// The store registered the revision.
    RevisionCreated { revision: u64 },
    /// The revisions that are registered for the table.
    Revisions { revisions: Vec<u64> },
    /// The revision that was waited for is deleted.
    PredecessorGone,
    /// The wait took longer than the store allows.
    TimedOut,
    /// The holder is done with the table.
    Release,
    /// The store failed.
    Failed { error: ErrorCode },
}

/// The mathematical value of a [`LockEvent`].
pub enum LockEventView {
    Acquire,
    RevisionCreated { revision: u64 },
    Revisions { revisions: Seq<u64> },
    PredecessorGone,
    TimedOut,
    Release,
    Failed { error: ErrorView },
}

impl View for LockEvent {
    type V = LockEventView;

    open spec fn view(&self) -> LockEventView {
        match self {
            LockEvent::Acquire => LockEventView::Acquire,
            LockEvent::RevisionCreated { revision } => LockEventView::RevisionCreated {
                revision: *revision,
            },
            LockEvent::Revisions { revisions } => LockEventView::Revisions {
                revisions: revisions@,
            },
            LockEvent::PredecessorGone => LockEventView::PredecessorGone,
            LockEvent::TimedOut => LockEventView::TimedOut,
            LockEvent::Release => LockEventView::Release,
            LockEvent::Failed { error } => LockEventView::Failed { error: error@ },
        }
    }
}

/// What an attempt at the lock asks of the metadata store next.
#[derive(Debug)]
pub enum LockAction {
    /// Register a revision for the table.
    CreateRevision { table_id: u64 },
    /// List the revisions that are registered for the table.
    ListRevisions { table_id: u64 },
    /// Wait until this revision is deleted, or until the wait times out.
    WaitFor { revision: u64 },
    /// The lock is held under this revision.
    Granted { revision: u64 },
    /// The holder is done: delete the revision.
    DeleteRevision { table_id: u64, revision: u64 },
    /// The attempt failed: delete the revision, where one is named.
    Fail { delete: Option<u64>, error: ErrorCode },
    /// The attempt had ended before; the event is dropped.
    Nothing,
}

/// The mathematical value of a [`LockAction`].
pub enum LockActionView {
    CreateRevision { table_id: u64 },
    ListRevisions { table_id: u64 },
    WaitFor { revision: u64 },
    Granted { revision: u64 },
    DeleteRevision { table_id: u64, revision: u64 },
    Fail { delete: Option<u64>, error: ErrorView },
    Nothing,
}

impl View for LockAction {
    type V = LockActionView;

    open spec fn view(&self) -> LockActionView {
        match self {
            LockAction::CreateRevision { table_id } => LockActionView::CreateRevision {
                table_id: *table_id,
            },
            LockAction::ListRevisions { table_id } => LockActionView::ListRevisions {
                table_id: *table_id,
            },
            LockAction::WaitFor { revision } => LockActionView::WaitFor { revision: *revision },
            LockAction::Granted { revision } => LockActionView::Granted { revision: *revision },
            LockAction::DeleteRevision { table_id, revision } => LockActionView::DeleteRevision {
                table_id: *table_id,
                revision: *revision,
            },
            LockAction::Fail { delete, error } => LockActionView::Fail {
                delete: *delete,
                error: error@,
            },
            LockAction::Nothing => LockActionView::Nothing,
        }
    }
}

/// The error of an attempt whose wait timed out.
pub open spec fn locked_by_other() -> ErrorView {
    ErrorView {
        kind: ErrorKind::Conflict,
        message: "table is locked by other session, please retry later"@,
    }
}

/// The error for an event that does not answer what was asked.
pub open spec fn lock_out_of_turn() -> ErrorView {
    ErrorView {
        kind: ErrorKind::Internal,
        message: "the event does not answer the step that was asked for"@,
    }
}

impl TableLock {
    /// Whether the attempt has ended.
    pub open spec fn is_terminal(self) -> bool {
        self.stage == LockStage::Released || self.stage == LockStage::Failed
    }

    /// The own revision is known from the listing on, until the attempt
    /// ends.
    pub open spec fn wf(self) -> bool {
        self.revision is Some <==> (self.stage == LockStage::Listing || self.stage
            == LockStage::Waiting || self.stage == LockStage::Held)
    }

    /// The attempt has failed with `error`; its revision is to be deleted.
    pub open spec fn fail(self, error: ErrorView) -> (TableLock, LockActionView) {
        (
            TableLock { stage: LockStage::Failed, revision: None, ..self },
            LockActionView::Fail { delete: self.revision, error },
        )
    }

    /// The attempt goes on at `stage` with `action`.
    pub open spec fn go(self, stage: LockStage, action: LockActionView) -> (
        TableLock,
        LockActionView,
    ) {
        (TableLock { stage, ..self }, action)
    }

    /// The transition function of an attempt at the lock.
    pub open spec fn spec_step(self, event: LockEventView) -> (TableLock, LockActionView) {
        if self.is_terminal() {
            (self, LockActionView::Nothing)
        } else if event is Failed {
            self.fail(event->error)
        } else {
            match (self.stage, event) {
                (LockStage::Idle, LockEventView::Acquire) => self.go(
                    LockStage::Registering,
                    LockActionView::CreateRevision { table_id: self.table_id },
                ),
                (LockStage::Registering, LockEventView::RevisionCreated { revision }) => (
                    TableLock { stage: LockStage::Listing, revision: Some(revision), ..self },
                    LockActionView::ListRevisions { table_id: self.table_id },
                ),
                (LockStage::Listing, LockEventView::Revisions { revisions }) => match self.revision {
                    Some(own) => match spec_predecessor(revisions, own) {
                        None => self.go(LockStage::Held, LockActionView::Granted { revision: own }),
                        Some(before) => self.go(
                            LockStage::Waiting,
                            LockActionView::WaitFor { revision: before },
                        ),
                    },
                    None => self.fail(lock_out_of_turn()),
                },
                (LockStage::Waiting, LockEventView::PredecessorGone) => self.go(
                    LockStage::Listing,
                    LockActionView::ListRevisions { table_id: self.table_id },
                ),
                (LockStage::Waiting, LockEventView::TimedOut) => self.fail(locked_by_other()),
                (LockStage::Held, LockEventView::Release) => match self.revision {
                    Some(own) => (
                        TableLock { stage: LockStage::Released, revision: None, ..self },
                        LockActionView::DeleteRevision { table_id: self.table_id, revision: own },
                    ),
                    None => self.fail(lock_out_of_turn()),
                },
                _ => self.fail(lock_out_of_turn()),
            }
        }
    }
}

impl TableLock {
    /// Asks for the lock: the first step of an attempt.
    pub fn try_lock(&mut self) -> (action: LockAction)
        ensures
            (*final(self), action@) == old(self).spec_step(LockEventView::Acquire),
    {
        self.step(LockEvent::Acquire)
    }

    /// Takes `event` in and says what to ask of the store next, as
    /// [`TableLock::spec_step`] has it.
    pub fn step(&mut self, event: LockEvent) -> (action: LockAction)
        ensures
            (*final(self), action@) == old(self).spec_step(event@),
    {
        let lock = *self;
        let terminal = match lock.stage {
            LockStage::Released => true,
            LockStage::Failed => true,
            _ => false,
        };
        if terminal {
            return LockAction::Nothing;
        }
        match event {
            LockEvent::Failed { error } => self.fail_with(error),
            LockEvent::Acquire => match lock.stage {
                LockStage::Idle => {
                    self.stage = LockStage::Registering;
                    LockAction::CreateRevision { table_id: lock.table_id }
                },
                _ => self.fail_out_of_turn(),
            },
            LockEvent::RevisionCreated { revision } => match lock.stage {
                LockStage::Registering => {
                    self.stage = LockStage::Listing;
                    self.revision = Some(revision);
                    LockAction::ListRevisions { table_id: lock.table_id }
                },
                _ => self.fail_out_of_turn(),
            },
            LockEvent::Revisions { revisions } => match (lock.stage, lock.revision) {
                (LockStage::Listing, Some(own)) => match predecessor(&revisions, own) {
                    None => {
                        self.stage = LockStage::Held;
                        LockAction::Granted { revision: own }
                    },
                    Some(before) => {
                        self.stage = LockStage::Waiting;
                        LockAction::WaitFor { revision: before }
                    },
                },
                _ => self.fail_out_of_turn(),
            },
            LockEvent::PredecessorGone => match lock.stage {
                LockStage::Waiting => {
                    self.stage = LockStage::Listing;
                    LockAction::ListRevisions { table_id: lock.table_id }
                },
                _ => self.fail_out_of_turn(),
            },
            LockEvent::TimedOut => match lock.stage {
                LockStage::Waiting => self.fail_with(
                    ErrorCode::create(
                        ErrorKind::Conflict,
                        "table is locked by other session, please retry later",
                    ),
                ),
                _ => self.fail_out_of_turn(),
            },
            LockEvent::Release => match (lock.stage, lock.revision) {
                (LockStage::Held, Some(own)) => {
                    self.stage = LockStage::Released;
                    self.revision = None;
                    LockAction::DeleteRevision { table_id: lock.table_id, revision: own }
                },
                _ => self.fail_out_of_turn(),
            },
        }
    }

    fn fail_with(&mut self, error: ErrorCode) -> (action: LockAction)
        ensures
            (*final(self), action@) == old(self).fail(error@),
    {
        let delete = self.revision;
        self.stage = LockStage::Failed;
        self.revision = None;
        LockAction::Fail { delete, error }
    }

    fn fail_out_of_turn(&mut self) -> (action: LockAction)
        ensures
            (*final(self), action@) == old(self).fail(lock_out_of_turn()),
    {
        self.fail_with(
            ErrorCode::create(
                ErrorKind::Internal,
                "the event does not answer the step that was asked for",
            ),
        )
    }
}

/// The state that a sequence of events leads to.
pub open spec fn lock_run(lock: TableLock, events: Seq<LockEventView>) -> TableLock
    decreases events.len(),
{
    if events.len() == 0 {
        lock
    } else {
        lock_run(lock, events.drop_last()).spec_step(events.last()).0
    }
}

/// The revisions that are registered along a sequence of events, in
/// order.
pub open spec fn created_revisions(lock: TableLock, events: Seq<LockEventView>) -> Seq<u64>
    decreases events.len(),
{
    if events.len() == 0 {
        Seq::empty()
    } else {
        let before = lock_run(lock, events.drop_last());
        let earlier = created_revisions(lock, events.drop_last());
        if before.stage == LockStage::Registering && events.last() is RevisionCreated {
            earlier.push(events.last()->revision)
        } else {
            earlier
        }
    }
}

/// The revisions whose deletion is asked for along a sequence of events,
/// in order.
pub open spec fn deleted_revisions(lock: TableLock, events: Seq<LockEventView>) -> Seq<u64>
    decreases events.len(),
{
    if events.len() == 0 {
        Seq::empty()
    } else {
        let before = lock_run(lock, events.drop_last());
        let earlier = deleted_revisions(lock, events.drop_last());
        match before.spec_step(events.last()).1 {
            LockActionView::DeleteRevision { revision, .. } => earlier.push(revision),
            LockActionView::Fail { delete: Some(revision), .. } => earlier.push(revision),
            _ => earlier,
        }
    }
}

/// The revision that a lock still has registered, as a sequence of at
/// most one.
pub open spec fn registered(lock: TableLock) -> Seq<u64> {
    match lock.revision {
        Some(revision) => seq![revision],
        None => Seq::empty(),
    }
}

/// However an attempt at the lock goes, the revision that it registered
/// is deleted by the time it ends: along every sequence of events the
/// revisions registered are those deleted followed by the one still
/// registered, and an attempt that has ended has none registered.
pub proof fn lemma_revision_deleted_on_every_path(table_id: u64, events: Seq<LockEventView>)
    ensures
        ({
            let start = TableLock { table_id, stage: LockStage::Idle, revision: None };
            let end = lock_run(start, events);
            &&& end.wf()
            &&& created_revisions(start, events) == deleted_revisions(start, events) + registered(
                end,
            )
            &&& created_revisions(start, events).len() <= 1
            &&& end.is_terminal() ==> created_revisions(start, events) == deleted_revisions(
                start,
                events,
            )
            &&& end.stage == LockStage::Idle || end.stage == LockStage::Registering
                ==> created_revisions(start, events).len() == 0
        }),
    decreases events.len(),
{
    let start = TableLock { table_id, stage: LockStage::Idle, revision: None };
    if events.len() == 0 {
        assert(created_revisions(start, events) =~= deleted_revisions(start, events) + registered(
            start,
        ));
    } else {
        lemma_revision_deleted_on_every_path(table_id, events.drop_last());
        let end = lock_run(start, events);
        assert(created_revisions(start, events) =~= deleted_revisions(start, events) + registered(
            end,
        ));
    }
}

/// Gives out table locks.
pub struct LockManager {}

impl LockManager {
    /// The lock of the table, not yet asked for.
    pub fn create_table_lock(table_info: &TableInfo) -> (lock: TableLock)
        ensures
            lock == (TableLock {
                table_id: table_info.ident.table_id,
                stage: LockStage::Idle,
                revision: None,
            }),
            lock.wf(),
    {
        TableLock { table_id: table_info.ident.table_id, stage: LockStage::Idle, revision: None }
    }
}

} // verus!
