//! Planning an UPDATE: which columns to read, which stages to emit, and
//! in which order the outside work is asked for.

use crate::error::ErrorCode;
use crate::error::ErrorKind;
use crate::part::Partitions;
use crate::plan::CommitSink;
use crate::plan::Filters;
use crate::plan::MutationKind;
use crate::plan::PhysicalPlan;
use crate::plan::RemoteExpr;
use crate::plan::UpdateSource;
use crate::snapshot::TableSnapshot;
use crate::table::CatalogInfo;
use crate::table::FieldIndex;
use crate::table::TableInfo;
use std::collections::BTreeMap;
use std::collections::HashSet;
use std::sync::Arc;
use vstd::prelude::*;
use vstd::std_specs::iter::IteratorSpec;

verus! {

/// A predicate as the binder left it: the expression, and the columns of
/// the table that it reads.
#[derive(Debug)]
pub struct ScalarExpr {
    pub expr: RemoteExpr,
    pub used_columns: HashSet<usize>,
}

/// A correlated subquery inside the predicate.
#[derive(Debug)]
pub struct SubqueryDesc {
    /// The column under which the subquery's rows carry their identity.
    pub index: usize,
    /// The columns of the outer table that the subquery reads.
    pub outer_columns: HashSet<usize>,
}

/// An UPDATE statement after binding.
#[derive(Debug)]
pub struct UpdatePlan {
    pub catalog: String,
    pub database: String,
    pub table: String,
    pub selection: Option<ScalarExpr>,
    pub subquery_desc: Vec<SubqueryDesc>,
}

/// The columns that some subquery of `descs` reads from the outer table.
pub open spec fn outer_columns_of(descs: Seq<SubqueryDesc>) -> Set<usize> {
    Set::new(
        |c: usize| exists|i: int| 0 <= i < descs.len() && (#[trigger] descs[i]).outer_columns@.contains(c),
    )
}

impl UpdatePlan {
    /// A statement with subqueries has a predicate for them to stand in.
    pub open spec fn wf(&self) -> bool {
        self.subquery_desc@.len() > 0 ==> self.selection is Some
    }

    /// The columns that must be read to decide the predicate: none without
    /// a predicate; with subqueries, what they read of the outer table;
    /// else what the predicate itself reads.
    pub open spec fn needed_columns(&self) -> Set<usize> {
        match self.selection {
            None => Set::empty(),
            Some(selection) => if self.subquery_desc@.len() > 0 {
                outer_columns_of(self.subquery_desc@)
            } else {
                selection.used_columns@
            },
        }
    }

    /// The columns that must be read to decide the predicate, each once,
    /// in no particular order.
    pub fn col_indices(&self) -> (columns: Vec<usize>)
        ensures
            columns@.no_duplicates(),
            columns@.to_set() == self.needed_columns(),
    {
        match &self.selection {
            None => {
                let columns: Vec<usize> = Vec::new();
                assert(columns@.to_set() =~= Set::<usize>::empty());
                columns
            },
            Some(selection) => {
                if self.subquery_desc.len() > 0 {
                    let mut all: HashSet<usize> = HashSet::new();
                    let mut i: usize = 0;
                    while i < self.subquery_desc.len()
                        invariant
                            i <= self.subquery_desc.len(),
                            all@ == outer_columns_of(self.subquery_desc@.subrange(0, i as int)),
                        decreases self.subquery_desc.len() - i,
                    {
                        let ghost before = all@;
                        let desc = &self.subquery_desc[i];
                        for column in it: desc.outer_columns.iter()
                            invariant
                                all@ == before.union(
                                    it.seq().subrange(0, it.index() as int).unref().to_set(),
                                ),
                                it.seq() == desc.outer_columns.iter().remaining(),
                        {
                            let ghost seen = it.seq().subrange(0, it.index() as int).unref();
                            all.insert(*column);
                            proof {
                                let next = it.seq().subrange(0, it.index() + 1).unref();
                                assert(next =~= seen.push(*column));
                                assert(next.to_set() =~= seen.to_set().insert(*column)) by {
                                    assert forall|c: usize|
                                        next.to_set().contains(c) <==> seen.to_set().insert(
                                            *column,
                                        ).contains(c) by {
                                        if next.to_set().contains(c) {
                                            let k = choose|k: int|
                                                0 <= k < next.len() && next[k] == c;
                                            if k < seen.len() {
                                                assert(seen[k] == c);
                                            }
                                        }
                                        if seen.to_set().contains(c) {
                                            let k = choose|k: int|
                                                0 <= k < seen.len() && seen[k] == c;
                                            assert(next[k] == c);
                                        }
                                        if c == *column {
                                            assert(next[seen.len() as int] == c);
                                        }
                                    }
                                }
                            }
                        }
                        proof {
                            let whole = desc.outer_columns.iter().remaining();
                            assert(whole.subrange(0, whole.len() as int) =~= whole);
                            let upto = self.subquery_desc@.subrange(0, i as int);
                            let next = self.subquery_desc@.subrange(0, i + 1);
                            assert forall|c: usize|
                                all@.contains(c) <==> outer_columns_of(next).contains(c) by {
                                if outer_columns_of(next).contains(c) {
                                    let k = choose|k: int|
                                        0 <= k < next.len() && (
                                        #[trigger] next[k]).outer_columns@.contains(c);
                                    if k < i {
                                        assert(upto[k].outer_columns@.contains(c));
                                    }
                                }
                                if before.contains(c) {
                                    let k = choose|k: int|
                                        0 <= k < upto.len() && (
                                        #[trigger] upto[k]).outer_columns@.contains(c);
                                    assert(next[k].outer_columns@.contains(c));
                                }
                                if desc.outer_columns@.contains(c) {
                                    assert(next[i as int].outer_columns@.contains(c));
                                }
                            }
                            assert(all@ =~= outer_columns_of(next));
                        }
                        i = i + 1;
                    }
                    assert(self.subquery_desc@.subrange(0, i as int) =~= self.subquery_desc@);
                    columns_of(&all)
                } else {
                    columns_of(&selection.used_columns)
                }
            },
        }
    }
}

/// The members of a set of columns, each once, in no particular order.
pub fn columns_of(set: &HashSet<usize>) -> (columns: Vec<usize>)
    ensures
        columns@.no_duplicates(),
        columns@.to_set() == set@,
{
    let mut columns: Vec<usize> = Vec::new();
    for column in it: set.iter()
        invariant
            columns@ == it.seq().subrange(0, it.index() as int).unref(),
            it.seq() == set.iter().remaining(),
    {
        let ghost before = columns@;
        columns.push(*column);
        assert(columns@ =~= it.seq().subrange(0, it.index() + 1).unref());
    }
    proof {
        let whole = set.iter().remaining();
        assert(whole.subrange(0, whole.len() as int) =~= whole);
        assert(columns@ == whole.unref());
        assert(columns@.no_duplicates()) by {
            assert forall|a: int, b: int|
                0 <= a < columns@.len() && 0 <= b < columns@.len() && a != b implies columns@[a]
                != columns@[b] by {
                assert(whole[a] != whole[b]);
            }
        }
    }
    columns
}

/// Where an UPDATE stands between its first step and its last.
#[derive(Clone, Copy, Debug, PartialEq, Eq, Structural)]
pub enum UpdateStage {
    Created,
    CheckingLabel,
    ResolvingTable,
    Locking,
    RewritingSelection,
    PushingDown,
    GeneratingLists,
    CheckingLicense,
    FastUpdating,
    ReadingPartitions,
    BuildingPipeline,
    RefreshingIndex,
    Executing,
    Finished,
    Failed,
}

/// What the interpreter remembers between two steps.
#[derive(Clone, Copy, Debug, PartialEq, Eq, Structural)]
pub struct UpdateState {
    pub stage: UpdateStage,
    /// The revision of the table lock, while the interpreter holds it.
    pub lock: Option<u64>,
    pub has_selection: bool,
    pub has_subquery: bool,
    /// Whether the table gives each row a stable identity.
    pub row_id_supported: bool,
}

/// What the outside reports back to the interpreter.
#[derive(Debug)]
pub enum UpdateEvent {
    /// The statement is handed in.
    Begin,
    /// Whether the statement's deduplication label was seen before.
    LabelChecked { duplicate: bool },
    /// The catalog found the table.
    TableResolved { table: TableInfo, supports_row_id: bool },
    /// The table lock was granted under this revision.
    LockAcquired { revision: u64 },
    /// The subqueries of the predicate were rewritten into filters by row
    /// identity.
    SelectionRewritten,
    /// The predicate was pushed down, and this is whether it is
    /// deterministic.
    FiltersPushed { deterministic: bool },
    /// The replacement list and the list of stored computed columns were
    /// generated; the latter has this many entries.
    ListsGenerated { computed_columns: usize },
    /// Whether the tenant is entitled to stored computed columns.
    LicenseChecked { entitled: bool },
    /// Storage resolved the tentative snapshot, or found nothing to update.
    FastUpdated { snapshot_found: bool },
    /// The partitions to read were pruned.
    PartitionsRead,
    /// The pipeline of the physical plan was built.
    PipelineBuilt,
    /// The aggregating indexes were scheduled for refresh.
    IndexRefreshed,
    /// The pipeline ran to its end and the commit was published.
    PipelineCompleted,
    /// The step that was asked for failed.
    Failed { error: ErrorCode },
}

/// The mathematical value of an [`UpdateEvent`].
pub enum UpdateEventView {
    Begin,
    LabelChecked { duplicate: bool },
    TableResolved { table: crate::table::TableInfoView, supports_row_id: bool },
    LockAcquired { revision: u64 },
    SelectionRewritten,
    FiltersPushed { deterministic: bool },
    ListsGenerated { computed_columns: usize },
    LicenseChecked { entitled: bool },
    FastUpdated { snapshot_found: bool },
    PartitionsRead,
    PipelineBuilt,
    IndexRefreshed,
    PipelineCompleted,
    Failed { error: crate::error::ErrorView },
}

impl View for UpdateEvent {
    type V = UpdateEventView;

    open spec fn view(&self) -> UpdateEventView {
        match self {
            UpdateEvent::Begin => UpdateEventView::Begin,
            UpdateEvent::LabelChecked { duplicate } => UpdateEventView::LabelChecked {
                duplicate: *duplicate,
            },
            UpdateEvent::TableResolved { table, supports_row_id } => UpdateEventView::TableResolved {
                table: table@,
                supports_row_id: *supports_row_id,
            },
            UpdateEvent::LockAcquired { revision } => UpdateEventView::LockAcquired {
                revision: *revision,
            },
            UpdateEvent::SelectionRewritten => UpdateEventView::SelectionRewritten,
            UpdateEvent::FiltersPushed { deterministic } => UpdateEventView::FiltersPushed {
                deterministic: *deterministic,
            },
            UpdateEvent::ListsGenerated { computed_columns } => UpdateEventView::ListsGenerated {
                computed_columns: *computed_columns,
            },
            UpdateEvent::LicenseChecked { entitled } => UpdateEventView::LicenseChecked {
                entitled: *entitled,
            },
            UpdateEvent::FastUpdated { snapshot_found } => UpdateEventView::FastUpdated {
                snapshot_found: *snapshot_found,
            },
            UpdateEvent::PartitionsRead => UpdateEventView::PartitionsRead,
            UpdateEvent::PipelineBuilt => UpdateEventView::PipelineBuilt,
            UpdateEvent::IndexRefreshed => UpdateEventView::IndexRefreshed,
            UpdateEvent::PipelineCompleted => UpdateEventView::PipelineCompleted,
            UpdateEvent::Failed { error } => UpdateEventView::Failed { error: error@ },
        }
    }
}

/// What the interpreter asks of the outside next.
#[derive(Debug)]
pub enum UpdateAction {
    /// Look the statement's deduplication label up.
    CheckLabel,
    /// Fetch the table from the catalog.
    ResolveTable,
    /// Take the table lock.
    AcquireLock { table_id: u64 },
    /// Rewrite the subqueries of the predicate into filters by row identity.
    RewriteSelection,
    /// Push the predicate down into filters.
    PushDownFilters,
    /// Generate the replacement list and the stored computed columns.
    GenerateLists,
    /// Ask whether stored computed columns are entitled.
    CheckLicense,
    /// Ask storage for the tentative snapshot.
    FastUpdate { query_row_id_col: bool },
    /// Prune the partitions to read.
    ReadPartitions,
    /// Build the physical plan and its pipeline.
    BuildPipeline,
    /// Schedule the refresh of the aggregating indexes.
    RefreshAggIndex,
    /// Run the pipeline; the lock stays held until it ends.
    RunPipeline,
    /// The statement is done. Delete the lock revision, where one is named.
    Finish { release: Option<u64>, affected: bool },
    /// The statement failed. Delete the lock revision, where one is named.
    Fail { release: Option<u64>, error: ErrorCode },
    /// The statement had ended before; the event is dropped.
    Nothing,
}

/// The mathematical value of an [`UpdateAction`].
pub enum UpdateActionView {
    CheckLabel,
    ResolveTable,
    AcquireLock { table_id: u64 },
    RewriteSelection,
    PushDownFilters,
    GenerateLists,
    CheckLicense,
    FastUpdate { query_row_id_col: bool },
    ReadPartitions,
    BuildPipeline,
    RefreshAggIndex,
    RunPipeline,
    Finish { release: Option<u64>, affected: bool },
    Fail { release: Option<u64>, error: crate::error::ErrorView },
    Nothing,
}

impl View for UpdateAction {
    type V = UpdateActionView;

    open spec fn view(&self) -> UpdateActionView {
        match self {
            UpdateAction::CheckLabel => UpdateActionView::CheckLabel,
            UpdateAction::ResolveTable => UpdateActionView::ResolveTable,
            UpdateAction::AcquireLock { table_id } => UpdateActionView::AcquireLock {
                table_id: *table_id,
            },
            UpdateAction::RewriteSelection => UpdateActionView::RewriteSelection,
            UpdateAction::PushDownFilters => UpdateActionView::PushDownFilters,
            UpdateAction::GenerateLists => UpdateActionView::GenerateLists,
            UpdateAction::CheckLicense => UpdateActionView::CheckLicense,
            UpdateAction::FastUpdate { query_row_id_col } => UpdateActionView::FastUpdate {
                query_row_id_col: *query_row_id_col,
            },
            UpdateAction::ReadPartitions => UpdateActionView::ReadPartitions,
            UpdateAction::BuildPipeline => UpdateActionView::BuildPipeline,
            UpdateAction::RefreshAggIndex => UpdateActionView::RefreshAggIndex,
            UpdateAction::RunPipeline => UpdateActionView::RunPipeline,
            UpdateAction::Finish { release, affected } => UpdateActionView::Finish {
                release: *release,
                affected: *affected,
            },
            UpdateAction::Fail { release, error } => UpdateActionView::Fail {
                release: *release,
                error: error@,
            },
            UpdateAction::Nothing => UpdateActionView::Nothing,
        }
    }
}

impl UpdateState {
    /// Whether the statement has ended.
    pub open spec fn is_terminal(self) -> bool {
        self.stage == UpdateStage::Finished || self.stage == UpdateStage::Failed
    }

    /// The state in which the statement ends well, and the action that
    /// says so and gives the lock back.
    pub open spec fn finish(self, affected: bool) -> (UpdateState, UpdateActionView) {
        (
            UpdateState { stage: UpdateStage::Finished, lock: None, ..self },
            UpdateActionView::Finish { release: self.lock, affected },
        )
    }

    /// The state in which the statement has failed, and the action that
    /// reports the error and gives the lock back.
    pub open spec fn fail(self, error: crate::error::ErrorView) -> (UpdateState, UpdateActionView) {
        (
            UpdateState { stage: UpdateStage::Failed, lock: None, ..self },
            UpdateActionView::Fail { release: self.lock, error },
        )
    }

    /// The state at the given stage, and the action that starts it.
    pub open spec fn go(self, stage: UpdateStage, action: UpdateActionView) -> (
        UpdateState,
        UpdateActionView,
    ) {
        (UpdateState { stage, ..self }, action)
    }

    /// The step that follows the pushed-down predicate, or the lock where
    /// there is no predicate.
    pub open spec fn after_lock(self) -> (UpdateState, UpdateActionView) {
        if self.has_subquery {
            if self.row_id_supported {
                self.go(UpdateStage::RewritingSelection, UpdateActionView::RewriteSelection)
            } else {
                self.fail(row_id_unsupported())
            }
        } else if self.has_selection {
            self.go(UpdateStage::PushingDown, UpdateActionView::PushDownFilters)
        } else {
            self.go(UpdateStage::GeneratingLists, UpdateActionView::GenerateLists)
        }
    }
}

/// The error for subqueries on a table without row identities.
pub open spec fn row_id_unsupported() -> crate::error::ErrorView {
    crate::error::ErrorView {
        kind: ErrorKind::Unimplemented,
        message: "table doesn't support row_id, so it can't use delete with subquery"@,
    }
}

/// The error for a predicate that may give two answers for one row.
pub open spec fn not_deterministic() -> crate::error::ErrorView {
    crate::error::ErrorView {
        kind: ErrorKind::Unimplemented,
        message: "Update must have deterministic predicate"@,
    }
}

/// The error for stored computed columns without the entitlement.
pub open spec fn not_entitled() -> crate::error::ErrorView {
    crate::error::ErrorView {
        kind: ErrorKind::LicenseDenied,
        message: "stored computed columns need an enterprise license"@,
    }
}

/// The error for an event that does not answer what was asked.
pub open spec fn out_of_turn() -> crate::error::ErrorView {
    crate::error::ErrorView {
        kind: ErrorKind::Internal,
        message: "the event does not answer the step that was asked for"@,
    }
}

/// The transition function of the interpreter: the state after `event`
/// arrives in `state`, and what to ask for next.
///
/// The order is fixed. The label is looked up first, and a statement seen
/// before ends at once. The table is resolved and must take mutations.
/// Then the lock is taken, and from here on every end gives it back.
/// Subqueries need row identities. The predicate must be deterministic.
/// Stored computed columns need the entitlement. Where storage finds
/// nothing to update, the statement ends with no rows affected and
/// nothing is read, built or run.
pub open spec fn update_step(state: UpdateState, event: UpdateEventView) -> (
    UpdateState,
    UpdateActionView,
) {
    if state.is_terminal() {
        (state, UpdateActionView::Nothing)
    } else if event is Failed {
        state.fail(event->error)
    } else {
        match (state.stage, event) {
            (UpdateStage::Created, UpdateEventView::Begin) => state.go(
                UpdateStage::CheckingLabel,
                UpdateActionView::CheckLabel,
            ),
            (UpdateStage::CheckingLabel, UpdateEventView::LabelChecked { duplicate }) => if duplicate {
                state.finish(false)
            } else {
                state.go(UpdateStage::ResolvingTable, UpdateActionView::ResolveTable)
            },
            (
                UpdateStage::ResolvingTable,
                UpdateEventView::TableResolved { table, supports_row_id },
            ) => if table.is_mutable() {
                (
                    UpdateState {
                        stage: UpdateStage::Locking,
                        row_id_supported: supports_row_id,
                        ..state
                    },
                    UpdateActionView::AcquireLock { table_id: table.ident.table_id },
                )
            } else {
                state.fail(
                    crate::error::ErrorView {
                        kind: ErrorKind::EngineNotSupported,
                        message: table.not_mutable_message(),
                    },
                )
            },
            (UpdateStage::Locking, UpdateEventView::LockAcquired { revision }) => (UpdateState {
                lock: Some(revision),
                ..state
            }).after_lock(),
            (UpdateStage::RewritingSelection, UpdateEventView::SelectionRewritten) => state.go(
                UpdateStage::PushingDown,
                UpdateActionView::PushDownFilters,
            ),
            (UpdateStage::PushingDown, UpdateEventView::FiltersPushed { deterministic }) => if deterministic {
                state.go(UpdateStage::GeneratingLists, UpdateActionView::GenerateLists)
            } else {
                state.fail(not_deterministic())
            },
            (
                UpdateStage::GeneratingLists,
                UpdateEventView::ListsGenerated { computed_columns },
            ) => if computed_columns > 0 {
                state.go(UpdateStage::CheckingLicense, UpdateActionView::CheckLicense)
            } else {
                state.go(
                    UpdateStage::FastUpdating,
                    UpdateActionView::FastUpdate { query_row_id_col: state.has_subquery },
                )
            },
            (UpdateStage::CheckingLicense, UpdateEventView::LicenseChecked { entitled }) => if entitled {
                state.go(
                    UpdateStage::FastUpdating,
                    UpdateActionView::FastUpdate { query_row_id_col: state.has_subquery },
                )
            } else {
                state.fail(not_entitled())
            },
            (UpdateStage::FastUpdating, UpdateEventView::FastUpdated { snapshot_found }) => if snapshot_found {
                state.go(UpdateStage::ReadingPartitions, UpdateActionView::ReadPartitions)
            } else {
                state.finish(false)
            },
            (UpdateStage::ReadingPartitions, UpdateEventView::PartitionsRead) => state.go(
                UpdateStage::BuildingPipeline,
                UpdateActionView::BuildPipeline,
            ),
            (UpdateStage::BuildingPipeline, UpdateEventView::PipelineBuilt) => state.go(
                UpdateStage::RefreshingIndex,
                UpdateActionView::RefreshAggIndex,
            ),
            (UpdateStage::RefreshingIndex, UpdateEventView::IndexRefreshed) => state.go(
                UpdateStage::Executing,
                UpdateActionView::RunPipeline,
            ),
            (UpdateStage::Executing, UpdateEventView::PipelineCompleted) => state.finish(true),
            _ => state.fail(out_of_turn()),
        }
    }
}

/// Interprets an UPDATE statement: holds the statement and where its
/// execution stands.
#[derive(Debug)]
pub struct UpdateInterpreter {
    pub plan: UpdatePlan,
    pub state: UpdateState,
}

impl UpdateInterpreter {
    /// The state in which a statement with the given shape starts.
    pub open spec fn initial(has_selection: bool, has_subquery: bool) -> UpdateState {
        UpdateState {
            stage: UpdateStage::Created,
            lock: None,
            has_selection,
            has_subquery,
            row_id_supported: false,
        }
    }

    /// The interpreter of `plan`, at its start. A statement with
    /// subqueries and no predicate to hold them is refused.
    pub fn try_create(plan: UpdatePlan) -> (made: Result<UpdateInterpreter, ErrorCode>)
        ensures
            match made {
                Ok(interpreter) => {
                    &&& plan.wf()
                    &&& interpreter.plan == plan
                    &&& interpreter.state == UpdateInterpreter::initial(
                        plan.selection is Some,
                        plan.subquery_desc@.len() > 0,
                    )
                },
                Err(e) => !plan.wf() && e@ == (crate::error::ErrorView {
                    kind: ErrorKind::Internal,
                    message: "a subquery needs a predicate to stand in"@,
                }),
            },
    {
        let has_selection = plan.selection.is_some();
        let has_subquery = plan.subquery_desc.len() > 0;
        if has_subquery && !has_selection {
            return Err(
                ErrorCode::create(ErrorKind::Internal, "a subquery needs a predicate to stand in"),
            );
        }
        Ok(
            UpdateInterpreter {
                plan,
                state: UpdateState {
                    stage: UpdateStage::Created,
                    lock: None,
                    has_selection,
                    has_subquery,
                    row_id_supported: false,
                },
            },
        )
    }

    /// The name of this interpreter.
    pub fn name(&self) -> (name: &'static str)
        ensures
            name@ == "UpdateInterpreter"@,
    {
        "UpdateInterpreter"
    }

    /// Takes `event` in and says what to ask for next, as [`update_step`]
    /// has it.
    pub fn step(&mut self, event: UpdateEvent) -> (action: UpdateAction)
        ensures
            (final(self).state, action@) == update_step(old(self).state, event@),
            final(self).plan == old(self).plan,
    {
        let state = self.state;
        let terminal = match state.stage {
            UpdateStage::Finished => true,
            UpdateStage::Failed => true,
            _ => false,
        };
        if terminal {
            return UpdateAction::Nothing;
        }
        match event {
            UpdateEvent::Failed { error } => {
                self.state = UpdateState { stage: UpdateStage::Failed, lock: None, ..state };
                UpdateAction::Fail { release: state.lock, error }
            },
            UpdateEvent::Begin => match state.stage {
                UpdateStage::Created => self.go(UpdateStage::CheckingLabel, UpdateAction::CheckLabel),
                _ => self.fail_out_of_turn(),
            },
            UpdateEvent::LabelChecked { duplicate } => match state.stage {
                UpdateStage::CheckingLabel => {
                    if duplicate {
                        self.finish(false)
                    } else {
                        self.go(UpdateStage::ResolvingTable, UpdateAction::ResolveTable)
                    }
                },
                _ => self.fail_out_of_turn(),
            },
            UpdateEvent::TableResolved { table, supports_row_id } => match state.stage {
                UpdateStage::ResolvingTable => {
                    match table.check_mutable() {
                        Ok(_) => {
                            self.state = UpdateState {
                                stage: UpdateStage::Locking,
                                row_id_supported: supports_row_id,
                                ..state
                            };
                            UpdateAction::AcquireLock { table_id: table.ident.table_id }
                        },
                        Err(error) => self.fail(error),
                    }
                },
                _ => self.fail_out_of_turn(),
            },
            UpdateEvent::LockAcquired { revision } => match state.stage {
                UpdateStage::Locking => {
                    self.state = UpdateState { lock: Some(revision), ..state };
                    if state.has_subquery {
                        if state.row_id_supported {
                            self.go(UpdateStage::RewritingSelection, UpdateAction::RewriteSelection)
                        } else {
                            self.fail(
                                ErrorCode::create(
                                    ErrorKind::Unimplemented,
                                    "table doesn't support row_id, so it can't use delete with subquery",
                                ),
                            )
                        }
                    } else if state.has_selection {
                        self.go(UpdateStage::PushingDown, UpdateAction::PushDownFilters)
                    } else {
                        self.go(UpdateStage::GeneratingLists, UpdateAction::GenerateLists)
                    }
                },
                _ => self.fail_out_of_turn(),
            },
            UpdateEvent::SelectionRewritten => match state.stage {
                UpdateStage::RewritingSelection => self.go(
                    UpdateStage::PushingDown,
                    UpdateAction::PushDownFilters,
                ),
                _ => self.fail_out_of_turn(),
            },
            UpdateEvent::FiltersPushed { deterministic } => match state.stage {
                UpdateStage::PushingDown => {
                    if deterministic {
                        self.go(UpdateStage::GeneratingLists, UpdateAction::GenerateLists)
                    } else {
                        self.fail(
                            ErrorCode::create(
                                ErrorKind::Unimplemented,
                                "Update must have deterministic predicate",
                            ),
                        )
                    }
                },
                _ => self.fail_out_of_turn(),
            },
            UpdateEvent::ListsGenerated { computed_columns } => match state.stage {
                UpdateStage::GeneratingLists => {
                    if computed_columns > 0 {
                        self.go(UpdateStage::CheckingLicense, UpdateAction::CheckLicense)
                    } else {
                        self.go(
                            UpdateStage::FastUpdating,
                            UpdateAction::FastUpdate { query_row_id_col: state.has_subquery },
                        )
                    }
                },
                _ => self.fail_out_of_turn(),
            },
            UpdateEvent::LicenseChecked { entitled } => match state.stage {
                UpdateStage::CheckingLicense => {
                    if entitled {
                        self.go(
                            UpdateStage::FastUpdating,
                            UpdateAction::FastUpdate { query_row_id_col: state.has_subquery },
                        )
                    } else {
                        self.fail(
                            ErrorCode::create(
                                ErrorKind::LicenseDenied,
                                "stored computed columns need an enterprise license",
                            ),
                        )
                    }
                },
                _ => self.fail_out_of_turn(),
            },
            UpdateEvent::FastUpdated { snapshot_found } => match state.stage {
                UpdateStage::FastUpdating => {
                    if snapshot_found {
                        self.go(UpdateStage::ReadingPartitions, UpdateAction::ReadPartitions)
                    } else {
                        self.finish(false)
                    }
                },
                _ => self.fail_out_of_turn(),
            },
            UpdateEvent::PartitionsRead => match state.stage {
                UpdateStage::ReadingPartitions => self.go(
                    UpdateStage::BuildingPipeline,
                    UpdateAction::BuildPipeline,
                ),
                _ => self.fail_out_of_turn(),
            },
            UpdateEvent::PipelineBuilt => match state.stage {
                UpdateStage::BuildingPipeline => self.go(
                    UpdateStage::RefreshingIndex,
                    UpdateAction::RefreshAggIndex,
                ),
                _ => self.fail_out_of_turn(),
            },
            UpdateEvent::IndexRefreshed => match state.stage {
                UpdateStage::RefreshingIndex => self.go(
                    UpdateStage::Executing,
                    UpdateAction::RunPipeline,
                ),
                _ => self.fail_out_of_turn(),
            },
            UpdateEvent::PipelineCompleted => match state.stage {
                UpdateStage::Executing => self.finish(true),
                _ => self.fail_out_of_turn(),
            },
        }
    }

    fn go(&mut self, stage: UpdateStage, action: UpdateAction) -> (out: UpdateAction)
        ensures
            (final(self).state, out@) == old(self).state.go(stage, action@),
            final(self).plan == old(self).plan,
    {
        self.state = UpdateState { stage, ..self.state };
        action
    }

    fn finish(&mut self, affected: bool) -> (out: UpdateAction)
        ensures
            (final(self).state, out@) == old(self).state.finish(affected),
            final(self).plan == old(self).plan,
    {
        let release = self.state.lock;
        self.state = UpdateState { stage: UpdateStage::Finished, lock: None, ..self.state };
        UpdateAction::Finish { release, affected }
    }

    fn fail(&mut self, error: ErrorCode) -> (out: UpdateAction)
        ensures
            (final(self).state, out@) == old(self).state.fail(error@),
            final(self).plan == old(self).plan,
    {
        let release = self.state.lock;
        self.state = UpdateState { stage: UpdateStage::Failed, lock: None, ..self.state };
        UpdateAction::Fail { release, error }
    }

    fn fail_out_of_turn(&mut self) -> (out: UpdateAction)
        ensures
            (final(self).state, out@) == old(self).state.fail(out_of_turn()),
            final(self).plan == old(self).plan,
    {
        self.fail(
            ErrorCode::create(
                ErrorKind::Internal,
                "the event does not answer the step that was asked for",
            ),
        )
    }

    /// The physical plan of an UPDATE: the source stage that reads
    /// `partitions` and applies the predicate and the replacements, below
    /// the commit stage that publishes `snapshot` as an update. The commit
    /// first loads metadata exactly where some partition is lazy, and it
    /// takes no lock of its own.
    pub fn build_physical_plan(
        filters: Option<Filters>,
        update_list: Vec<(FieldIndex, RemoteExpr)>,
        computed_list: BTreeMap<FieldIndex, RemoteExpr>,
        partitions: Partitions,
        table_info: TableInfo,
        col_indices: Vec<usize>,
        snapshot: Arc<TableSnapshot>,
        catalog_info: CatalogInfo,
        query_row_id_col: bool,
    ) -> (plan: Result<PhysicalPlan, ErrorCode>)
        ensures
            plan matches Ok(PhysicalPlan::CommitSink(sink)) && {
                &&& sink.snapshot == snapshot
                &&& sink.table_info@ == table_info@
                &&& sink.catalog_info@ == catalog_info@
                &&& sink.mutation_kind == MutationKind::Update
                &&& sink.update_stream_meta@.len() == 0
                &&& sink.merge_meta == partitions.spec_is_lazy()
                &&& !sink.need_lock
                &&& *sink.input matches PhysicalPlan::UpdateSource(source) && {
                    &&& source.parts == partitions
                    &&& source.filters == filters
                    &&& source.table_info@ == table_info@
                    &&& source.catalog_info@ == catalog_info@
                    &&& source.col_indices == col_indices
                    &&& source.query_row_id_col == query_row_id_col
                    &&& source.update_list == update_list
                    &&& source.computed_list == computed_list
                }
            },
    {
        let merge_meta = partitions.is_lazy();
        let root = PhysicalPlan::UpdateSource(
            Box::new(
                UpdateSource {
                    parts: partitions,
                    filters,
                    table_info: table_info.duplicate(),
                    catalog_info: catalog_info.duplicate(),
                    col_indices,
                    query_row_id_col,
                    update_list,
                    computed_list,
                },
            ),
        );
        Ok(
            PhysicalPlan::CommitSink(
                Box::new(
                    CommitSink {
                        input: Box::new(root),
                        snapshot,
                        table_info,
                        catalog_info,
                        mutation_kind: MutationKind::Update,
                        update_stream_meta: Vec::new(),
                        merge_meta,
                        need_lock: false,
                    },
                ),
            ),
        )
    }
}

/// The state that a sequence of events leads to.
pub open spec fn update_run(state: UpdateState, events: Seq<UpdateEventView>) -> UpdateState
    decreases events.len(),
{
    if events.len() == 0 {
        state
    } else {
        update_step(update_run(state, events.drop_last()), events.last()).0
    }
}

/// The action that the `i`-th event of a sequence is answered with.
pub open spec fn update_action_at(
    state: UpdateState,
    events: Seq<UpdateEventView>,
    i: int,
) -> UpdateActionView {
    update_step(update_run(state, events.subrange(0, i)), events[i]).1
}

/// The lock revisions that the interpreter takes along a sequence of
/// events, in order.
pub open spec fn acquired_locks(state: UpdateState, events: Seq<UpdateEventView>) -> Seq<u64>
    decreases events.len(),
{
    if events.len() == 0 {
        Seq::empty()
    } else {
        acquired_locks(state, events.drop_last()) + acquired_by(
            update_run(state, events.drop_last()),
            events.last(),
        )
    }
}

/// The lock revisions that the interpreter gives back along a sequence of
/// events, in order.
pub open spec fn released_locks(state: UpdateState, events: Seq<UpdateEventView>) -> Seq<u64>
    decreases events.len(),
{
    if events.len() == 0 {
        Seq::empty()
    } else {
        released_locks(state, events.drop_last()) + released_by(
            update_step(update_run(state, events.drop_last()), events.last()).1,
        )
    }
}

/// The lock that a state holds, as a sequence of at most one revision.
pub open spec fn held_lock(state: UpdateState) -> Seq<u64> {
    match state.lock {
        Some(revision) => seq![revision],
        None => Seq::empty(),
    }
}

/// Whether the stage comes before the lock is granted.
pub open spec fn before_lock(stage: UpdateStage) -> bool {
    stage == UpdateStage::Created || stage == UpdateStage::CheckingLabel || stage
        == UpdateStage::ResolvingTable || stage == UpdateStage::Locking
}

/// The revision that is taken when `event` arrives in `state`, as a
/// sequence of at most one.
pub open spec fn acquired_by(state: UpdateState, event: UpdateEventView) -> Seq<u64> {
    if state.stage == UpdateStage::Locking && event is LockAcquired {
        seq![event->revision]
    } else {
        Seq::empty()
    }
}

/// The revision that an action gives back, as a sequence of at most one.
pub open spec fn released_by(action: UpdateActionView) -> Seq<u64> {
    match action {
        UpdateActionView::Finish { release: Some(revision), .. } => seq![revision],
        UpdateActionView::Fail { release: Some(revision), .. } => seq![revision],
        _ => Seq::empty(),
    }
}

/// A lock is held only past the stage at which it is granted, and not by
/// a statement that has ended.
pub open spec fn lock_in_place(state: UpdateState) -> bool {
    state.lock is Some ==> !before_lock(state.stage) && !state.is_terminal()
}

/// One step keeps the account of the lock: what was held before and what
/// the step takes is what the step gives back and what is held after.
pub proof fn lemma_step_keeps_lock_account(state: UpdateState, event: UpdateEventView)
    requires
        lock_in_place(state),
    ensures
        ({
            let (next, action) = update_step(state, event);
            &&& lock_in_place(next)
            &&& held_lock(state) + acquired_by(state, event) == released_by(action) + held_lock(
                next,
            )
            &&& before_lock(next.stage) ==> before_lock(state.stage) && acquired_by(
                state,
                event,
            ).len() == 0
            &&& !before_lock(state.stage) ==> acquired_by(state, event).len() == 0
        }),
{
    let (next, action) = update_step(state, event);
    assert(held_lock(state) + acquired_by(state, event) =~= released_by(action) + held_lock(next));
}

/// Whatever happens to a statement, the lock revision that it took is
/// given back by the time it ends, and it is taken at most once: along
/// every sequence of events, the revisions taken are those given back
/// followed by the one still held, and a statement that has ended holds
/// none.
pub proof fn lemma_lock_released_on_every_path(
    has_selection: bool,
    has_subquery: bool,
    events: Seq<UpdateEventView>,
)
    ensures
        ({
            let start = UpdateInterpreter::initial(has_selection, has_subquery);
            let end = update_run(start, events);
            &&& acquired_locks(start, events) == released_locks(start, events) + held_lock(end)
            &&& acquired_locks(start, events).len() <= 1
            &&& end.is_terminal() ==> end.lock is None && acquired_locks(start, events)
                == released_locks(start, events)
            &&& before_lock(end.stage) ==> acquired_locks(start, events).len() == 0
            &&& lock_in_place(end)
        }),
    decreases events.len(),
{
    let start = UpdateInterpreter::initial(has_selection, has_subquery);
    if events.len() == 0 {
        assert(acquired_locks(start, events) =~= released_locks(start, events) + held_lock(start));
    } else {
        let earlier = events.drop_last();
        lemma_lock_released_on_every_path(has_selection, has_subquery, earlier);
        let before = update_run(start, earlier);
        lemma_step_keeps_lock_account(before, events.last());
        let step = update_step(before, events.last());
        let taken = acquired_locks(start, earlier);
        let given = released_locks(start, earlier);
        assert(taken + acquired_by(before, events.last()) =~= given + (held_lock(before)
            + acquired_by(before, events.last())));
        assert(given + released_by(step.1) + held_lock(step.0) =~= given + (released_by(step.1)
            + held_lock(step.0)));
    }
}

/// Whether the event says that storage found rows to update.
pub open spec fn found_snapshot(event: UpdateEventView) -> bool {
    event matches UpdateEventView::FastUpdated { snapshot_found } && snapshot_found
}

/// Whether the stage lies past the tentative snapshot.
pub open spec fn past_fast_update(stage: UpdateStage) -> bool {
    stage == UpdateStage::ReadingPartitions || stage == UpdateStage::BuildingPipeline || stage
        == UpdateStage::RefreshingIndex || stage == UpdateStage::Executing
}

/// An UPDATE for which storage finds nothing to update changes nothing:
/// as long as no event reports a tentative snapshot, the interpreter never
/// asks to read partitions, to build or to run a pipeline, and where it
/// ends well it reports that no row was affected.
pub proof fn lemma_update_without_match_is_noop(
    has_selection: bool,
    has_subquery: bool,
    events: Seq<UpdateEventView>,
)
    requires
        forall|i: int| 0 <= i < events.len() ==> !found_snapshot(#[trigger] events[i]),
    ensures
        ({
            let start = UpdateInterpreter::initial(has_selection, has_subquery);
            &&& !past_fast_update(update_run(start, events).stage)
            &&& forall|i: int|
                0 <= i < events.len() ==> {
                    let action = #[trigger] update_action_at(start, events, i);
                    &&& action != UpdateActionView::ReadPartitions
                    &&& action != UpdateActionView::BuildPipeline
                    &&& action != UpdateActionView::RunPipeline
                    &&& action matches UpdateActionView::Finish { affected, .. } ==> !affected
                }
        }),
    decreases events.len(),
{
    let start = UpdateInterpreter::initial(has_selection, has_subquery);
    if events.len() > 0 {
        let earlier = events.drop_last();
        lemma_update_without_match_is_noop(has_selection, has_subquery, earlier);
        assert(!found_snapshot(events[events.len() - 1]));
        assert forall|i: int| 0 <= i < events.len() implies {
            let action = #[trigger] update_action_at(start, events, i);
            &&& action != UpdateActionView::ReadPartitions
            &&& action != UpdateActionView::BuildPipeline
            &&& action != UpdateActionView::RunPipeline
            &&& action matches UpdateActionView::Finish { affected, .. } ==> !affected
        } by {
            if i < earlier.len() {
                assert(events.subrange(0, i) =~= earlier.subrange(0, i));
                assert(update_action_at(start, events, i) == update_action_at(start, earlier, i));
            } else {
                assert(events.subrange(0, i) =~= earlier);
            }
        }
    }
}

} // verus!
