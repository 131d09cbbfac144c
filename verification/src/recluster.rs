//! Planning a recluster: how large the rewritten blocks are to be, and
//! which stages the pipeline is made of.
//!
//! One invocation rewrites one task. Its rows are read, sorted by the
//! cluster key and cut into blocks of a size that aims at four fifths of
//! the byte budget of a block, so that an estimate that runs low does not
//! end in blocks over the budget.

use crate::error::ErrorCode;
use crate::error::ErrorKind;
use crate::plan::MutationKind;
use crate::plan::ReclusterSource;
use crate::plan::ReclusterTask;
use crate::rows::SortColumnDescription;
use vstd::prelude::*;

verus! {

/// The bounds that a table sets on its blocks.
#[derive(Clone, Copy, Debug, PartialEq, Eq, Structural)]
pub struct BlockThresholds {
    pub max_rows_per_block: usize,
    pub min_rows_per_block: usize,
    pub max_bytes_per_block: usize,
}

/// The settings of a session that the planner reads.
#[derive(Clone, Copy, Debug, PartialEq, Eq, Structural)]
pub struct Settings {
    pub max_block_size: u64,
    pub max_threads: u64,
}

/// What the planner needs to know of the table that is reclustered.
#[derive(Debug)]
pub struct ClusterFacts {
    pub thresholds: BlockThresholds,
    /// The version of the table's metadata.
    pub table_seq: u64,
    /// Whether the table keeps the history of changes to its rows.
    pub change_tracking: bool,
    /// The number of columns that a read of the table yields.
    pub num_input_columns: usize,
    /// The number of expressions that compute the cluster key.
    pub cluster_operators: usize,
    /// The positions of the cluster key's columns in the sorted schema.
    pub cluster_key_index: Vec<usize>,
}

/// The number of blocks that `total_bytes` bytes are spread over: as many
/// as hold them at four fifths of the byte budget each, and at least one.
pub open spec fn block_num(total_bytes: int, max_bytes_per_block: int) -> int {
    vstd::math::max(total_bytes * 80 / (max_bytes_per_block * 100), 1)
}

/// The number of rows of a rewritten block: an even share of the rows,
/// capped by the row budget of a block.
pub open spec fn final_block_size(
    total_rows: int,
    total_bytes: int,
    thresholds: BlockThresholds,
) -> int {
    vstd::math::min(
        total_rows / block_num(total_bytes, thresholds.max_bytes_per_block as int),
        thresholds.max_rows_per_block as int,
    )
}

/// The number of rows at which a sorted run is cut before the merge: the
/// final size, capped by the session's block size where more than one
/// stream feeds the sort.
pub open spec fn partial_block_size(final_size: int, max_block_size: int, streams: int) -> int {
    if streams > 1 {
        vstd::math::min(final_size, max_block_size)
    } else {
        final_size
    }
}

/// The number of blocks that `total_rows` rows fill at `block_size` rows
/// each, the last one possibly short.
pub open spec fn output_block_num(total_rows: int, block_size: int) -> int {
    (total_rows + block_size - 1) / block_size
}

/// The width to which the pipeline is resized before the blocks are
/// serialized: the session's threads, and no more than there are blocks.
pub open spec fn serialize_width(max_threads: int, total_rows: int, block_size: int) -> int {
    vstd::math::min(max_threads, output_block_num(total_rows, block_size))
}

/// Whether a task can be sized: the byte budget of a block is not zero,
/// an even share of the rows is at least one row, and the task's level has
/// a next one.
pub open spec fn sizable(task: &ReclusterTask, thresholds: BlockThresholds) -> bool {
    &&& thresholds.max_bytes_per_block > 0
    &&& final_block_size(task.total_rows as int, task.total_bytes as int, thresholds) > 0
    &&& task.level < i32::MAX
}

/// Computes [`block_num`].
pub fn compute_block_num(total_bytes: usize, max_bytes_per_block: usize) -> (n: usize)
    requires
        max_bytes_per_block > 0,
    ensures
        n == block_num(total_bytes as int, max_bytes_per_block as int),
        1 <= n,
        n <= vstd::math::max(total_bytes as int, 1),
{
    let bytes: u128 = total_bytes as u128 * 80;
    let budget: u128 = max_bytes_per_block as u128 * 100;
    let share: u128 = bytes / budget;
    assert(share <= total_bytes) by (nonlinear_arith)
        requires
            share == (total_bytes * 80) / (max_bytes_per_block * 100),
            max_bytes_per_block > 0,
            total_bytes >= 0,
    ;
    if share > 1 {
        share as usize
    } else {
        1
    }
}

/// Computes [`final_block_size`].
pub fn compute_final_block_size(
    total_rows: usize,
    total_bytes: usize,
    thresholds: &BlockThresholds,
) -> (size: usize)
    requires
        thresholds.max_bytes_per_block > 0,
    ensures
        size == final_block_size(total_rows as int, total_bytes as int, *thresholds),
        size <= thresholds.max_rows_per_block,
        size <= total_rows,
{
    let blocks = compute_block_num(total_bytes, thresholds.max_bytes_per_block);
    let share = total_rows / blocks;
    assert(share <= total_rows) by (nonlinear_arith)
        requires
            share == total_rows as int / blocks as int,
            blocks >= 1,
            total_rows >= 0,
    ;
    if share < thresholds.max_rows_per_block {
        share
    } else {
        thresholds.max_rows_per_block
    }
}

/// Computes [`partial_block_size`].
pub fn compute_partial_block_size(final_size: usize, max_block_size: u64, streams: usize) -> (size:
    usize)
    ensures
        size == partial_block_size(final_size as int, max_block_size as int, streams as int),
        size <= final_size,
{
    if streams > 1 && max_block_size < final_size as u64 {
        max_block_size as usize
    } else {
        final_size
    }
}

/// Computes [`output_block_num`].
pub fn compute_output_block_num(total_rows: usize, block_size: usize) -> (n: usize)
    requires
        block_size > 0,
    ensures
        n == output_block_num(total_rows as int, block_size as int),
        n * block_size >= total_rows,
        total_rows > 0 ==> (n - 1) * block_size < total_rows,
        total_rows == 0 ==> n == 0,
{
    let whole = total_rows / block_size;
    let rest = total_rows % block_size;
    proof {
        lemma_ceil_div(total_rows as int, block_size as int);
    }
    if rest == 0 {
        whole
    } else {
        assert(whole < total_rows) by (nonlinear_arith)
            requires
                whole == total_rows as int / block_size as int,
                rest == total_rows as int % block_size as int,
                rest > 0,
                block_size > 0,
                total_rows >= 0,
        ;
        whole + 1
    }
}

/// The quotient rounded up, by the quotient rounded down and the rest.
pub proof fn lemma_ceil_div(total: int, size: int)
    requires
        total >= 0,
        size > 0,
    ensures
        output_block_num(total, size) == total / size + if total % size == 0 {
            0int
        } else {
            1int
        },
        output_block_num(total, size) * size >= total,
        (output_block_num(total, size) - 1) * size < total || total == 0,
        total == 0 ==> output_block_num(total, size) == 0,
        output_block_num(total, size) >= 0,
{
    let q = total / size;
    let r = total % size;
    assert(total == q * size + r && 0 <= r < size) by (nonlinear_arith)
        requires
            q == total / size,
            r == total % size,
            size > 0,
    ;
    if r == 0 {
        assert((q * size + size - 1) / size == q) by (nonlinear_arith)
            requires
                size > 0,
        ;
    } else {
        assert((q * size + r + size - 1) / size == q + 1) by (nonlinear_arith)
            requires
                size > 0,
                0 < r < size,
        ;
    }
    assert(q >= 0) by (nonlinear_arith)
        requires
            q == total / size,
            total >= 0,
            size > 0,
    ;
    assert((q + 1) * size == q * size + size) by (nonlinear_arith);
    assert((q - 1) * size == q * size - size) by (nonlinear_arith);
}

/// Computes [`serialize_width`].
pub fn compute_serialize_width(max_threads: u64, total_rows: usize, block_size: usize) -> (width:
    usize)
    requires
        block_size > 0,
    ensures
        width == serialize_width(max_threads as int, total_rows as int, block_size as int),
        width <= output_block_num(total_rows as int, block_size as int),
{
    let blocks = compute_output_block_num(total_rows, block_size);
    if max_threads < blocks as u64 {
        max_threads as usize
    } else {
        blocks
    }
}

/// Whether a task can be sized.
pub fn is_sizable(task: &ReclusterTask, thresholds: &BlockThresholds) -> (ok: bool)
    ensures
        ok == sizable(task, *thresholds),
{
    thresholds.max_bytes_per_block > 0 && compute_final_block_size(
        task.total_rows,
        task.total_bytes,
        thresholds,
    ) > 0 && task.level < i32::MAX
}

/// One stage of a recluster pipeline.
#[derive(Debug)]
pub enum ReclusterStage {
    /// A source that yields nothing.
    EmptySource,
    /// Read the partitions of the task with this number; where the table
    /// keeps change history, the read also yields the stream columns.
    ReadTask { task: usize, update_stream_columns: bool },
    /// Fill the stream columns in, from this version of the table on.
    AddStreamColumns { base_seq: u64 },
    /// Compute the cluster key for the next level, behind this many input
    /// columns.
    ClusterOperators { level: i32, num_input_columns: usize },
    /// Sort all rows by these columns. Runs before the merge are cut at
    /// `partial_block_size(final_block_size, partial_block_limit, w)` rows,
    /// with `w` the width of the pipeline when the stage is added; after
    /// the merge the rows leave in blocks of `final_block_size` rows.
    MergeSort {
        sort_descs: Vec<SortColumnDescription>,
        final_block_size: usize,
        partial_block_limit: u64,
    },
    /// Bring the pipeline to this width.
    Resize { width: usize },
    /// Write each block out and describe it for the commit.
    SerializeBlock { kind: MutationKind },
}

/// The mathematical value of a [`ReclusterStage`].
pub enum ReclusterStageView {
    EmptySource,
    ReadTask { task: usize, update_stream_columns: bool },
    AddStreamColumns { base_seq: u64 },
    ClusterOperators { level: i32, num_input_columns: usize },
    MergeSort {
        sort_descs: Seq<SortColumnDescription>,
        final_block_size: usize,
        partial_block_limit: u64,
    },
    Resize { width: usize },
    SerializeBlock { kind: MutationKind },
}

impl View for ReclusterStage {
    type V = ReclusterStageView;

    open spec fn view(&self) -> ReclusterStageView {
        match self {
            ReclusterStage::EmptySource => ReclusterStageView::EmptySource,
            ReclusterStage::ReadTask { task, update_stream_columns } => ReclusterStageView::ReadTask {
                task: *task,
                update_stream_columns: *update_stream_columns,
            },
            ReclusterStage::AddStreamColumns { base_seq } => ReclusterStageView::AddStreamColumns {
                base_seq: *base_seq,
            },
            ReclusterStage::ClusterOperators {
                level,
                num_input_columns,
            } => ReclusterStageView::ClusterOperators {
                level: *level,
                num_input_columns: *num_input_columns,
            },
            ReclusterStage::MergeSort {
                sort_descs,
                final_block_size,
                partial_block_limit,
            } => ReclusterStageView::MergeSort {
                sort_descs: sort_descs@,
                final_block_size: *final_block_size,
                partial_block_limit: *partial_block_limit,
            },
            ReclusterStage::Resize { width } => ReclusterStageView::Resize { width: *width },
            ReclusterStage::SerializeBlock { kind } => ReclusterStageView::SerializeBlock {
                kind: *kind,
            },
        }
    }
}

/// The views of a sequence of stages.
pub open spec fn stage_views(stages: Seq<ReclusterStage>) -> Seq<ReclusterStageView> {
    Seq::new(stages.len(), |i: int| stages[i]@)
}

/// The sort that a cluster key asks for: each of its columns ascending,
/// nulls last.
pub open spec fn cluster_sort(cluster_key_index: Seq<usize>) -> Seq<SortColumnDescription> {
    Seq::new(
        cluster_key_index.len(),
        |i: int|
            SortColumnDescription {
                offset: cluster_key_index[i],
                asc: true,
                nulls_first: false,
                is_nullable: false,
            },
    )
}

/// Computes [`cluster_sort`].
pub fn compute_cluster_sort(cluster_key_index: &Vec<usize>) -> (descs: Vec<SortColumnDescription>)
    ensures
        descs@ == cluster_sort(cluster_key_index@),
{
    let mut descs: Vec<SortColumnDescription> = Vec::new();
    let mut i: usize = 0;
    while i < cluster_key_index.len()
        invariant
            i <= cluster_key_index.len(),
            descs@ == cluster_sort(cluster_key_index@.subrange(0, i as int)),
        decreases cluster_key_index.len() - i,
    {
        descs.push(
            SortColumnDescription {
                offset: cluster_key_index[i],
                asc: true,
                nulls_first: false,
                is_nullable: false,
            },
        );
        assert(descs@ =~= cluster_sort(cluster_key_index@.subrange(0, i + 1)));
        i = i + 1;
    }
    assert(cluster_key_index@.subrange(0, i as int) =~= cluster_key_index@);
    descs
}

/// The stages that rewrite one task, in order: the read; the stream
/// columns where the table keeps change history; the cluster key's
/// expressions where it has any; the sort; the resize to as many workers
/// as there are threads and blocks; the serializer.
pub open spec fn task_stages(
    task: &ReclusterTask,
    facts: &ClusterFacts,
    settings: Settings,
) -> Seq<ReclusterStageView> {
    let size = final_block_size(task.total_rows as int, task.total_bytes as int, facts.thresholds);
    seq![
        ReclusterStageView::ReadTask { task: 0, update_stream_columns: facts.change_tracking },
    ] + (if facts.change_tracking {
        seq![ReclusterStageView::AddStreamColumns { base_seq: facts.table_seq }]
    } else {
        Seq::empty()
    }) + (if facts.cluster_operators > 0 {
        seq![
            ReclusterStageView::ClusterOperators {
                level: (task.level + 1) as i32,
                num_input_columns: facts.num_input_columns,
            },
        ]
    } else {
        Seq::empty()
    }) + seq![
        ReclusterStageView::MergeSort {
            sort_descs: cluster_sort(facts.cluster_key_index@),
            final_block_size: size as usize,
            partial_block_limit: settings.max_block_size,
        },
        ReclusterStageView::Resize {
            width: serialize_width(settings.max_threads as int, task.total_rows as int, size) as usize,
        },
        ReclusterStageView::SerializeBlock { kind: MutationKind::Recluster },
    ]
}

/// The stages of the source side of a recluster. Without a task the
/// source is empty. With one task the stages are those of
/// [`task_stages`]; the task must be one that can be sized. More than one
/// task is an internal error: a node executes one recluster task.
pub fn build_recluster_source(
    source: &ReclusterSource,
    facts: &ClusterFacts,
    settings: &Settings,
) -> (built: Result<Vec<ReclusterStage>, ErrorCode>)
    requires
        source.tasks@.len() == 1 ==> sizable(&source.tasks@[0], facts.thresholds),
    ensures
        match built {
            Ok(stages) => {
                &&& source.tasks@.len() <= 1
                &&& source.tasks@.len() == 0 ==> stage_views(stages@)
                    == seq![ReclusterStageView::EmptySource]
                &&& source.tasks@.len() == 1 ==> stage_views(stages@) == task_stages(
                    &source.tasks@[0],
                    facts,
                    *settings,
                )
            },
            Err(e) => source.tasks@.len() > 1 && e@ == (crate::error::ErrorView {
                kind: ErrorKind::Internal,
                message: "A node can only execute one recluster task"@,
            }),
        },
{
    let mut stages: Vec<ReclusterStage> = Vec::new();
    if source.tasks.len() == 0 {
        stages.push(ReclusterStage::EmptySource);
        assert(stage_views(stages@) =~= seq![ReclusterStageView::EmptySource]);
        return Ok(stages);
    }
    if source.tasks.len() > 1 {
        return Err(
            ErrorCode::create(ErrorKind::Internal, "A node can only execute one recluster task"),
        );
    }
    let task = &source.tasks[0];
    stages.push(ReclusterStage::ReadTask { task: 0, update_stream_columns: facts.change_tracking });
    if facts.change_tracking {
        stages.push(ReclusterStage::AddStreamColumns { base_seq: facts.table_seq });
    }
    if facts.cluster_operators > 0 {
        stages.push(
            ReclusterStage::ClusterOperators {
                level: task.level + 1,
                num_input_columns: facts.num_input_columns,
            },
        );
    }
    let size = compute_final_block_size(task.total_rows, task.total_bytes, &facts.thresholds);
    let width = compute_serialize_width(settings.max_threads, task.total_rows, size);
    stages.push(
        ReclusterStage::MergeSort {
            sort_descs: compute_cluster_sort(&facts.cluster_key_index),
            final_block_size: size,
            partial_block_limit: settings.max_block_size,
        },
    );
    stages.push(ReclusterStage::Resize { width });
    stages.push(ReclusterStage::SerializeBlock { kind: MutationKind::Recluster });
    assert(stage_views(stages@) =~= task_stages(task, facts, *settings));
    Ok(stages)
}

} // verus!
