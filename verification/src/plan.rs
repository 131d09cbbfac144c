//! The nodes of a physical plan that a mutation is made of.

use crate::part::ColumnId;
use crate::part::Partitions;
use crate::scalar::DataType;
use crate::scalar::Scalar;
use crate::snapshot::BlockMeta;
use crate::snapshot::Statistics;
use crate::snapshot::TableSnapshot;
use crate::table::CatalogInfo;
use crate::table::FieldIndex;
use crate::table::TableField;
use crate::table::TableInfo;
use crate::table::TableSchema;
use std::collections::BTreeMap;
use std::collections::HashMap;
use std::sync::Arc;
use vstd::prelude::*;

verus! {

/// An expression in the form in which it travels between processes. The
/// planner carries it and never looks inside.
#[derive(Debug)]
pub struct RemoteExpr {
    pub repr: String,
}

/// A predicate pushed down to storage, with its negation.
#[derive(Debug)]
pub struct Filters {
    pub filter: RemoteExpr,
    pub inverted_filter: RemoteExpr,
}

/// The kind of change that a commit publishes.
#[derive(Clone, Copy, Debug, PartialEq, Eq, Structural)]
pub enum MutationKind {
    Delete,
    Update,
    Replace,
    Recluster,
    Insert,
    Compact,
    MergeInto,
}

/// One field of a data block's schema.
#[derive(Debug)]
pub struct DataField {
    pub name: String,
    pub data_type: DataType,
}

/// The schema of the blocks that flow through a pipeline.
#[derive(Debug)]
pub struct DataSchema {
    pub fields: Vec<DataField>,
}

impl DataSchema {
    /// The types of the fields, in order.
    pub open spec fn types(&self) -> Seq<DataType> {
        Seq::new(self.fields@.len(), |i: int| self.fields@[i].data_type)
    }

    /// The number of fields.
    pub fn num_fields(&self) -> (n: usize)
        ensures
            n == self.types().len(),
    {
        self.fields.len()
    }

    /// The `i`-th field.
    pub fn field(&self, i: usize) -> (field: &DataField)
        requires
            i < self.types().len(),
        ensures
            field.data_type == self.types()[i as int],
            *field == self.fields@[i as int],
    {
        &self.fields[i]
    }
}

/// The source stage of an UPDATE: reads the pruned partitions and applies
/// the predicate and the replacements.
#[derive(Debug)]
pub struct UpdateSource {
    pub parts: Partitions,
    pub filters: Option<Filters>,
    pub table_info: TableInfo,
    pub catalog_info: CatalogInfo,
    /// The columns that the predicate and the replacements read.
    pub col_indices: Vec<usize>,
    pub query_row_id_col: bool,
    /// For each replaced field, the expression that gives its new value.
    pub update_list: Vec<(FieldIndex, RemoteExpr)>,
    /// For each stored computed field, the expression that derives it.
    pub computed_list: BTreeMap<FieldIndex, RemoteExpr>,
}

/// The commit stage: publishes the snapshot that the stages below it made.
#[derive(Debug)]
pub struct CommitSink {
    pub input: Box<PhysicalPlan>,
    pub snapshot: Arc<TableSnapshot>,
    pub table_info: TableInfo,
    pub catalog_info: CatalogInfo,
    pub mutation_kind: MutationKind,
    /// The streams whose position moves with this commit.
    pub update_stream_meta: Vec<TableInfo>,
    /// Whether the stage must first load the metadata of lazy partitions.
    pub merge_meta: bool,
    pub need_lock: bool,
}

/// One unit of recluster work: the partitions to rewrite, their level,
/// and how much they hold.
#[derive(Debug)]
pub struct ReclusterTask {
    pub parts: Partitions,
    pub stats: Statistics,
    pub total_rows: usize,
    pub total_bytes: usize,
    pub level: i32,
}

/// The source stage of a recluster.
#[derive(Debug)]
pub struct ReclusterSource {
    pub tasks: Vec<ReclusterTask>,
    pub table_info: TableInfo,
    pub catalog_info: CatalogInfo,
}

/// The sink stage of a recluster: gathers the rewritten blocks and commits
/// them in place of the ones that were read.
#[derive(Debug)]
pub struct ReclusterSink {
    pub input: Box<PhysicalPlan>,
    pub table_info: TableInfo,
    pub catalog_info: CatalogInfo,
    pub snapshot: Arc<TableSnapshot>,
    /// The blocks of the touched segments that the task did not read.
    pub remained_blocks: Vec<Arc<BlockMeta>>,
    pub removed_segment_indexes: Vec<usize>,
    pub removed_segment_summary: Statistics,
}

/// A field by which REPLACE finds the rows that conflict.
#[derive(Debug)]
pub struct OnConflictField {
    pub table_field: TableField,
    pub field_index: FieldIndex,
}

/// The least and the greatest value of a column, with counts.
#[derive(Debug)]
pub struct ColumnStatistics {
    pub min: Scalar,
    pub max: Scalar,
    pub null_count: u64,
    pub in_memory_size: u64,
}

/// A column as a query names it.
#[derive(Debug)]
pub struct ColumnBinding {
    pub database_name: Option<String>,
    pub table_name: Option<String>,
    pub column_name: String,
    pub index: usize,
    pub data_type: DataType,
}

/// What REPLACE needs of the SELECT that feeds it.
#[derive(Debug)]
pub struct ReplaceSelectCtx {
    pub select_column_bindings: Vec<ColumnBinding>,
    pub select_schema: DataSchema,
}

/// The stage of a REPLACE that drops the incoming rows that repeat a key.
#[derive(Debug)]
pub struct ReplaceDeduplicate {
    pub input: Box<PhysicalPlan>,
    pub on_conflicts: Vec<OnConflictField>,
    pub bloom_filter_column_indexes: Vec<FieldIndex>,
    pub table_is_empty: bool,
    pub table_info: TableInfo,
    pub catalog_info: CatalogInfo,
    pub table_schema: TableSchema,
    pub select_ctx: Option<ReplaceSelectCtx>,
    pub table_level_range_index: HashMap<ColumnId, ColumnStatistics>,
    pub need_insert: bool,
    pub delete_when: Option<(RemoteExpr, String)>,
}

/// A physical plan: a tree of stages.
#[derive(Debug)]
pub enum PhysicalPlan {
    UpdateSource(Box<UpdateSource>),
    CommitSink(Box<CommitSink>),
    ReclusterSource(Box<ReclusterSource>),
    ReclusterSink(Box<ReclusterSink>),
    ReplaceDeduplicate(Box<ReplaceDeduplicate>),
}

} // verus!
