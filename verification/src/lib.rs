//! Mutation and commit core of a columnar, snapshot-versioned table store.
//!
//! The crate holds the decisions of the engine as verified functions over
//! plain values. Every executable function carries a contract over the
//! mathematical view of its arguments, and what the outside world does
//! between two decisions enters as an event.
//!
//! - [`part`]: partition descriptors, eager and lazy, and lists of them;
//!   [`prune`]: the choice of the partitions that a mutation reads.
//! - [`rows`]: the encoder of sort keys, with [`order`], [`column`] and
//!   [`variant`] below it.
//! - [`update`] and [`add_column`]: the interpreters of UPDATE and of
//!   ALTER TABLE ... ADD COLUMN, step by step.
//! - [`recluster`], [`merge`] and [`aggregate`]: the sizing, the merge
//!   sort and the sink of a recluster.
//! - [`commit`]: the next snapshot of a table and its conditional
//!   publication, with [`snapshot`] and [`meta`]; [`lock`]: the table lock.
//! - [`plan`], [`table`], [`scalar`], [`error`]: the values that the others
//!   speak of. [`format`]: how plans are shown. [`parquet`]: the readers of
//!   a scan of Parquet files.

pub mod add_column;
pub mod aggregate;
pub mod column;
pub mod commit;
pub mod error;
pub mod format;
pub mod lock;
pub mod merge;
pub mod meta;
pub mod order;
pub mod parquet;
pub mod part;
pub mod plan;
pub mod prune;
pub mod recluster;
pub mod rows;
pub mod scalar;
pub mod snapshot;
pub mod table;
pub mod update;
pub mod variant;
pub mod vecs;
