//! Reading a table of Parquet files: which readers a scan needs.
//!
//! The partitions of such a table are row groups, each of a file whose
//! metadata is known, and whole files, which are read as they come. The
//! whole files always stand at the end of the list, so the last partition
//! tells whether there are any.

use crate::part::ParquetPartView;
use crate::part::PartInfo;
use crate::part::PartInfoView;
use crate::part::ParquetPart;
use crate::part::Partitions;
use vstd::prelude::*;

verus! {

/// The readers that a scan of Parquet partitions sets up.
#[derive(Clone, Copy, Debug, PartialEq, Eq, Structural)]
pub struct ParquetReadPlan {
    /// Whether a pruner is made, to skip row groups and pages of the files
    /// that are read whole.
    pub pruner: bool,
    /// Whether a reader for whole files is built beside the reader for
    /// row groups.
    pub full_file_reader: bool,
    /// Whether the readers keep only the rows that can reach the top of
    /// the order.
    pub topk: bool,
    /// The number of sources that read in parallel.
    pub num_threads: usize,
}

/// Whether the list holds a whole file: its last partition is one.
pub open spec fn has_files_part(parts: Seq<PartInfoView>) -> bool {
    parts.len() > 0 && parts.last() matches PartInfoView::Parquet(
        ParquetPartView::ParquetFiles { .. },
    )
}

/// Whether every partition of the list is one of a Parquet table.
pub open spec fn all_parquet(parts: Seq<PartInfoView>) -> bool {
    forall|i: int| 0 <= i < parts.len() ==> #[trigger] parts[i] is Parquet
}

/// In a list of Parquet partitions a whole file is among them exactly
/// where the last one is a whole file.
pub proof fn lemma_files_stand_last(list: Partitions, i: int)
    requires
        list.wf(),
        all_parquet(list.parts()),
        0 <= i < list.parts().len(),
        list.parts()[i] matches PartInfoView::Parquet(ParquetPartView::ParquetFiles { .. }),
    ensures
        has_files_part(list.parts()),
{
    crate::part::lemma_lazy_parts_come_last(list, i, list.parts().len() - 1);
    assert(list.parts().last() is Parquet);
}

/// The readers that a scan of the given partitions sets up: the pruner
/// and the reader for whole files exactly where the list holds a whole
/// file. The last partition of the list must be one of a Parquet table.
pub fn do_read_data(parts: &Partitions, num_threads: usize, topk: bool) -> (plan: ParquetReadPlan)
    requires
        parts.parts().len() > 0 ==> parts.parts().last() is Parquet,
    ensures
        plan == (ParquetReadPlan {
            pruner: has_files_part(parts.parts()),
            full_file_reader: has_files_part(parts.parts()),
            topk,
            num_threads,
        }),
{
    let has_files = match parts.last() {
        Some(part) => match &**part {
            PartInfo::Parquet(ParquetPart::ParquetFiles(_)) => true,
            _ => false,
        },
        None => false,
    };
    ParquetReadPlan { pruner: has_files, full_file_reader: has_files, topk, num_threads }
}

} // verus!
