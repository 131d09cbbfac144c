//! Partition descriptors: the handles by which a unit of storage is named
//! when it is scheduled for a read or a mutation.
//!
//! A partition is a closed variant: an eager handle on one block, or a lazy
//! pointer to a segment whose blocks are resolved just before the read. A
//! list of partitions keeps the two in separate sequences, so that the lazy
//! ones always come last.

use crate::error::ErrorCode;
use crate::error::ErrorKind;
use crate::scalar::Scalar;
use crate::scalar::ScalarView;
use std::collections::hash_map::DefaultHasher;
use std::collections::HashMap;
use std::hash::Hasher;
use std::sync::Arc;
use vstd::prelude::*;
use vstd::std_specs::hash::DefaultHasherAdditionalSpecFns;
use vstd::std_specs::iter::IteratorSpec;

verus! {

/// The number by which a column is known inside a table.
pub type ColumnId = u32;

/// A shared partition descriptor.
pub type PartInfoPtr = Arc<PartInfo>;

/// An instant: whole seconds since the epoch and the nanoseconds within
/// the second.
#[derive(Clone, Copy, Debug, PartialEq, Eq, Structural)]
pub struct Timestamp {
    pub secs: i64,
    pub nanos: u32,
}

/// Where the bytes of one column lie inside a block, and how many values
/// they hold.
#[derive(Clone, Copy, Debug, PartialEq, Eq, Structural)]
pub struct ColumnMeta {
    pub offset: u64,
    pub len: u64,
    pub num_values: u64,
}

/// How the bytes of a block are compressed.
#[derive(Clone, Copy, Debug, PartialEq, Eq, Structural)]
pub enum Compression {
    Lz4,
    Lz4Raw,
    Snappy,
    Zstd,
    Gzip,
    /// The bytes are stored as they are.
    Plain,
}

/// A half-open range of row numbers inside a block.
#[derive(Clone, Copy, Debug, PartialEq, Eq, Structural)]
pub struct RowRange {
    pub start: usize,
    pub end: usize,
}

/// The place of a stored object: its path and the version of its format.
#[derive(Debug)]
pub struct Location {
    pub path: String,
    pub version: u64,
}

/// The mathematical value of a [`Location`].
pub struct LocationView {
    pub path: Seq<char>,
    pub version: u64,
}

impl View for Location {
    type V = LocationView;

    open spec fn view(&self) -> LocationView {
        LocationView { path: self.path@, version: self.version }
    }
}

impl Location {
    /// Whether the two locations name the same object.
    pub fn equals(&self, other: &Location) -> (same: bool)
        ensures
            same == (self@ == other@),
    {
        self.version == other.version && self.path == other.path
    }

    /// A copy of this location.
    pub fn duplicate(&self) -> (copy: Location)
        ensures
            copy@ == self@,
    {
        Location { path: self.path.clone(), version: self.version }
    }
}

/// Where a block stands inside its snapshot, and which of its rows take
/// part when only a sub-range does.
#[derive(Debug)]
pub struct BlockMetaIndex {
    pub segment_idx: usize,
    pub block_idx: usize,
    pub range: Option<RowRange>,
    pub page_size: usize,
    pub block_id: usize,
    pub block_location: String,
    pub segment_location: String,
    pub snapshot_location: Option<String>,
}

/// The mathematical value of a [`BlockMetaIndex`].
pub struct BlockMetaIndexView {
    pub segment_idx: usize,
    pub block_idx: usize,
    pub range: Option<RowRange>,
    pub page_size: usize,
    pub block_id: usize,
    pub block_location: Seq<char>,
    pub segment_location: Seq<char>,
    pub snapshot_location: Option<Seq<char>>,
}

impl View for BlockMetaIndex {
    type V = BlockMetaIndexView;

    open spec fn view(&self) -> BlockMetaIndexView {
        BlockMetaIndexView {
            segment_idx: self.segment_idx,
            block_idx: self.block_idx,
            range: self.range,
            page_size: self.page_size,
            block_id: self.block_id,
            block_location: self.block_location@,
            segment_location: self.segment_location@,
            snapshot_location: match self.snapshot_location {
                Some(s) => Some(s@),
                None => None,
            },
        }
    }
}

impl BlockMetaIndex {
    /// Whether the two indexes say the same.
    pub fn equals(&self, other: &BlockMetaIndex) -> (same: bool)
        ensures
            same == (self@ == other@),
    {
        let same_range = match (&self.range, &other.range) {
            (Some(a), Some(b)) => a.start == b.start && a.end == b.end,
            (None, None) => true,
            _ => false,
        };
        let same_snapshot = match (&self.snapshot_location, &other.snapshot_location) {
            (Some(a), Some(b)) => *a == *b,
            (None, None) => true,
            _ => false,
        };
        same_range && same_snapshot && self.segment_idx == other.segment_idx && self.block_idx
            == other.block_idx && self.page_size == other.page_size && self.block_id
            == other.block_id && self.block_location == other.block_location
            && self.segment_location == other.segment_location
    }
}

/// Whether two tables of column metadata hold the same entries.
pub fn columns_meta_equal(
    a: &HashMap<ColumnId, ColumnMeta>,
    b: &HashMap<ColumnId, ColumnMeta>,
) -> (same: bool)
    ensures
        same == (a@ == b@),
{
    if a.len() != b.len() {
        return false;
    }
    for entry in it: a.iter()
        invariant
            forall|j: int|
                0 <= j < it.index() ==> b@.contains_key(*#[trigger] it.seq()[j].0) && b@[*it.seq()[j].0]
                    == *it.seq()[j].1,
    {
        let (id, meta) = entry;
        match b.get(id) {
            Some(other) => {
                if !(*other == *meta) {
                    return false;
                }
            },
            None => {
                return false;
            },
        }
    }
    proof {
        let entries = a.iter().remaining();
        assert forall|id: ColumnId| a@.contains_key(id) implies b@.contains_key(id) && b@[id]
            == a@[id] by {
            assert(entries.contains((&id, &a@[id])));
            let j = choose|j: int| 0 <= j < entries.len() && entries[j] == (&id, &a@[id]);
            assert(b@.contains_key(*entries[j].0));
        }
        assert(a@.dom().subset_of(b@.dom()));
        vstd::set_lib::lemma_subset_equality(a@.dom(), b@.dom());
        assert(a@ =~= b@);
    }
    true
}

/// The hash of a place name: the name's bytes, then the byte that ends a
/// string, fed to a fresh default hasher.
pub open spec fn location_hash(path: Seq<char>) -> u64 {
    DefaultHasher::spec_finish(seq![vstd::utf8::encode_utf8(path), seq![0xffu8]])
}

/// Computes [`location_hash`].
pub fn hash_location(path: &String) -> (h: u64)
    ensures
        h == location_hash(path@),
{
    let mut state = DefaultHasher::new();
    state.write(path.as_str().as_bytes());
    let end: [u8; 1] = [0xffu8];
    state.write(end.as_slice());
    proof {
        assert(end@ =~= seq![0xffu8]);
        assert(state@ =~= seq![vstd::utf8::encode_utf8(path@), seq![0xffu8]]);
    }
    state.finish()
}

/// An eager partition: one block, with what a reader needs to fetch it.
#[derive(Debug)]
pub struct FusePartInfo {
    pub location: String,
    pub create_on: Option<Timestamp>,
    pub nums_rows: usize,
    pub columns_meta: HashMap<ColumnId, ColumnMeta>,
    pub compression: Compression,
    pub sort_min_max: Option<(Scalar, Scalar)>,
    pub block_meta_index: Option<BlockMetaIndex>,
}

/// The mathematical value of a [`FusePartInfo`].
pub struct FusePartInfoView {
    pub location: Seq<char>,
    pub create_on: Option<Timestamp>,
    pub nums_rows: usize,
    pub columns_meta: Map<ColumnId, ColumnMeta>,
    pub compression: Compression,
    pub sort_min_max: Option<(ScalarView, ScalarView)>,
    pub block_meta_index: Option<BlockMetaIndexView>,
}

impl View for FusePartInfo {
    type V = FusePartInfoView;

    open spec fn view(&self) -> FusePartInfoView {
        FusePartInfoView {
            location: self.location@,
            create_on: self.create_on,
            nums_rows: self.nums_rows,
            columns_meta: self.columns_meta@,
            compression: self.compression,
            sort_min_max: match self.sort_min_max {
                Some((lo, hi)) => Some((lo@, hi@)),
                None => None,
            },
            block_meta_index: match self.block_meta_index {
                Some(index) => Some(index@),
                None => None,
            },
        }
    }
}

impl FusePartInfoView {
    /// The rows of the block that take part, where only a sub-range does.
    pub open spec fn range(self) -> Option<RowRange> {
        match self.block_meta_index {
            Some(index) => index.range,
            None => None,
        }
    }

    /// The number of rows that a reader takes at a time: the page size of
    /// the block's index where it has one, else all the rows of the block.
    pub open spec fn page_size(self) -> usize {
        match self.block_meta_index {
            Some(index) => index.page_size,
            None => self.nums_rows,
        }
    }
}

/// A lazy partition: the place of a segment and its number in the snapshot.
/// Its blocks are loaded when the partition is used.
#[derive(Debug)]
pub struct FuseLazyPartInfo {
    pub segment_index: usize,
    pub segment_location: Location,
}

/// The mathematical value of a [`FuseLazyPartInfo`].
pub struct FuseLazyPartInfoView {
    pub segment_index: usize,
    pub segment_location: LocationView,
}

impl View for FuseLazyPartInfo {
    type V = FuseLazyPartInfoView;

    open spec fn view(&self) -> FuseLazyPartInfoView {
        FuseLazyPartInfoView {
            segment_index: self.segment_index,
            segment_location: self.segment_location@,
        }
    }
}

/// A partition of a table of Parquet files: one row group of a file whose
/// metadata was read, or a file that is read whole when its turn comes.
#[derive(Debug)]
pub enum ParquetPart {
    ParquetFiles(ParquetFilePart),
    ParquetRSRowGroup(ParquetRowGroupPart),
}

/// A Parquet file that is read whole.
#[derive(Debug)]
pub struct ParquetFilePart {
    pub file: String,
    pub compressed_size: u64,
    pub estimated_uncompressed_size: u64,
}

/// One row group of a Parquet file.
#[derive(Debug)]
pub struct ParquetRowGroupPart {
    pub location: String,
    pub row_group: usize,
    pub num_rows: usize,
}

/// The mathematical value of a [`ParquetPart`].
pub enum ParquetPartView {
    ParquetFiles { file: Seq<char>, compressed_size: u64, estimated_uncompressed_size: u64 },
    ParquetRSRowGroup { location: Seq<char>, row_group: usize, num_rows: usize },
}

impl View for ParquetPart {
    type V = ParquetPartView;

    open spec fn view(&self) -> ParquetPartView {
        match self {
            ParquetPart::ParquetFiles(part) => ParquetPartView::ParquetFiles {
                file: part.file@,
                compressed_size: part.compressed_size,
                estimated_uncompressed_size: part.estimated_uncompressed_size,
            },
            ParquetPart::ParquetRSRowGroup(part) => ParquetPartView::ParquetRSRowGroup {
                location: part.location@,
                row_group: part.row_group,
                num_rows: part.num_rows,
            },
        }
    }
}

impl ParquetPartView {
    /// The file that the partition lies in.
    pub open spec fn file(self) -> Seq<char> {
        match self {
            ParquetPartView::ParquetFiles { file, .. } => file,
            ParquetPartView::ParquetRSRowGroup { location, .. } => location,
        }
    }
}

impl ParquetPart {
    /// Whether `info` is a Parquet partition with the same fields.
    pub fn equals(&self, info: &PartInfo) -> (same: bool)
        ensures
            same == (info@ == PartInfoView::Parquet(self@)),
    {
        match info {
            PartInfo::Parquet(other) => match (self, other) {
                (ParquetPart::ParquetFiles(a), ParquetPart::ParquetFiles(b)) => a.file == b.file
                    && a.compressed_size == b.compressed_size && a.estimated_uncompressed_size
                    == b.estimated_uncompressed_size,
                (ParquetPart::ParquetRSRowGroup(a), ParquetPart::ParquetRSRowGroup(b)) => a.location
                    == b.location && a.row_group == b.row_group && a.num_rows == b.num_rows,
                _ => false,
            },
            _ => false,
        }
    }

    /// The hash of the partition: that of its file's name.
    pub fn hash(&self) -> (h: u64)
        ensures
            h == PartInfoView::Parquet(self@).hash(),
    {
        match self {
            ParquetPart::ParquetFiles(part) => hash_location(&part.file),
            ParquetPart::ParquetRSRowGroup(part) => hash_location(&part.location),
        }
    }
}

/// A partition of any kind.
#[derive(Debug)]
pub enum PartInfo {
    Fuse(FusePartInfo),
    FuseLazy(FuseLazyPartInfo),
    Parquet(ParquetPart),
}

/// The mathematical value of a [`PartInfo`].
pub enum PartInfoView {
    Fuse(FusePartInfoView),
    FuseLazy(FuseLazyPartInfoView),
    Parquet(ParquetPartView),
}

impl View for PartInfo {
    type V = PartInfoView;

    open spec fn view(&self) -> PartInfoView {
        match self {
            PartInfo::Fuse(part) => PartInfoView::Fuse(part@),
            PartInfo::FuseLazy(part) => PartInfoView::FuseLazy(part@),
            PartInfo::Parquet(part) => PartInfoView::Parquet(part@),
        }
    }
}

impl PartInfoView {
    /// The hash of a partition: that of the place it names.
    pub open spec fn hash(self) -> u64 {
        match self {
            PartInfoView::Fuse(part) => location_hash(part.location),
            PartInfoView::FuseLazy(part) => location_hash(part.segment_location.path),
            PartInfoView::Parquet(part) => location_hash(part.file()),
        }
    }

    /// Whether the partition is resolved only when its turn to be read
    /// comes: a segment that is named by its place, or a Parquet file that
    /// is read whole.
    pub open spec fn is_lazy(self) -> bool {
        self is FuseLazy || self matches PartInfoView::Parquet(
            ParquetPartView::ParquetFiles { .. },
        )
    }
}

impl FusePartInfo {
    /// A shared eager partition with the given fields.
    pub fn create(
        location: String,
        rows_count: u64,
        columns_meta: HashMap<ColumnId, ColumnMeta>,
        compression: Compression,
        sort_min_max: Option<(Scalar, Scalar)>,
        block_meta_index: Option<BlockMetaIndex>,
        create_on: Option<Timestamp>,
    ) -> (part: PartInfoPtr)
        requires
            rows_count <= usize::MAX,
        ensures
            part@ == PartInfoView::Fuse(
                FusePartInfoView {
                    location: location@,
                    create_on,
                    nums_rows: rows_count as usize,
                    columns_meta: columns_meta@,
                    compression,
                    sort_min_max: match sort_min_max {
                        Some((lo, hi)) => Some((lo@, hi@)),
                        None => None,
                    },
                    block_meta_index: match block_meta_index {
                        Some(index) => Some(index@),
                        None => None,
                    },
                },
            ),
    {
        Arc::new(
            PartInfo::Fuse(
                FusePartInfo {
                    location,
                    create_on,
                    columns_meta,
                    nums_rows: rows_count as usize,
                    compression,
                    sort_min_max,
                    block_meta_index,
                },
            ),
        )
    }

    /// The eager partition behind a descriptor, or an internal error where
    /// the descriptor is of another kind.
    pub fn from_part(info: &PartInfoPtr) -> (found: Result<&FusePartInfo, ErrorCode>)
        ensures
            match found {
                Ok(part) => info@ == PartInfoView::Fuse(part@),
                Err(e) => !(info@ is Fuse) && e.kind == ErrorKind::Internal && e.message@
                    == "Cannot downcast from PartInfo to FusePartInfo."@,
            },
    {
        match &**info {
            PartInfo::Fuse(part) => Ok(part),
            _ => Err(
                ErrorCode::create(
                    ErrorKind::Internal,
                    "Cannot downcast from PartInfo to FusePartInfo.",
                ),
            ),
        }
    }

    /// The rows of the block that take part, where only a sub-range does.
    pub fn range(&self) -> (rows: Option<&RowRange>)
        ensures
            match rows {
                Some(r) => self@.range() == Some(*r),
                None => self@.range() is None,
            },
    {
        match &self.block_meta_index {
            Some(index) => match &index.range {
                Some(r) => Some(r),
                None => None,
            },
            None => None,
        }
    }

    /// The block's place in its snapshot, where it is known.
    pub fn block_meta_index(&self) -> (index: Option<&BlockMetaIndex>)
        ensures
            match index {
                Some(i) => self@.block_meta_index == Some(i@),
                None => self@.block_meta_index is None,
            },
    {
        match &self.block_meta_index {
            Some(index) => Some(index),
            None => None,
        }
    }

    /// The number of rows that a reader takes at a time.
    pub fn page_size(&self) -> (rows: usize)
        ensures
            rows == self@.page_size(),
    {
        match &self.block_meta_index {
            Some(index) => index.page_size,
            None => self.nums_rows,
        }
    }

    /// Whether `info` is an eager partition with the same fields.
    pub fn equals(&self, info: &PartInfo) -> (same: bool)
        ensures
            same == (info@ == PartInfoView::Fuse(self@)),
    {
        match info {
            PartInfo::Fuse(other) => {
                let same_created = match (&self.create_on, &other.create_on) {
                    (Some(a), Some(b)) => a.secs == b.secs && a.nanos == b.nanos,
                    (None, None) => true,
                    _ => false,
                };
                let same_bounds = match (&self.sort_min_max, &other.sort_min_max) {
                    (Some(a), Some(b)) => a.0.equals(&b.0) && a.1.equals(&b.1),
                    (None, None) => true,
                    _ => false,
                };
                let same_index = match (&self.block_meta_index, &other.block_meta_index) {
                    (Some(a), Some(b)) => a.equals(b),
                    (None, None) => true,
                    _ => false,
                };
                self.location == other.location && same_created && self.nums_rows
                    == other.nums_rows && columns_meta_equal(
                    &self.columns_meta,
                    &other.columns_meta,
                ) && self.compression == other.compression && same_bounds && same_index
            },
            _ => false,
        }
    }

    /// The hash of the partition: that of the block's place.
    pub fn hash(&self) -> (h: u64)
        ensures
            h == PartInfoView::Fuse(self@).hash(),
    {
        hash_location(&self.location)
    }
}

impl FuseLazyPartInfo {
    /// A shared lazy partition for the segment at `segment_location`, the
    /// `idx`-th of its snapshot.
    pub fn create(idx: usize, segment_location: Location) -> (part: PartInfoPtr)
        ensures
            part@ == PartInfoView::FuseLazy(
                FuseLazyPartInfoView { segment_index: idx, segment_location: segment_location@ },
            ),
    {
        Arc::new(PartInfo::FuseLazy(FuseLazyPartInfo { segment_index: idx, segment_location }))
    }

    /// Whether `info` is a lazy partition with the same fields.
    pub fn equals(&self, info: &PartInfo) -> (same: bool)
        ensures
            same == (info@ == PartInfoView::FuseLazy(self@)),
    {
        match info {
            PartInfo::FuseLazy(other) => self.segment_index == other.segment_index
                && self.segment_location.equals(&other.segment_location),
            _ => false,
        }
    }

    /// The hash of the partition: that of the segment's path.
    pub fn hash(&self) -> (h: u64)
        ensures
            h == PartInfoView::FuseLazy(self@).hash(),
    {
        hash_location(&self.segment_location.path)
    }
}

impl PartInfo {
    /// Whether the two partitions are of one kind and hold the same fields.
    pub fn equals(&self, other: &PartInfo) -> (same: bool)
        ensures
            same == (self@ == other@),
    {
        match self {
            PartInfo::Fuse(part) => part.equals(other),
            PartInfo::FuseLazy(part) => part.equals(other),
            PartInfo::Parquet(part) => part.equals(other),
        }
    }

    /// The hash of the partition.
    pub fn hash(&self) -> (h: u64)
        ensures
            h == self@.hash(),
    {
        match self {
            PartInfo::Fuse(part) => part.hash(),
            PartInfo::FuseLazy(part) => part.hash(),
            PartInfo::Parquet(part) => part.hash(),
        }
    }

    /// Whether the partition is a lazy one.
    pub fn is_lazy(&self) -> (lazy: bool)
        ensures
            lazy == self@.is_lazy(),
    {
        match self {
            PartInfo::Fuse(_) => false,
            PartInfo::FuseLazy(_) => true,
            PartInfo::Parquet(part) => match part {
                ParquetPart::ParquetFiles(_) => true,
                ParquetPart::ParquetRSRowGroup(_) => false,
            },
        }
    }
}

/// How the partitions of a list are dealt out to the nodes that read them.
#[derive(Clone, Copy, Debug, PartialEq, Eq, Structural)]
pub enum PartitionsShuffleKind {
    /// In the order of the list.
    Sequential,
    /// By the partition's hash, modulo the number of nodes.
    Mod,
    /// By consistent hashing of the partition's hash.
    ConsistentHash,
}

/// The views of a sequence of shared partitions.
pub open spec fn part_views(parts: Seq<PartInfoPtr>) -> Seq<PartInfoView> {
    Seq::new(parts.len(), |i: int| parts[i]@)
}

/// A list of partitions. The eager ones and the lazy ones are kept apart,
/// and the list reads as the eager ones followed by the lazy ones.
#[derive(Debug)]
pub struct Partitions {
    pub kind: PartitionsShuffleKind,
    pub eager: Vec<PartInfoPtr>,
    pub lazy: Vec<PartInfoPtr>,
}

impl Partitions {
    /// Each partition stands in the sequence of its own kind.
    pub open spec fn wf(&self) -> bool {
        &&& forall|i: int| 0 <= i < self.eager@.len() ==> !(#[trigger] self.eager@[i]@).is_lazy()
        &&& forall|i: int| 0 <= i < self.lazy@.len() ==> (#[trigger] self.lazy@[i]@).is_lazy()
    }

    /// The list as one sequence: the eager partitions, then the lazy ones.
    pub open spec fn parts(&self) -> Seq<PartInfoView> {
        part_views(self.eager@) + part_views(self.lazy@)
    }

    /// Whether some partition of the list is lazy.
    pub open spec fn spec_is_lazy(&self) -> bool {
        self.lazy@.len() > 0
    }

    /// The list of the given partitions: the eager ones in the order given,
    /// then the lazy ones in the order given.
    pub fn create(kind: PartitionsShuffleKind, partitions: Vec<PartInfoPtr>) -> (list: Partitions)
        ensures
            list.wf(),
            list.kind == kind,
            part_views(list.eager@) == part_views(partitions@).filter(
                |p: PartInfoView| !p.is_lazy(),
            ),
            part_views(list.lazy@) == part_views(partitions@).filter(
                |p: PartInfoView| p.is_lazy(),
            ),
    {
        let ghost all = part_views(partitions@);
        let ghost is_eager = |p: PartInfoView| !p.is_lazy();
        let ghost is_lazy = |p: PartInfoView| p.is_lazy();
        let ghost n = all.len() as int;
        let mut eager: Vec<PartInfoPtr> = Vec::new();
        let mut lazy: Vec<PartInfoPtr> = Vec::new();
        // The partitions are taken from the back of the reversed list, that
        // is in their order.
        let mut rest = crate::vecs::reverse(partitions);
        proof {
            assert(all.take(0).filter(is_eager) =~= Seq::<PartInfoView>::empty()) by {
                reveal(Seq::filter);
            }
            assert(all.take(0).filter(is_lazy) =~= Seq::<PartInfoView>::empty()) by {
                reveal(Seq::filter);
            }
        }
        while rest.len() > 0
            invariant
                n == all.len(),
                rest@.len() <= n,
                forall|i: int| 0 <= i < rest@.len() ==> (#[trigger] rest@[i])@ == all[n - 1 - i],
                part_views(eager@) == all.take(n - rest@.len()).filter(is_eager),
                part_views(lazy@) == all.take(n - rest@.len()).filter(is_lazy),
                is_eager == |p: PartInfoView| !p.is_lazy(),
                is_lazy == |p: PartInfoView| p.is_lazy(),
                forall|i: int| 0 <= i < eager@.len() ==> !(#[trigger] eager@[i]@).is_lazy(),
                forall|i: int| 0 <= i < lazy@.len() ==> (#[trigger] lazy@[i]@).is_lazy(),
            decreases rest.len(),
        {
            let ghost done = n - rest@.len();
            let ghost eager_before = eager@;
            let ghost lazy_before = lazy@;
            let part = rest.pop().unwrap();
            proof {
                assert(part@ == all[done]);
                assert(all.take(done + 1).drop_last() =~= all.take(done));
                assert(all.take(done + 1).last() == all[done]);
                reveal(Seq::filter);
            }
            if part.is_lazy() {
                lazy.push(part);
                assert(part_views(lazy@) =~= part_views(lazy_before).push(all[done]));
            } else {
                eager.push(part);
                assert(part_views(eager@) =~= part_views(eager_before).push(all[done]));
            }
        }
        assert(all.take(n) =~= all);
        Partitions { kind, eager, lazy }
    }

    /// The number of partitions.
    pub fn len(&self) -> (n: usize)
        requires
            self.eager@.len() + self.lazy@.len() <= usize::MAX,
        ensures
            n == self.parts().len(),
    {
        self.eager.len() + self.lazy.len()
    }

    /// Whether the list holds no partition.
    pub fn is_empty(&self) -> (b: bool)
        ensures
            b == (self.parts().len() == 0),
    {
        self.eager.len() == 0 && self.lazy.len() == 0
    }

    /// Whether some partition of the list is lazy.
    #[verifier::when_used_as_spec(spec_is_lazy)]
    pub fn is_lazy(&self) -> (b: bool)
        ensures
            b == self.spec_is_lazy(),
    {
        self.lazy.len() > 0
    }

    /// The `i`-th partition of the list.
    pub fn get(&self, i: usize) -> (part: &PartInfoPtr)
        requires
            i < self.parts().len(),
        ensures
            part@ == self.parts()[i as int],
    {
        if i < self.eager.len() {
            &self.eager[i]
        } else {
            &self.lazy[i - self.eager.len()]
        }
    }

    /// The last partition of the list, where it has one.
    pub fn last(&self) -> (part: Option<&PartInfoPtr>)
        ensures
            match part {
                Some(p) => self.parts().len() > 0 && p@ == self.parts().last(),
                None => self.parts().len() == 0,
            },
    {
        if self.lazy.len() > 0 {
            Some(&self.lazy[self.lazy.len() - 1])
        } else if self.eager.len() > 0 {
            Some(&self.eager[self.eager.len() - 1])
        } else {
            None
        }
    }
}

/// In a list of partitions no eager partition follows a lazy one.
pub proof fn lemma_lazy_parts_come_last(list: Partitions, i: int, j: int)
    requires
        list.wf(),
        0 <= i <= j < list.parts().len(),
        list.parts()[i].is_lazy(),
    ensures
        list.parts()[j].is_lazy(),
{
}

/// Partitions that compare equal hash alike.
pub proof fn lemma_equal_parts_hash_alike(a: PartInfoView, b: PartInfoView)
    requires
        a == b,
    ensures
        a.hash() == b.hash(),
{
}

} // verus!
