//! Snapshots: the immutable, versioned descriptions of a table's content.

use crate::part::Location;
use crate::part::LocationView;
use vstd::prelude::*;

verus! {

/// Totals over a set of blocks.
#[derive(Clone, Copy, Debug, PartialEq, Eq, Structural)]
pub struct Statistics {
    pub row_count: u64,
    pub block_count: u64,
    pub uncompressed_byte_size: u64,
    pub compressed_byte_size: u64,
}

impl Statistics {
    /// The totals of nothing.
    pub open spec fn spec_zero() -> Statistics {
        Statistics {
            row_count: 0,
            block_count: 0,
            uncompressed_byte_size: 0,
            compressed_byte_size: 0,
        }
    }

    /// The totals of nothing.
    #[verifier::when_used_as_spec(spec_zero)]
    pub fn zero() -> (s: Statistics)
        ensures
            s == Statistics::spec_zero(),
    {
        Statistics {
            row_count: 0,
            block_count: 0,
            uncompressed_byte_size: 0,
            compressed_byte_size: 0,
        }
    }

    /// Whether the sums of the two totals can be held.
    pub open spec fn can_merge(self, other: Statistics) -> bool {
        &&& self.row_count + other.row_count <= u64::MAX
        &&& self.block_count + other.block_count <= u64::MAX
        &&& self.uncompressed_byte_size + other.uncompressed_byte_size <= u64::MAX
        &&& self.compressed_byte_size + other.compressed_byte_size <= u64::MAX
    }

    /// The totals over both sets of blocks.
    pub open spec fn merged(self, other: Statistics) -> Statistics {
        Statistics {
            row_count: (self.row_count + other.row_count) as u64,
            block_count: (self.block_count + other.block_count) as u64,
            uncompressed_byte_size: (self.uncompressed_byte_size
                + other.uncompressed_byte_size) as u64,
            compressed_byte_size: (self.compressed_byte_size + other.compressed_byte_size) as u64,
        }
    }

    /// Whether `other` counts a part of what these totals count.
    pub open spec fn covers(self, other: Statistics) -> bool {
        &&& other.row_count <= self.row_count
        &&& other.block_count <= self.block_count
        &&& other.uncompressed_byte_size <= self.uncompressed_byte_size
        &&& other.compressed_byte_size <= self.compressed_byte_size
    }

    /// The totals that are left when the blocks that `other` counts leave.
    pub open spec fn deducted(self, other: Statistics) -> Statistics {
        Statistics {
            row_count: (self.row_count - other.row_count) as u64,
            block_count: (self.block_count - other.block_count) as u64,
            uncompressed_byte_size: (self.uncompressed_byte_size
                - other.uncompressed_byte_size) as u64,
            compressed_byte_size: (self.compressed_byte_size - other.compressed_byte_size) as u64,
        }
    }

    /// The totals over both sets of blocks, where every sum can be held.
    pub fn merge(&self, other: &Statistics) -> (sum: Option<Statistics>)
        ensures
            sum == if self.can_merge(*other) {
                Some(self.merged(*other))
            } else {
                None
            },
    {
        let row_count = self.row_count.checked_add(other.row_count);
        let block_count = self.block_count.checked_add(other.block_count);
        let uncompressed = self.uncompressed_byte_size.checked_add(other.uncompressed_byte_size);
        let compressed = self.compressed_byte_size.checked_add(other.compressed_byte_size);
        match (row_count, block_count, uncompressed, compressed) {
            (Some(r), Some(b), Some(u), Some(c)) => Some(
                Statistics {
                    row_count: r,
                    block_count: b,
                    uncompressed_byte_size: u,
                    compressed_byte_size: c,
                },
            ),
            _ => None,
        }
    }

    /// The totals that are left when the blocks that `other` counts leave,
    /// where `other` counts no more than these totals do.
    pub fn deduct(&self, other: &Statistics) -> (rest: Option<Statistics>)
        ensures
            rest == if self.covers(*other) {
                Some(self.deducted(*other))
            } else {
                None
            },
    {
        if other.row_count <= self.row_count && other.block_count <= self.block_count
            && other.uncompressed_byte_size <= self.uncompressed_byte_size
            && other.compressed_byte_size <= self.compressed_byte_size {
            Some(
                Statistics {
                    row_count: self.row_count - other.row_count,
                    block_count: self.block_count - other.block_count,
                    uncompressed_byte_size: self.uncompressed_byte_size
                        - other.uncompressed_byte_size,
                    compressed_byte_size: self.compressed_byte_size - other.compressed_byte_size,
                },
            )
        } else {
            None
        }
    }
}

/// One block as a snapshot knows it: where it lies and how much it holds.
#[derive(Debug)]
pub struct BlockMeta {
    pub location: Location,
    pub row_count: u64,
    pub block_size: u64,
    pub file_size: u64,
}

/// The mathematical value of a [`BlockMeta`].
pub struct BlockMetaView {
    pub location: LocationView,
    pub row_count: u64,
    pub block_size: u64,
    pub file_size: u64,
}

impl View for BlockMeta {
    type V = BlockMetaView;

    open spec fn view(&self) -> BlockMetaView {
        BlockMetaView {
            location: self.location@,
            row_count: self.row_count,
            block_size: self.block_size,
            file_size: self.file_size,
        }
    }
}

impl BlockMeta {
    /// A copy of this description.
    pub fn duplicate(&self) -> (copy: BlockMeta)
        ensures
            copy@ == self@,
    {
        BlockMeta {
            location: self.location.duplicate(),
            row_count: self.row_count,
            block_size: self.block_size,
            file_size: self.file_size,
        }
    }

    /// The totals of this one block.
    pub open spec fn spec_statistics(&self) -> Statistics {
        Statistics {
            row_count: self.row_count,
            block_count: 1,
            uncompressed_byte_size: self.block_size,
            compressed_byte_size: self.file_size,
        }
    }

    /// The totals of this one block.
    #[verifier::when_used_as_spec(spec_statistics)]
    pub fn statistics(&self) -> (s: Statistics)
        ensures
            s == self.spec_statistics(),
    {
        Statistics {
            row_count: self.row_count,
            block_count: 1,
            uncompressed_byte_size: self.block_size,
            compressed_byte_size: self.file_size,
        }
    }
}

/// The views of a sequence of locations.
pub open spec fn location_views(locations: Seq<Location>) -> Seq<LocationView> {
    Seq::new(locations.len(), |i: int| locations[i]@)
}

/// A table's content at one instant: the segments that hold its blocks,
/// the totals over them, and the number of the snapshot in the table's
/// history. A snapshot is never changed; a commit makes the next one.
#[derive(Debug)]
pub struct TableSnapshot {
    pub seq: u64,
    pub segments: Vec<Location>,
    pub summary: Statistics,
}

/// The mathematical value of a [`TableSnapshot`].
pub struct TableSnapshotView {
    pub seq: u64,
    pub segments: Seq<LocationView>,
    pub summary: Statistics,
}

impl View for TableSnapshot {
    type V = TableSnapshotView;

    open spec fn view(&self) -> TableSnapshotView {
        TableSnapshotView {
            seq: self.seq,
            segments: location_views(self.segments@),
            summary: self.summary,
        }
    }
}

/// A copy of a sequence of locations.
pub fn duplicate_locations(locations: &Vec<Location>) -> (copy: Vec<Location>)
    ensures
        location_views(copy@) == location_views(locations@),
{
    let mut copy: Vec<Location> = Vec::new();
    let mut i: usize = 0;
    while i < locations.len()
        invariant
            i <= locations.len(),
            copy@.len() == i,
            forall|j: int| 0 <= j < i ==> #[trigger] copy@[j]@ == locations@[j]@,
        decreases locations.len() - i,
    {
        copy.push(locations[i].duplicate());
        i = i + 1;
    }
    assert(location_views(copy@) =~= location_views(locations@));
    copy
}

impl TableSnapshot {
    /// A copy of this snapshot.
    pub fn duplicate(&self) -> (copy: TableSnapshot)
        ensures
            copy@ == self@,
    {
        TableSnapshot {
            seq: self.seq,
            segments: duplicate_locations(&self.segments),
            summary: self.summary,
        }
    }
}

} // verus!
