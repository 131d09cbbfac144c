//! The sink side of a recluster: the blocks that were written are
//! gathered with the blocks that stayed untouched, packed into new
//! segments, and described as the changes that the commit applies.

use crate::commit::SnapshotChanges;
use crate::error::ErrorCode;
use crate::error::ErrorKind;
use crate::error::ErrorView;
use crate::merge::chunk;
use crate::merge::chunks_of;
use crate::part::Location;
use crate::part::LocationView;
use crate::plan::MutationKind;
use crate::plan::ReclusterSink;
use crate::snapshot::BlockMeta;
use crate::snapshot::BlockMetaView;
use crate::snapshot::Statistics;
use crate::snapshot::TableSnapshot;
use crate::snapshot::TableSnapshotView;
use std::sync::Arc;
use vstd::prelude::*;

verus! {

/// One stage of the sink side of a recluster, with what the stage is
/// given to work on.
#[derive(Debug)]
pub enum ReclusterSinkStage {
    /// The stages of the plan below the sink.
    Input,
    /// Bring the pipeline to this width.
    Resize { width: usize },
    /// Gather the written blocks into segments, together with the blocks
    /// of the touched segments that stayed as they were; the segments with
    /// the given numbers, which hold the given totals, leave the snapshot.
    Aggregate {
        remained_blocks: Vec<BlockMeta>,
        removed_segment_indexes: Vec<usize>,
        removed_segment_summary: Statistics,
    },
    /// Publish the snapshot that follows the given base snapshot.
    Commit { snapshot: TableSnapshot, kind: MutationKind, need_lock: bool },
}

/// The mathematical value of a [`ReclusterSinkStage`].
pub enum ReclusterSinkStageView {
    Input,
    Resize { width: usize },
    Aggregate {
        remained_blocks: Seq<BlockMetaView>,
        removed_segment_indexes: Seq<usize>,
        removed_segment_summary: Statistics,
    },
    Commit { snapshot: TableSnapshotView, kind: MutationKind, need_lock: bool },
}

impl View for ReclusterSinkStage {
    type V = ReclusterSinkStageView;

    open spec fn view(&self) -> ReclusterSinkStageView {
        match self {
            ReclusterSinkStage::Input => ReclusterSinkStageView::Input,
            ReclusterSinkStage::Resize { width } => ReclusterSinkStageView::Resize { width: *width },
            ReclusterSinkStage::Aggregate {
                remained_blocks,
                removed_segment_indexes,
                removed_segment_summary,
            } => ReclusterSinkStageView::Aggregate {
                remained_blocks: block_views(remained_blocks@),
                removed_segment_indexes: removed_segment_indexes@,
                removed_segment_summary: *removed_segment_summary,
            },
            ReclusterSinkStage::Commit { snapshot, kind, need_lock } => ReclusterSinkStageView::Commit {
                snapshot: snapshot@,
                kind: *kind,
                need_lock: *need_lock,
            },
        }
    }
}

/// The views of a sequence of sink stages.
pub open spec fn sink_stage_views(stages: Seq<ReclusterSinkStage>) -> Seq<ReclusterSinkStageView> {
    Seq::new(stages.len(), |i: int| stages[i]@)
}

/// The views of a sequence of shared blocks.
pub open spec fn shared_block_views(blocks: Seq<Arc<BlockMeta>>) -> Seq<BlockMetaView> {
    Seq::new(blocks.len(), |i: int| blocks[i]@)
}

/// The stages of the sink side of a recluster, in order: the plan below;
/// one worker, so that there is one commit; the gathering of the written
/// blocks, which is given the untouched blocks, the numbers of the
/// segments that leave and their totals, all as the sink has them; the
/// commit of a recluster on the sink's base snapshot, under the table
/// lock.
pub open spec fn sink_stages(sink: &ReclusterSink) -> Seq<ReclusterSinkStageView> {
    seq![
        ReclusterSinkStageView::Input,
        ReclusterSinkStageView::Resize { width: 1 },
        ReclusterSinkStageView::Aggregate {
            remained_blocks: shared_block_views(sink.remained_blocks@),
            removed_segment_indexes: sink.removed_segment_indexes@,
            removed_segment_summary: sink.removed_segment_summary,
        },
        ReclusterSinkStageView::Commit {
            snapshot: sink.snapshot@,
            kind: MutationKind::Recluster,
            need_lock: true,
        },
    ]
}

/// A copy of a sequence of shared blocks.
pub fn duplicate_blocks(blocks: &Vec<Arc<BlockMeta>>) -> (copy: Vec<BlockMeta>)
    ensures
        block_views(copy@) == shared_block_views(blocks@),
{
    let mut copy: Vec<BlockMeta> = Vec::new();
    let mut i: usize = 0;
    while i < blocks.len()
        invariant
            i <= blocks.len(),
            copy@.len() == i,
            forall|k: int| 0 <= k < i ==> (#[trigger] copy@[k])@ == blocks@[k]@,
        decreases blocks.len() - i,
    {
        copy.push(blocks[i].duplicate());
        i = i + 1;
    }
    assert(block_views(copy@) =~= shared_block_views(blocks@));
    copy
}

/// The stages of the sink side of a recluster, as [`sink_stages`] has
/// them.
pub fn build_recluster_sink(recluster_sink: &ReclusterSink) -> (built: Result<
    Vec<ReclusterSinkStage>,
    ErrorCode,
>)
    ensures
        built matches Ok(stages) && sink_stage_views(stages@) == sink_stages(recluster_sink),
{
    let mut stages: Vec<ReclusterSinkStage> = Vec::new();
    stages.push(ReclusterSinkStage::Input);
    stages.push(ReclusterSinkStage::Resize { width: 1 });
    stages.push(
        ReclusterSinkStage::Aggregate {
            remained_blocks: duplicate_blocks(&recluster_sink.remained_blocks),
            removed_segment_indexes: recluster_sink.removed_segment_indexes.clone(),
            removed_segment_summary: recluster_sink.removed_segment_summary,
        },
    );
    stages.push(
        ReclusterSinkStage::Commit {
            snapshot: recluster_sink.snapshot.duplicate(),
            kind: MutationKind::Recluster,
            need_lock: true,
        },
    );
    assert(sink_stage_views(stages@) =~= sink_stages(recluster_sink));
    Ok(stages)
}

/// The views of a sequence of blocks.
pub open spec fn block_views(blocks: Seq<BlockMeta>) -> Seq<BlockMetaView> {
    Seq::new(blocks.len(), |i: int| blocks[i]@)
}

/// The totals of one block.
pub open spec fn block_statistics(block: BlockMetaView) -> Statistics {
    Statistics {
        row_count: block.row_count,
        block_count: 1,
        uncompressed_byte_size: block.block_size,
        compressed_byte_size: block.file_size,
    }
}

/// The totals over a sequence of blocks, where they can be held.
pub open spec fn block_totals(blocks: Seq<BlockMetaView>) -> Option<Statistics>
    decreases blocks.len(),
{
    if blocks.len() == 0 {
        Some(Statistics::spec_zero())
    } else {
        match block_totals(blocks.drop_last()) {
            Some(earlier) => if earlier.can_merge(block_statistics(blocks.last())) {
                Some(earlier.merged(block_statistics(blocks.last())))
            } else {
                None
            },
            None => None,
        }
    }
}

/// Computes [`block_totals`].
pub fn summarize(blocks: &Vec<BlockMeta>) -> (totals: Option<Statistics>)
    ensures
        totals == block_totals(block_views(blocks@)),
{
    let mut totals = Statistics::zero();
    let mut i: usize = 0;
    assert(block_views(blocks@).take(0) =~= Seq::<BlockMetaView>::empty());
    while i < blocks.len()
        invariant
            i <= blocks.len(),
            block_totals(block_views(blocks@).take(i as int)) == Some(totals),
        decreases blocks.len() - i,
    {
        proof {
            let upto = block_views(blocks@).take(i + 1);
            assert(upto.drop_last() =~= block_views(blocks@).take(i as int));
            assert(upto.last() == blocks@[i as int]@);
            lemma_totals_of_prefix(block_views(blocks@), i + 1);
        }
        match totals.merge(&blocks[i].statistics()) {
            Some(sum) => {
                totals = sum;
            },
            None => {
                return None;
            },
        }
        i = i + 1;
    }
    assert(block_views(blocks@).take(i as int) =~= block_views(blocks@));
    Some(totals)
}

/// Totals that cannot be held for the first blocks cannot be held for
/// all of them.
pub proof fn lemma_totals_of_prefix(blocks: Seq<BlockMetaView>, k: int)
    requires
        0 <= k <= blocks.len(),
    ensures
        block_totals(blocks.take(k)) is None ==> block_totals(blocks) is None,
    decreases blocks.len(),
{
    if k < blocks.len() {
        assert(blocks.drop_last().take(k) =~= blocks.take(k));
        lemma_totals_of_prefix(blocks.drop_last(), k);
    } else {
        assert(blocks.take(k) =~= blocks);
    }
}

/// A segment that is yet to be written: its blocks and their totals.
#[derive(Debug)]
pub struct SegmentDraft {
    pub blocks: Vec<BlockMeta>,
    pub summary: Statistics,
}

/// The blocks of a sequence of drafts.
pub open spec fn draft_blocks(drafts: Seq<SegmentDraft>) -> Seq<Seq<BlockMetaView>> {
    Seq::new(drafts.len(), |i: int| block_views(drafts[i].blocks@))
}

/// Gathers the blocks of a recluster.
#[derive(Debug)]
pub struct ReclusterAggregator {
    /// The blocks of the touched segments that the task did not read.
    /// They go into the new segments as they are.
    pub remained_blocks: Vec<BlockMeta>,
    pub removed_segment_indexes: Vec<usize>,
    pub removed_statistics: Statistics,
    /// The blocks that the task has written, in the order they came.
    pub written: Vec<BlockMeta>,
    /// The number of blocks that a segment holds when it is full.
    pub block_per_segment: usize,
}

/// The error for totals that cannot be held.
pub open spec fn totals_overflow() -> ErrorView {
    ErrorView { kind: ErrorKind::Internal, message: "the totals of a segment cannot be held"@ }
}

/// The error for a segment number that the base snapshot does not have.
pub open spec fn no_such_segment() -> ErrorView {
    ErrorView { kind: ErrorKind::Internal, message: "the base snapshot has no such segment"@ }
}

impl ReclusterAggregator {
    /// A segment holds at least one block.
    pub open spec fn wf(&self) -> bool {
        self.block_per_segment > 0
    }

    /// The blocks that go into the new segments: those that stayed
    /// untouched, then those that were written.
    pub open spec fn gathered(&self) -> Seq<BlockMetaView> {
        block_views(self.remained_blocks@) + block_views(self.written@)
    }

    /// An aggregator that has gathered nothing yet.
    pub fn new(
        remained_blocks: Vec<BlockMeta>,
        removed_segment_indexes: Vec<usize>,
        removed_segment_summary: Statistics,
        block_per_segment: usize,
    ) -> (aggregator: ReclusterAggregator)
        requires
            block_per_segment > 0,
        ensures
            aggregator.wf(),
            aggregator.remained_blocks == remained_blocks,
            aggregator.removed_segment_indexes == removed_segment_indexes,
            aggregator.removed_statistics == removed_segment_summary,
            aggregator.written@.len() == 0,
            aggregator.block_per_segment == block_per_segment,
    {
        ReclusterAggregator {
            remained_blocks,
            removed_segment_indexes,
            removed_statistics: removed_segment_summary,
            written: Vec::new(),
            block_per_segment,
        }
    }

    /// Takes in a block that the task has written.
    pub fn accumulate(&mut self, block: BlockMeta)
        requires
            old(self).wf(),
        ensures
            final(self).wf(),
            final(self).written@ == old(self).written@.push(block),
            final(self).gathered() == old(self).gathered().push(block@),
            final(self).remained_blocks == old(self).remained_blocks,
            final(self).removed_segment_indexes == old(self).removed_segment_indexes,
            final(self).removed_statistics == old(self).removed_statistics,
            final(self).block_per_segment == old(self).block_per_segment,
    {
        self.written.push(block);
        assert(self.gathered() =~= old(self).gathered().push(block@));
    }

    /// Packs the gathered blocks into segments: the untouched blocks, then
    /// the written ones, cut at the number of blocks that a segment holds;
    /// each segment with the totals of its blocks. Nothing is packed where
    /// the totals of some segment cannot be held.
    pub fn into_segments(self) -> (packed: Result<Vec<SegmentDraft>, ErrorCode>)
        requires
            self.wf(),
        ensures
            match packed {
                Ok(drafts) => {
                    &&& draft_blocks(drafts@) == chunks_of(
                        self.gathered(),
                        self.block_per_segment as int,
                    )
                    &&& forall|i: int|
                        0 <= i < drafts@.len() ==> block_totals(
                            #[trigger] draft_blocks(drafts@)[i],
                        ) == Some(drafts@[i].summary)
                },
                Err(e) => {
                    &&& e@ == totals_overflow()
                    &&& exists|i: int|
                        0 <= i < chunks_of(self.gathered(), self.block_per_segment as int).len()
                            && block_totals(
                            #[trigger] chunks_of(self.gathered(), self.block_per_segment as int)[i],
                        ) is None
                },
            },
    {
        let ghost gathered = self.gathered();
        let ghost size = self.block_per_segment as int;
        let mut all = self.remained_blocks;
        let mut written = self.written;
        all.append(&mut written);
        assert(block_views(all@) =~= gathered);
        let mut groups = crate::vecs::reverse(chunk(all, self.block_per_segment));
        let ghost cut = chunks_of(all@, size);
        let ghost n = cut.len() as int;
        proof {
            crate::recluster::lemma_ceil_div(all@.len() as int, size);
            assert(chunks_of(gathered, size).len() == n);
            assert forall|i: int| 0 <= i < n implies block_views(#[trigger] cut[i]) == chunks_of(
                gathered,
                size,
            )[i] by {
                crate::merge::lemma_chunk_starts(all@.len() as int, size, i);
                assert(block_views(cut[i]) =~= chunks_of(gathered, size)[i]);
            }
        }
        let mut drafts: Vec<SegmentDraft> = Vec::new();
        while groups.len() > 0
            invariant
                gathered == self.gathered(),
                size == self.block_per_segment,
                n == cut.len(),
                chunks_of(gathered, size).len() == n,
                forall|i: int|
                    0 <= i < n ==> block_views(#[trigger] cut[i]) == chunks_of(gathered, size)[i],
                groups@.len() + drafts@.len() == n,
                forall|i: int|
                    0 <= i < groups@.len() ==> (#[trigger] groups@[i])@ == cut[n - 1 - i],
                forall|i: int|
                    0 <= i < drafts@.len() ==> #[trigger] draft_blocks(drafts@)[i] == chunks_of(
                        gathered,
                        size,
                    )[i],
                forall|i: int|
                    0 <= i < drafts@.len() ==> block_totals(#[trigger] draft_blocks(drafts@)[i])
                        == Some(drafts@[i].summary),
            decreases groups.len(),
        {
            let ghost k = drafts@.len() as int;
            let ghost before = draft_blocks(drafts@);
            let ghost drafts_before = drafts@;
            let blocks = groups.pop().unwrap();
            assert(blocks@ == cut[k]);
            assert(block_views(cut[k]) == chunks_of(gathered, size)[k]);
            match summarize(&blocks) {
                Some(summary) => {
                    drafts.push(SegmentDraft { blocks, summary });
                    proof {
                        assert forall|i: int| 0 <= i < drafts@.len() implies #[trigger] draft_blocks(
                            drafts@,
                        )[i] == chunks_of(gathered, size)[i] && block_totals(
                            draft_blocks(drafts@)[i],
                        ) == Some(drafts@[i].summary) by {
                            if i < k {
                                assert(drafts@[i] == drafts_before[i]);
                                assert(draft_blocks(drafts@)[i] == before[i]);
                            }
                        }
                    }
                },
                None => {
                    assert(block_totals(chunks_of(gathered, size)[k]) is None);
                    return Err(
                        ErrorCode::create(
                            ErrorKind::Internal,
                            "the totals of a segment cannot be held",
                        ),
                    );
                },
            }
        }
        assert(draft_blocks(drafts@) =~= chunks_of(gathered, size));
        Ok(drafts)
    }
}

/// The locations of a sequence of written segments.
pub open spec fn written_locations(written: Seq<(Location, Statistics)>) -> Seq<LocationView> {
    Seq::new(written.len(), |i: int| written[i].0@)
}

/// The totals over a sequence of written segments, where they can be
/// held.
pub open spec fn written_totals(written: Seq<(Location, Statistics)>) -> Option<Statistics>
    decreases written.len(),
{
    if written.len() == 0 {
        Some(Statistics::spec_zero())
    } else {
        match written_totals(written.drop_last()) {
            Some(earlier) => if earlier.can_merge(written.last().1) {
                Some(earlier.merged(written.last().1))
            } else {
                None
            },
            None => None,
        }
    }
}

/// The segments of a snapshot with the given numbers, where it has them
/// all.
pub open spec fn segments_at(base: Seq<LocationView>, indexes: Seq<usize>) -> Option<
    Seq<LocationView>,
> {
    if forall|i: int| 0 <= i < indexes.len() ==> (#[trigger] indexes[i]) < base.len() {
        Some(Seq::new(indexes.len(), |i: int| base[indexes[i] as int]))
    } else {
        None
    }
}

/// The changes that a recluster makes to its base snapshot: the segments
/// with the given numbers leave, with the totals given for them, and the
/// written segments come in their place, with the sum of their totals.
/// A number that the base does not have, or totals that cannot be held,
/// are an internal error.
pub fn recluster_changes(
    base: &TableSnapshot,
    removed_segment_indexes: &Vec<usize>,
    removed_statistics: Statistics,
    written: Vec<(Location, Statistics)>,
) -> (changes: Result<SnapshotChanges, ErrorCode>)
    ensures
        match changes {
            Ok(c) => {
                &&& segments_at(base@.segments, removed_segment_indexes@) == Some(
                    c@.removed_segments,
                )
                &&& c@.added_segments == written_locations(written@)
                &&& c@.removed_statistics == removed_statistics
                &&& written_totals(written@) == Some(c@.added_statistics)
            },
            Err(e) => if segments_at(base@.segments, removed_segment_indexes@) is None {
                e@ == no_such_segment()
            } else {
                written_totals(written@) is None && e@ == totals_overflow()
            },
        },
{
    let mut removed: Vec<Location> = Vec::new();
    let mut i: usize = 0;
    while i < removed_segment_indexes.len()
        invariant
            i <= removed_segment_indexes.len(),
            removed@.len() == i,
            forall|k: int|
                0 <= k < i ==> (#[trigger] removed_segment_indexes@[k]) < base.segments@.len(),
            forall|k: int|
                0 <= k < i ==> (#[trigger] removed@[k])@ == base.segments@[removed_segment_indexes@[k] as int]@,
        decreases removed_segment_indexes.len() - i,
    {
        let index = removed_segment_indexes[i];
        if index >= base.segments.len() {
            assert(!(removed_segment_indexes@[i as int] < base@.segments.len()));
            return Err(
                ErrorCode::create(ErrorKind::Internal, "the base snapshot has no such segment"),
            );
        }
        removed.push(base.segments[index].duplicate());
        i = i + 1;
    }
    let mut added: Vec<Location> = Vec::new();
    let mut totals = Statistics::zero();
    let mut k: usize = 0;
    assert(written@.take(0) =~= Seq::<(Location, Statistics)>::empty());
    while k < written.len()
        invariant
            k <= written.len(),
            added@.len() == k,
            forall|j: int|
                0 <= j < removed_segment_indexes@.len() ==> (#[trigger] removed_segment_indexes@[j])
                    < base.segments@.len(),
            forall|j: int| 0 <= j < k ==> (#[trigger] added@[j])@ == written@[j].0@,
            written_totals(written@.take(k as int)) == Some(totals),
        decreases written.len() - k,
    {
        proof {
            let upto = written@.take(k + 1);
            assert(upto.drop_last() =~= written@.take(k as int));
            assert(upto.last() == written@[k as int]);
            lemma_written_totals_of_prefix(written@, k + 1);
        }
        match totals.merge(&written[k].1) {
            Some(sum) => {
                totals = sum;
            },
            None => {
                return Err(
                    ErrorCode::create(
                        ErrorKind::Internal,
                        "the totals of a segment cannot be held",
                    ),
                );
            },
        }
        added.push(written[k].0.duplicate());
        k = k + 1;
    }
    let changes = SnapshotChanges {
        removed_segments: removed,
        added_segments: added,
        removed_statistics,
        added_statistics: totals,
    };
    proof {
        assert(written@.take(k as int) =~= written@);
        assert(changes@.added_segments =~= written_locations(written@));
        assert(changes@.removed_segments =~= segments_at(
            base@.segments,
            removed_segment_indexes@,
        )->0);
    }
    Ok(changes)
}

/// Totals that cannot be held for the first segments cannot be held for
/// all of them.
pub proof fn lemma_written_totals_of_prefix(written: Seq<(Location, Statistics)>, k: int)
    requires
        0 <= k <= written.len(),
    ensures
        written_totals(written.take(k)) is None ==> written_totals(written) is None,
    decreases written.len(),
{
    if k < written.len() {
        assert(written.drop_last().take(k) =~= written.take(k));
        lemma_written_totals_of_prefix(written.drop_last(), k);
    } else {
        assert(written.take(k) =~= written);
    }
}

/// The changes of a recluster, made from the segments that its sink
/// names by their numbers in the base snapshot, fit that base; and the
/// snapshot that follows the base under them holds the written segments
/// and, of the segments of the base, exactly those that were not named,
/// in the order they had. One request carries the removal and the
/// addition together.
pub proof fn lemma_recluster_request(
    base: TableSnapshotView,
    indexes: Seq<usize>,
    changes: crate::commit::SnapshotChangesView,
)
    requires
        segments_at(base.segments, indexes) == Some(changes.removed_segments),
    ensures
        changes.resolvable(base),
        changes.applied(base).segments == changes.added_segments + changes.kept(base),
        forall|segment: LocationView|
            #[trigger] changes.applied(base).segments.contains(segment)
                <==> changes.added_segments.contains(segment) || (base.segments.contains(segment)
                && !changes.removed_segments.contains(segment)),
        forall|i: int|
            0 <= i < indexes.len() ==> !changes.kept(base).contains(
                #[trigger] base.segments[indexes[i] as int],
            ),
{
    assert forall|i: int| 0 <= i < changes.removed_segments.len() implies base.segments.contains(
        #[trigger] changes.removed_segments[i],
    ) by {
        assert(indexes[i] < base.segments.len());
        assert(changes.removed_segments[i] == base.segments[indexes[i] as int]);
    }
    assert forall|segment: LocationView|
        #[trigger] changes.applied(base).segments.contains(segment)
            <==> changes.added_segments.contains(segment) || (base.segments.contains(segment)
            && !changes.removed_segments.contains(segment)) by {
        crate::commit::lemma_applied_segments(changes, base, segment);
    }
    let stays = |s: LocationView| !changes.removed_segments.contains(s);
    assert forall|i: int| 0 <= i < indexes.len() implies !changes.kept(base).contains(
        #[trigger] base.segments[indexes[i] as int],
    ) by {
        let gone = base.segments[indexes[i] as int];
        assert(changes.removed_segments[i] == gone);
        if changes.kept(base).contains(gone) {
            let k = choose|k: int| 0 <= k < changes.kept(base).len() && changes.kept(base)[k] == gone;
            base.segments.lemma_filter_pred(stays, k);
        }
    }
}

} // verus!
