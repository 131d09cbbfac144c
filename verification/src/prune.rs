//! Choosing the partitions that a mutation reads.
//!
//! Whether a block may hold a row that meets the predicate is decided
//! from the block's statistics by whoever evaluates expressions. Here
//! the verdicts are taken and the partitions are chosen by them. The
//! choice depends on nothing but the candidates and the verdicts, so
//! planning again over a snapshot that was read afresh chooses by the
//! same predicate.

use crate::part::part_views;
use crate::part::PartInfoPtr;
use crate::part::PartInfoView;
use vstd::prelude::*;

verus! {

/// The partitions among `candidates` that meet `may_match`, in the
/// order of the candidates.
pub open spec fn pruned(
    candidates: Seq<PartInfoView>,
    may_match: spec_fn(PartInfoView) -> bool,
) -> Seq<PartInfoView> {
    candidates.filter(may_match)
}

/// The candidates whose verdict is `true`, in their order.
pub open spec fn chosen(candidates: Seq<PartInfoView>, verdicts: Seq<bool>) -> Seq<PartInfoView>
    decreases candidates.len(),
{
    if candidates.len() == 0 || verdicts.len() != candidates.len() {
        Seq::empty()
    } else {
        let earlier = chosen(candidates.drop_last(), verdicts.drop_last());
        if verdicts.last() {
            earlier.push(candidates.last())
        } else {
            earlier
        }
    }
}

/// Keeps the candidates whose verdict is `true`, in their order.
pub fn prune_partitions(candidates: Vec<PartInfoPtr>, verdicts: &Vec<bool>) -> (kept: Vec<
    PartInfoPtr,
>)
    requires
        verdicts@.len() == candidates@.len(),
    ensures
        part_views(kept@) == chosen(part_views(candidates@), verdicts@),
{
    let ghost all = part_views(candidates@);
    let ghost marks = verdicts@;
    let mut rest = crate::vecs::reverse(candidates);
    let mut kept: Vec<PartInfoPtr> = Vec::new();
    let n = verdicts.len();
    let mut i: usize = 0;
    assert(part_views(kept@) =~= chosen(all.take(0), marks.take(0)));
    while i < n
        invariant
            i <= n,
            n == all.len(),
            marks == verdicts@,
            marks.len() == n,
            rest@.len() == n - i,
            forall|k: int| 0 <= k < rest@.len() ==> (#[trigger] rest@[k])@ == all[n - 1 - k],
            part_views(kept@) == chosen(all.take(i as int), marks.take(i as int)),
        decreases n - i,
    {
        let ghost before = part_views(kept@);
        let part = rest.pop().unwrap();
        assert(part@ == all[i as int]);
        proof {
            assert(all.take(i + 1).drop_last() =~= all.take(i as int));
            assert(marks.take(i + 1).drop_last() =~= marks.take(i as int));
            assert(all.take(i + 1).last() == all[i as int]);
            assert(marks.take(i + 1).last() == marks[i as int]);
        }
        if verdicts[i] {
            kept.push(part);
            assert(part_views(kept@) =~= before.push(all[i as int]));
        }
        i = i + 1;
    }
    assert(all.take(n as int) =~= all);
    assert(marks.take(n as int) =~= marks);
    kept
}

/// Where the verdicts are those of a predicate, what is kept is what
/// meets the predicate.
pub proof fn lemma_chosen_by_predicate(
    candidates: Seq<PartInfoView>,
    verdicts: Seq<bool>,
    may_match: spec_fn(PartInfoView) -> bool,
)
    requires
        verdicts.len() == candidates.len(),
        forall|i: int| 0 <= i < candidates.len() ==> verdicts[i] == may_match(#[trigger] candidates[i]),
    ensures
        chosen(candidates, verdicts) == pruned(candidates, may_match),
    decreases candidates.len(),
{
    reveal(Seq::filter);
    if candidates.len() > 0 {
        let shorter = candidates.drop_last();
        assert forall|i: int| 0 <= i < shorter.len() implies verdicts.drop_last()[i] == may_match(
            #[trigger] shorter[i],
        ) by {
            assert(shorter[i] == candidates[i]);
        }
        lemma_chosen_by_predicate(shorter, verdicts.drop_last(), may_match);
        assert(verdicts.last() == may_match(candidates[candidates.len() - 1]));
    }
}

/// What is chosen meets the predicate and was among the candidates; and
/// choosing again from what was chosen changes nothing.
pub proof fn lemma_pruned_meets_predicate(
    candidates: Seq<PartInfoView>,
    may_match: spec_fn(PartInfoView) -> bool,
)
    ensures
        forall|i: int|
            0 <= i < pruned(candidates, may_match).len() ==> may_match(
                #[trigger] pruned(candidates, may_match)[i],
            ) && candidates.contains(pruned(candidates, may_match)[i]),
        pruned(pruned(candidates, may_match), may_match) == pruned(candidates, may_match),
    decreases candidates.len(),
{
    let chosen = pruned(candidates, may_match);
    assert forall|i: int| 0 <= i < chosen.len() implies may_match(#[trigger] chosen[i])
        && candidates.contains(chosen[i]) by {
        candidates.lemma_filter_pred(may_match, i);
        assert(chosen.contains(chosen[i]));
        candidates.lemma_filter_contains_rev(may_match, chosen[i]);
    }
    lemma_filter_of_all_matching(chosen, may_match);
}

/// Where every partition meets the predicate, all are chosen.
proof fn lemma_filter_of_all_matching(
    parts: Seq<PartInfoView>,
    may_match: spec_fn(PartInfoView) -> bool,
)
    requires
        forall|i: int| 0 <= i < parts.len() ==> may_match(#[trigger] parts[i]),
    ensures
        parts.filter(may_match) == parts,
    decreases parts.len(),
{
    reveal(Seq::filter);
    if parts.len() > 0 {
        let shorter = parts.drop_last();
        assert forall|i: int| 0 <= i < shorter.len() implies may_match(#[trigger] shorter[i]) by {
            assert(shorter[i] == parts[i]);
        }
        lemma_filter_of_all_matching(shorter, may_match);
        assert(may_match(parts[parts.len() - 1]));
        assert(shorter.push(parts.last()) =~= parts);
    }
}

/// Planning again over a snapshot that was read afresh chooses, of the
/// partitions that both snapshots have, the same ones: a partition of the
/// fresh snapshot is chosen exactly when it meets the predicate, whatever
/// was chosen before.
pub proof fn lemma_replan_is_consistent(
    before: Seq<PartInfoView>,
    fresh: Seq<PartInfoView>,
    may_match: spec_fn(PartInfoView) -> bool,
    part: PartInfoView,
)
    requires
        fresh.contains(part),
    ensures
        pruned(fresh, may_match).contains(part) <==> may_match(part),
        before.contains(part) ==> (pruned(fresh, may_match).contains(part) <==> pruned(
            before,
            may_match,
        ).contains(part)),
{
    lemma_pruned_contains(fresh, may_match, part);
    if before.contains(part) {
        lemma_pruned_contains(before, may_match, part);
    }
}

/// A candidate is chosen exactly when it meets the predicate.
proof fn lemma_pruned_contains(
    candidates: Seq<PartInfoView>,
    may_match: spec_fn(PartInfoView) -> bool,
    part: PartInfoView,
)
    requires
        candidates.contains(part),
    ensures
        pruned(candidates, may_match).contains(part) <==> may_match(part),
{
    let chosen = pruned(candidates, may_match);
    if chosen.contains(part) {
        let i = choose|i: int| 0 <= i < chosen.len() && chosen[i] == part;
        candidates.lemma_filter_pred(may_match, i);
    }
    if may_match(part) {
        let k = choose|k: int| 0 <= k < candidates.len() && candidates[k] == part;
        candidates.lemma_filter_contains(may_match, k);
    }
}

} // verus!
