//! The merge sort of a recluster: the rows of every source are sorted
//! into a run, the runs are merged into one sorted stream, and the stream
//! is cut into blocks of a fixed number of rows.
//!
//! A row is known by its encoded sort key and a number. Rows are ordered
//! by the bytes of their keys, which is the order of the sort that the
//! keys were encoded for.

use crate::order::compare_bytes;
use crate::order::lemma_lex_reverse;
use crate::order::lemma_lex_transitive;
use crate::order::lex_order;
use crate::order::Order;
use crate::recluster::lemma_ceil_div;
use crate::recluster::output_block_num;
use crate::vecs::reverse;
use vstd::multiset::Multiset;
use vstd::prelude::*;

verus! {

/// A row on its way through the sort: its encoded key, and the number by
/// which its source knows it.
#[derive(Debug)]
pub struct KeyedRow {
    pub key: Vec<u8>,
    pub id: u64,
}

/// The mathematical value of a [`KeyedRow`].
pub struct KeyedRowView {
    pub key: Seq<u8>,
    pub id: u64,
}

impl View for KeyedRow {
    type V = KeyedRowView;

    open spec fn view(&self) -> KeyedRowView {
        KeyedRowView { key: self.key@, id: self.id }
    }
}

/// The views of a sequence of rows.
pub open spec fn row_views(rows: Seq<KeyedRow>) -> Seq<KeyedRowView> {
    Seq::new(rows.len(), |i: int| rows[i]@)
}

/// The views of a sequence of runs or blocks.
pub open spec fn run_views(runs: Seq<Vec<KeyedRow>>) -> Seq<Seq<KeyedRowView>> {
    Seq::new(runs.len(), |i: int| row_views(runs[i]@))
}

/// Whether no row is followed by one with a smaller key.
pub open spec fn ascending(rows: Seq<KeyedRowView>) -> bool {
    forall|i: int, j: int|
        0 <= i <= j < rows.len() ==> lex_order(#[trigger] rows[i].key, #[trigger] rows[j].key)
            != Order::Greater
}

/// Whether no row is followed by one with a greater key.
pub open spec fn descending(rows: Seq<KeyedRowView>) -> bool {
    forall|i: int, j: int|
        0 <= i <= j < rows.len() ==> lex_order(#[trigger] rows[j].key, #[trigger] rows[i].key)
            != Order::Greater
}

/// Whether no row of `low` has a greater key than any row of `high`.
pub open spec fn below(low: Seq<KeyedRowView>, high: Seq<KeyedRowView>) -> bool {
    forall|i: int, j: int|
        0 <= i < low.len() && 0 <= j < high.len() ==> lex_order(
            #[trigger] low[i].key,
            #[trigger] high[j].key,
        ) != Order::Greater
}

/// The rows of all the runs, as a bag.
pub open spec fn all_rows(runs: Seq<Seq<KeyedRowView>>) -> Multiset<KeyedRowView>
    decreases runs.len(),
{
    if runs.len() == 0 {
        Multiset::empty()
    } else {
        all_rows(runs.drop_last()).add(runs.last().to_multiset())
    }
}

/// The blocks that a stream of rows is cut into at `size` rows each: as
/// many as it takes, each but the last one full.
pub open spec fn chunks_of<T>(rows: Seq<T>, size: int) -> Seq<Seq<T>> {
    Seq::new(
        output_block_num(rows.len() as int, size) as nat,
        |i: int| rows.subrange(i * size, vstd::math::min((i + 1) * size, rows.len() as int)),
    )
}

/// Whether row `i` of a stream is row `i % size` of block `i / size` when
/// the stream is cut at `size` rows.
pub open spec fn lies_in_block<T>(rows: Seq<T>, size: int, i: int) -> bool {
    &&& 0 <= i / size < chunks_of(rows, size).len()
    &&& 0 <= i % size < chunks_of(rows, size)[i / size].len()
    &&& chunks_of(rows, size)[i / size][i % size] == rows[i]
}

/// The number of rows in all the blocks.
pub open spec fn total_len<T>(blocks: Seq<Seq<T>>) -> nat
    decreases blocks.len(),
{
    if blocks.len() == 0 {
        0
    } else {
        total_len(blocks.drop_last()) + blocks.last().len()
    }
}

/// The rows in the opposite order.
pub fn reverse_rows(rows: Vec<KeyedRow>) -> (out: Vec<KeyedRow>)
    ensures
        row_views(out@) == row_views(rows@).reverse(),
{
    let out = reverse(rows);
    assert(row_views(out@) =~= row_views(rows@).reverse());
    out
}

/// What is known when the greatest row that is left is moved from the
/// end of one run to the end of the rows that are merged so far.
proof fn lemma_move_greatest(
    from: Seq<KeyedRowView>,
    rest: Seq<KeyedRowView>,
    other: Seq<KeyedRowView>,
    back: Seq<KeyedRowView>,
    x: KeyedRowView,
)
    requires
        from == rest.push(x),
        ascending(from),
        ascending(other),
        descending(back),
        below(from, back),
        below(other, back),
        other.len() > 0 ==> lex_order(other.last().key, x.key) != Order::Greater,
    ensures
        ascending(rest),
        descending(back.push(x)),
        below(rest, back.push(x)),
        below(other, back.push(x)),
        rest.to_multiset().add(other.to_multiset()).add(back.push(x).to_multiset())
            == from.to_multiset().add(other.to_multiset()).add(back.to_multiset()),
{
    broadcast use vstd::multiset::group_multiset_axioms;

    let more = back.push(x);
    let top = from.len() - 1;
    assert(from[top] == x);
    assert forall|i: int| 0 <= i < rest.len() implies rest[i] == from[i] by {}
    assert forall|j: int| 0 <= j < back.len() implies more[j] == back[j] by {}
    assert(ascending(rest)) by {
        assert forall|i: int, j: int| 0 <= i <= j < rest.len() implies lex_order(
            #[trigger] rest[i].key,
            #[trigger] rest[j].key,
        ) != Order::Greater by {
            assert(lex_order(from[i].key, from[j].key) != Order::Greater);
        }
    }
    assert(below(rest, more)) by {
        assert forall|i: int, j: int| 0 <= i < rest.len() && 0 <= j < more.len() implies lex_order(
            #[trigger] rest[i].key,
            #[trigger] more[j].key,
        ) != Order::Greater by {
            if j < back.len() {
                assert(lex_order(from[i].key, back[j].key) != Order::Greater);
            } else {
                assert(lex_order(from[i].key, from[top].key) != Order::Greater);
            }
        }
    }
    assert(below(other, more)) by {
        assert forall|i: int, j: int|
            0 <= i < other.len() && 0 <= j < more.len() implies lex_order(
            #[trigger] other[i].key,
            #[trigger] more[j].key,
        ) != Order::Greater by {
            if j < back.len() {
                assert(lex_order(other[i].key, back[j].key) != Order::Greater);
            } else {
                assert(lex_order(other[i].key, other[other.len() - 1].key) != Order::Greater);
                lemma_lex_transitive(other[i].key, other.last().key, x.key);
            }
        }
    }
    assert(descending(more)) by {
        assert forall|i: int, j: int| 0 <= i <= j < more.len() implies lex_order(
            #[trigger] more[j].key,
            #[trigger] more[i].key,
        ) != Order::Greater by {
            if j < back.len() {
                assert(lex_order(back[j].key, back[i].key) != Order::Greater);
            } else if i < back.len() {
                assert(lex_order(from[top].key, back[i].key) != Order::Greater);
            } else {
                crate::order::lemma_lex_equal(x.key, x.key);
            }
        }
    }
    vstd::seq_lib::to_multiset_build(rest, x);
    vstd::seq_lib::to_multiset_build(back, x);
    assert(rest.to_multiset().add(other.to_multiset()).add(more.to_multiset())
        =~= from.to_multiset().add(other.to_multiset()).add(back.to_multiset()));
}

/// Merges two sorted runs into one.
pub fn merge_two(a: Vec<KeyedRow>, b: Vec<KeyedRow>) -> (out: Vec<KeyedRow>)
    requires
        ascending(row_views(a@)),
        ascending(row_views(b@)),
    ensures
        ascending(row_views(out@)),
        row_views(out@).to_multiset() == row_views(a@).to_multiset().add(
            row_views(b@).to_multiset(),
        ),
{
    broadcast use vstd::multiset::group_multiset_axioms;

    let ghost total = row_views(a@).to_multiset().add(row_views(b@).to_multiset());
    let mut a = a;
    let mut b = b;
    // The greatest row that is left goes first, so `back` comes out in
    // descending order.
    let mut back: Vec<KeyedRow> = Vec::new();
    proof {
        assert(row_views(back@) =~= Seq::<KeyedRowView>::empty());
        lemma_no_rows();
    }
    while a.len() > 0 || b.len() > 0
        invariant
            ascending(row_views(a@)),
            ascending(row_views(b@)),
            descending(row_views(back@)),
            below(row_views(a@), row_views(back@)),
            below(row_views(b@), row_views(back@)),
            row_views(a@).to_multiset().add(row_views(b@).to_multiset()).add(
                row_views(back@).to_multiset(),
            ) == total,
        decreases a.len() + b.len(),
    {
        let ghost va = row_views(a@);
        let ghost vb = row_views(b@);
        let ghost vback = row_views(back@);
        let from_a = if b.len() == 0 {
            true
        } else if a.len() == 0 {
            false
        } else {
            match compare_bytes(a[a.len() - 1].key.as_slice(), b[b.len() - 1].key.as_slice()) {
                Order::Greater => true,
                _ => false,
            }
        };
        if from_a {
            let row = a.pop().unwrap();
            back.push(row);
            proof {
                assert(va =~= row_views(a@).push(row@));
                assert(row_views(back@) =~= vback.push(row@));
                if vb.len() > 0 {
                    lemma_lex_reverse(row@.key, vb.last().key);
                }
                lemma_move_greatest(va, row_views(a@), vb, vback, row@);
            }
        } else {
            let row = b.pop().unwrap();
            back.push(row);
            proof {
                assert(vb =~= row_views(b@).push(row@));
                assert(row_views(back@) =~= vback.push(row@));
                lemma_move_greatest(vb, row_views(b@), va, vback, row@);
                assert(va.to_multiset().add(row_views(b@).to_multiset()).add(
                    row_views(back@).to_multiset(),
                ) =~= row_views(b@).to_multiset().add(va.to_multiset()).add(
                    row_views(back@).to_multiset(),
                ));
                assert(vb.to_multiset().add(va.to_multiset()).add(vback.to_multiset())
                    =~= va.to_multiset().add(vb.to_multiset()).add(vback.to_multiset()));
            }
        }
    }
    let ghost vback = row_views(back@);
    let out = reverse_rows(back);
    proof {
        assert(row_views(a@) =~= Seq::<KeyedRowView>::empty());
        assert(row_views(b@) =~= Seq::<KeyedRowView>::empty());
        lemma_no_rows();
        vback.lemma_reverse_to_multiset();
        assert(row_views(out@).to_multiset() =~= total);
        assert(ascending(row_views(out@))) by {
            assert forall|i: int, j: int|
                0 <= i <= j < row_views(out@).len() implies lex_order(
                #[trigger] row_views(out@)[i].key,
                #[trigger] row_views(out@)[j].key,
            ) != Order::Greater by {
                let n = vback.len() as int;
                assert(row_views(out@)[i] == vback[n - 1 - i]);
                assert(row_views(out@)[j] == vback[n - 1 - j]);
            }
        }
    }
    out
}

/// No rows make the empty bag.
proof fn lemma_no_rows()
    ensures
        Seq::<KeyedRowView>::empty().to_multiset() == Multiset::<KeyedRowView>::empty(),
{
    broadcast use vstd::seq_lib::group_to_multiset_ensures;
    broadcast use vstd::multiset::group_multiset_axioms;

    let none = Seq::<KeyedRowView>::empty();
    assert(none.to_multiset().len() == 0);
    assert(none.to_multiset() =~= Multiset::<KeyedRowView>::empty());
}

/// What is known of the runs when the last one is taken away.
proof fn lemma_without_last_run(runs: Seq<Seq<KeyedRowView>>, rest: Seq<Seq<KeyedRowView>>)
    requires
        runs.len() > 0,
        rest =~= runs.drop_last(),
        all_ascending(runs),
    ensures
        all_ascending(rest),
        ascending(runs.last()),
        all_rows(runs) == all_rows(rest).add(runs.last().to_multiset()),
{
    assert(ascending(runs[runs.len() - 1]));
    assert forall|i: int| 0 <= i < rest.len() implies ascending(#[trigger] rest[i]) by {
        assert(rest[i] == runs[i]);
    }
}

/// What is known of the runs when a sorted run is added behind them.
proof fn lemma_with_one_more_run(runs: Seq<Seq<KeyedRowView>>, run: Seq<KeyedRowView>)
    requires
        all_ascending(runs),
        ascending(run),
    ensures
        all_ascending(runs.push(run)),
        all_rows(runs.push(run)) == all_rows(runs).add(run.to_multiset()),
{
    let more = runs.push(run);
    assert(more.drop_last() =~= runs);
    assert(more.last() == run);
    assert forall|i: int| 0 <= i < more.len() implies ascending(#[trigger] more[i]) by {
        if i < runs.len() {
            assert(more[i] == runs[i]);
        }
    }
}

/// Whether every run is sorted.
pub open spec fn all_ascending(runs: Seq<Seq<KeyedRowView>>) -> bool {
    forall|i: int| 0 <= i < runs.len() ==> ascending(#[trigger] runs[i])
}

/// Merges sorted runs into one sorted stream that holds the rows of all
/// of them. The runs are merged two by two, round after round.
pub fn merge_runs(runs: Vec<Vec<KeyedRow>>) -> (out: Vec<KeyedRow>)
    requires
        all_ascending(run_views(runs@)),
    ensures
        ascending(row_views(out@)),
        row_views(out@).to_multiset() == all_rows(run_views(runs@)),
{
    broadcast use vstd::multiset::group_multiset_axioms;

    let ghost total = all_rows(run_views(runs@));
    let mut runs = runs;
    while runs.len() > 1
        invariant
            all_ascending(run_views(runs@)),
            all_rows(run_views(runs@)) == total,
        decreases runs.len(),
    {
        let ghost start = runs@.len();
        let mut next: Vec<Vec<KeyedRow>> = Vec::new();
        assert(run_views(next@) =~= Seq::<Seq<KeyedRowView>>::empty());
        while runs.len() > 0
            invariant
                all_ascending(run_views(runs@)),
                all_ascending(run_views(next@)),
                all_rows(run_views(runs@)).add(all_rows(run_views(next@))) == total,
                2 * next@.len() + runs@.len() == start || (runs@.len() == 0 && 2 * next@.len()
                    == start + 1),
            decreases runs.len(),
        {
            let ghost before = run_views(runs@);
            let ghost next_before = run_views(next@);
            let b = runs.pop().unwrap();
            let ghost vb = row_views(b@);
            proof {
                lemma_without_last_run(before, run_views(runs@));
            }
            let ghost middle = run_views(runs@);
            let merged = match runs.pop() {
                Some(a) => {
                    proof {
                        lemma_without_last_run(middle, run_views(runs@));
                    }
                    merge_two(a, b)
                },
                None => b,
            };
            let ghost vm = row_views(merged@);
            next.push(merged);
            proof {
                assert(run_views(next@) =~= next_before.push(vm));
                lemma_with_one_more_run(next_before, vm);
                assert(all_rows(run_views(runs@)).add(all_rows(run_views(next@))) =~= all_rows(
                    before,
                ).add(all_rows(next_before)));
            }
        }
        proof {
            assert(run_views(runs@) =~= Seq::<Seq<KeyedRowView>>::empty());
            assert(all_rows(run_views(next@)) =~= total);
        }
        runs = next;
    }
    let ghost last = run_views(runs@);
    match runs.pop() {
        Some(run) => {
            proof {
                lemma_without_last_run(last, run_views(runs@));
                assert(run_views(runs@) =~= Seq::<Seq<KeyedRowView>>::empty());
                assert(all_rows(last) =~= row_views(run@).to_multiset());
            }
            run
        },
        None => {
            let out: Vec<KeyedRow> = Vec::new();
            proof {
                assert(row_views(out@) =~= Seq::<KeyedRowView>::empty());
                lemma_no_rows();
            }
            out
        },
    }
}

/// Sorts the rows of one source into a run.
pub fn sort_rows(rows: Vec<KeyedRow>) -> (out: Vec<KeyedRow>)
    ensures
        ascending(row_views(out@)),
        row_views(out@).to_multiset() == row_views(rows@).to_multiset(),
{
    broadcast use vstd::multiset::group_multiset_axioms;

    let ghost all = row_views(rows@);
    let mut rest = rows;
    let mut runs: Vec<Vec<KeyedRow>> = Vec::new();
    assert(run_views(runs@) =~= Seq::<Seq<KeyedRowView>>::empty());
    while rest.len() > 0
        invariant
            all_ascending(run_views(runs@)),
            row_views(rest@).to_multiset().add(all_rows(run_views(runs@))) == all.to_multiset(),
        decreases rest.len(),
    {
        let ghost before = row_views(rest@);
        let ghost runs_before = run_views(runs@);
        let row = rest.pop().unwrap();
        let mut one: Vec<KeyedRow> = Vec::new();
        one.push(row);
        runs.push(one);
        proof {
            let x = row@;
            assert(before =~= row_views(rest@).push(x));
            vstd::seq_lib::to_multiset_build(row_views(rest@), x);
            assert(row_views(one@) =~= seq![x]);
            assert(run_views(runs@) =~= runs_before.push(seq![x]));
            vstd::seq_lib::to_multiset_build(Seq::<KeyedRowView>::empty(), x);
            lemma_no_rows();
            assert(seq![x] =~= Seq::<KeyedRowView>::empty().push(x));
            assert(seq![x].to_multiset() =~= Multiset::<KeyedRowView>::empty().insert(x));
            assert(ascending(seq![x])) by {
                crate::order::lemma_lex_equal(x.key, x.key);
            }
            lemma_with_one_more_run(runs_before, seq![x]);
            assert(row_views(rest@).to_multiset().add(all_rows(run_views(runs@)))
                =~= before.to_multiset().add(all_rows(runs_before)));
        }
    }
    proof {
        assert(row_views(rest@) =~= Seq::<KeyedRowView>::empty());
        lemma_no_rows();
        assert(all_rows(run_views(runs@)) =~= all.to_multiset());
    }
    merge_runs(runs)
}

/// The sequences that a vector of vectors holds.
pub open spec fn contents<T>(blocks: Seq<Vec<T>>) -> Seq<Seq<T>> {
    Seq::new(blocks.len(), |i: int| blocks[i]@)
}

/// Cuts a stream of items into blocks of `size` items, the last one
/// possibly short.
pub fn chunk<T>(items: Vec<T>, size: usize) -> (blocks: Vec<Vec<T>>)
    requires
        size > 0,
    ensures
        contents(blocks@) == chunks_of(items@, size as int),
{
    let ghost all = items@;
    let ghost n = all.len() as int;
    let mut rest = reverse(items);
    let mut blocks: Vec<Vec<T>> = Vec::new();
    let mut current: Vec<T> = Vec::new();
    proof {
        assert(blocks@.len() * size == 0) by (nonlinear_arith)
            requires
                blocks@.len() == 0,
        ;
        assert(all.reverse().take(n) =~= all.reverse());
        assert(current@ =~= all.subrange(0, 0));
    }
    while rest.len() > 0
        invariant
            size > 0,
            n == all.len(),
            rest@.len() <= n,
            rest@ == all.reverse().take(rest@.len() as int),
            current@.len() < size,
            blocks@.len() * size + current@.len() + rest@.len() == n,
            current@ == all.subrange(blocks@.len() * size, n - rest@.len()),
            forall|i: int|
                0 <= i < blocks@.len() ==> (#[trigger] blocks@[i])@ == all.subrange(
                    i * size,
                    (i + 1) * size,
                ),
        decreases rest.len(),
    {
        let ghost rest_before = rest@;
        let ghost k = blocks@.len() as int;
        let ghost pos = n - rest@.len();
        let item = rest.pop().unwrap();
        proof {
            assert(item == rest_before[rest_before.len() - 1]);
            assert(item == all[pos]);
            assert(rest@ =~= all.reverse().take(rest@.len() as int));
        }
        current.push(item);
        assert(current@ =~= all.subrange(k * size, pos + 1));
        if current.len() == size {
            blocks.push(current);
            current = Vec::new();
            proof {
                assert((k + 1) * size == k * size + size) by (nonlinear_arith);
                assert(current@ =~= all.subrange((k + 1) * size, pos + 1));
            }
        }
    }
    let ghost k = blocks@.len() as int;
    let ghost r = current@.len() as int;
    proof {
        assert(k * size + r == n);
        vstd::arithmetic::div_mod::lemma_fundamental_div_mod_converse(n, size as int, k, r);
        lemma_ceil_div(n, size as int);
        assert((k + 1) * size == k * size + size) by (nonlinear_arith);
    }
    let ghost full = blocks@;
    if current.len() > 0 {
        blocks.push(current);
    }
    proof {
        assert forall|i: int| 0 <= i < blocks@.len() implies #[trigger] contents(blocks@)[i]
            == chunks_of(all, size as int)[i] by {
            if i < k {
                assert(blocks@[i] == full[i]);
                assert((i + 1) * size <= k * size) by (nonlinear_arith)
                    requires
                        i + 1 <= k,
                        size > 0,
                ;
            }
        }
        assert(contents(blocks@) =~= chunks_of(all, size as int));
    }
    blocks
}

/// Cuts a stream of rows into blocks of `size` rows, the last one
/// possibly short.
pub fn chunk_rows(rows: Vec<KeyedRow>, size: usize) -> (blocks: Vec<Vec<KeyedRow>>)
    requires
        size > 0,
    ensures
        run_views(blocks@) == chunks_of(row_views(rows@), size as int),
{
    let blocks = chunk(rows, size);
    proof {
        let cut = chunks_of(rows@, size as int);
        lemma_ceil_div(rows@.len() as int, size as int);
        assert(contents(blocks@) == cut);
        assert(contents(blocks@).len() == blocks@.len());
        assert(cut.len() == output_block_num(rows@.len() as int, size as int));
        assert forall|i: int| 0 <= i < blocks@.len() implies #[trigger] run_views(blocks@)[i]
            == chunks_of(row_views(rows@), size as int)[i] by {
            let n = rows@.len() as int;
            lemma_chunk_bounds(n, size as int, i);
            let from = i * size;
            let to = vstd::math::min((i + 1) * size, n);
            assert(blocks@[i]@ == contents(blocks@)[i]);
            assert(blocks@[i]@ == rows@.subrange(from, to));
            assert(row_views(rows@.subrange(from, to)) =~= row_views(rows@).subrange(from, to));
        }
        assert(run_views(blocks@) =~= chunks_of(row_views(rows@), size as int));
    }
    blocks
}

/// Rewrites the rows of the given sources into sorted blocks of
/// `block_size` rows: every source is sorted into a run, the runs are
/// merged, and the merged stream is cut into blocks. No row is lost and
/// none is made: the blocks, read one after the other, are the rows of
/// the sources in ascending order of their keys.
pub fn recluster_rows(sources: Vec<Vec<KeyedRow>>, block_size: usize) -> (blocks: Vec<
    Vec<KeyedRow>,
>)
    requires
        block_size > 0,
    ensures
        (exists|sorted: Seq<KeyedRowView>|
            ascending(sorted) && sorted.to_multiset() == all_rows(run_views(sources@))
                && #[trigger] chunks_of(sorted, block_size as int) == run_views(blocks@)),
{
    broadcast use vstd::multiset::group_multiset_axioms;

    let ghost total = all_rows(run_views(sources@));
    let mut rest = sources;
    let mut runs: Vec<Vec<KeyedRow>> = Vec::new();
    assert(run_views(runs@) =~= Seq::<Seq<KeyedRowView>>::empty());
    while rest.len() > 0
        invariant
            all_ascending(run_views(runs@)),
            all_rows(run_views(rest@)).add(all_rows(run_views(runs@))) == total,
        decreases rest.len(),
    {
        let ghost before = run_views(rest@);
        let ghost runs_before = run_views(runs@);
        let source = rest.pop().unwrap();
        let run = sort_rows(source);
        runs.push(run);
        proof {
            assert(run_views(rest@) =~= before.drop_last());
            assert(before.last() == row_views(source@));
            assert(run_views(runs@) =~= runs_before.push(row_views(run@)));
            lemma_with_one_more_run(runs_before, row_views(run@));
            assert(all_rows(run_views(rest@)).add(all_rows(run_views(runs@))) =~= all_rows(
                before,
            ).add(all_rows(runs_before)));
        }
    }
    proof {
        assert(run_views(rest@) =~= Seq::<Seq<KeyedRowView>>::empty());
        assert(all_rows(run_views(runs@)) =~= total);
    }
    let merged = merge_runs(runs);
    let ghost sorted = row_views(merged@);
    let blocks = chunk_rows(merged, block_size);
    assert(chunks_of(sorted, block_size as int) == run_views(blocks@));
    blocks
}

/// Cutting a stream into blocks keeps every row, in order, and fills no
/// block beyond its size: the blocks hold as many rows as the stream,
/// each block holds at most `size` rows and each but the last one holds
/// exactly `size`, and the `i`-th row of the stream is row `i % size` of
/// block `i / size`.
pub proof fn lemma_chunks_hold_every_row<T>(rows: Seq<T>, size: int)
    requires
        size > 0,
    ensures
        total_len(chunks_of(rows, size)) == rows.len(),
        chunks_of(rows, size).len() == output_block_num(rows.len() as int, size),
        forall|i: int|
            0 <= i < chunks_of(rows, size).len() ==> 0 < (#[trigger] chunks_of(rows, size)[i]).len()
                <= size,
        forall|i: int|
            0 <= i < chunks_of(rows, size).len() - 1 ==> (#[trigger] chunks_of(rows, size)[i]).len()
                == size,
        forall|i: int| 0 <= i < rows.len() ==> #[trigger] lies_in_block(rows, size, i),
{
    let n = rows.len() as int;
    let chunks = chunks_of(rows, size);
    let count = output_block_num(n, size);
    lemma_ceil_div(n, size);
    assert(count >= 0) by (nonlinear_arith)
        requires
            count == (n + size - 1) / size,
            n >= 0,
            size > 0,
    ;
    assert forall|i: int| 0 <= i < chunks.len() implies 0 < (#[trigger] chunks[i]).len()
        <= size by {
        lemma_chunk_bounds(n, size, i);
    }
    assert forall|i: int| 0 <= i < chunks.len() - 1 implies (#[trigger] chunks[i]).len()
        == size by {
        lemma_chunk_bounds(n, size, i);
    }
    assert forall|i: int| 0 <= i < rows.len() implies #[trigger] lies_in_block(rows, size, i) by {
        lemma_row_place(rows, size, i);
    }
    lemma_total_len_of_prefix(rows, size, count);
    assert(chunks.take(count) =~= chunks);
}

/// The block and the place in it where row `i` of a stream comes to lie.
proof fn lemma_row_place<T>(rows: Seq<T>, size: int, i: int)
    requires
        size > 0,
        0 <= i < rows.len(),
    ensures
        0 <= i / size < chunks_of(rows, size).len(),
        0 <= i % size < chunks_of(rows, size)[i / size].len(),
        chunks_of(rows, size)[i / size][i % size] == rows[i],
{
    let n = rows.len() as int;
    let count = output_block_num(n, size);
    let q = i / size;
    let r = i % size;
    lemma_ceil_div(n, size);
    vstd::arithmetic::div_mod::lemma_fundamental_div_mod(i, size);
    vstd::arithmetic::div_mod::lemma_mod_bound(i, size);
    assert(size * q == q * size) by (nonlinear_arith);
    assert(q >= 0) by (nonlinear_arith)
        requires
            q * size + r == i,
            i >= 0,
            r < size,
            size > 0,
    ;
    assert(q < count) by (nonlinear_arith)
        requires
            q * size + r < n,
            count * size >= n,
            r >= 0,
            size > 0,
    ;
    lemma_chunk_bounds(n, size, q);
    let chunk = chunks_of(rows, size)[q];
    assert(chunk == rows.subrange(q * size, vstd::math::min((q + 1) * size, n)));
}

/// Where block `i` of a stream of `n` items starts and ends.
pub proof fn lemma_chunk_starts(n: int, size: int, i: int)
    requires
        n >= 0,
        size > 0,
        0 <= i < output_block_num(n, size),
    ensures
        0 <= i * size < n,
        i * size <= vstd::math::min((i + 1) * size, n) <= n,
{
    lemma_chunk_bounds(n, size, i);
}

/// Where block `i` of a stream of `n` rows starts and ends.
proof fn lemma_chunk_bounds(n: int, size: int, i: int)
    requires
        n >= 0,
        size > 0,
        0 <= i < output_block_num(n, size),
    ensures
        0 <= i * size < n,
        (i + 1) * size == i * size + size,
        (i + 1) * size <= n || i == output_block_num(n, size) - 1,
{
    let count = output_block_num(n, size);
    lemma_ceil_div(n, size);
    assert((i + 1) * size == i * size + size) by (nonlinear_arith);
    assert(0 <= i * size) by (nonlinear_arith)
        requires
            i >= 0,
            size > 0,
    ;
    if i < count - 1 {
        assert((i + 1) * size <= (count - 1) * size) by (nonlinear_arith)
            requires
                i + 1 <= count - 1,
                size > 0,
        ;
    }
}

/// The first `k` blocks of a cut stream hold its first rows, `size` for
/// each block and no more than there are.
proof fn lemma_total_len_of_prefix<T>(rows: Seq<T>, size: int, k: int)
    requires
        size > 0,
        0 <= k <= chunks_of(rows, size).len(),
    ensures
        total_len(chunks_of(rows, size).take(k)) == vstd::math::min(k * size, rows.len() as int),
    decreases k,
{
    let n = rows.len() as int;
    let chunks = chunks_of(rows, size);
    if k > 0 {
        lemma_total_len_of_prefix(rows, size, k - 1);
        lemma_chunk_bounds(n, size, k - 1);
        let first = chunks.take(k);
        assert(first.drop_last() =~= chunks.take(k - 1));
        assert(first.last() == chunks[k - 1]);
        assert(chunks[k - 1] == rows.subrange((k - 1) * size, vstd::math::min(k * size, n)));
        assert(chunks[k - 1].len() == vstd::math::min(k * size, n) - (k - 1) * size);
        assert(total_len(first) == total_len(first.drop_last()) + first.last().len());
    } else {
        assert(chunks.take(0) =~= Seq::<Seq<T>>::empty());
        assert(0 * size == 0) by (nonlinear_arith);
    }
}

/// A recluster keeps every row and no block outgrows the row budget:
/// cut at the final block size of the task, the blocks hold exactly the
/// rows of the task, and none holds more rows than a block may.
pub proof fn lemma_recluster_blocks_within_budget<T>(
    rows: Seq<T>,
    total_bytes: int,
    thresholds: crate::recluster::BlockThresholds,
)
    requires
        thresholds.max_bytes_per_block > 0,
        crate::recluster::final_block_size(rows.len() as int, total_bytes, thresholds) > 0,
    ensures
        ({
            let size = crate::recluster::final_block_size(rows.len() as int, total_bytes, thresholds);
            let blocks = chunks_of(rows, size);
            &&& total_len(blocks) == rows.len()
            &&& forall|i: int|
                0 <= i < blocks.len() ==> (#[trigger] blocks[i]).len()
                    <= thresholds.max_rows_per_block
        }),
{
    let size = crate::recluster::final_block_size(rows.len() as int, total_bytes, thresholds);
    lemma_chunks_hold_every_row(rows, size);
}

} // verus!
