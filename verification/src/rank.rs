//! Ranking of enriched recordings by total listening time.

use vstd::prelude::*;
use vstd::seq_lib::{to_multiset_insert};
use crate::error::PipelineError;
use crate::recording::{enriched_views, RecordingWithLength, RecordingWithLengthView};

verus! {

/// The property of having a given listening time.
pub open spec fn has_time(time: nat) -> spec_fn(RecordingWithLengthView) -> bool {
    |e: RecordingWithLengthView| e.listening_time() == time
}

/// The items of a sequence that have a given listening time, in the order
/// in which the sequence holds them.
pub open spec fn tie_group(
    items: Seq<RecordingWithLengthView>,
    time: nat,
) -> Seq<RecordingWithLengthView> {
    items.filter(has_time(time))
}

/// Whether no item comes before one with a longer listening time.
pub open spec fn sorted_descending(items: Seq<RecordingWithLengthView>) -> bool {
    forall|i: int, j: int|
        0 <= i < j < items.len() ==> items[i].listening_time() >= items[j].listening_time()
}

/// Whether every listening time fits a `usize`.
pub open spec fn times_fit(items: Seq<RecordingWithLengthView>) -> bool {
    forall|i: int| 0 <= i < items.len() ==> (#[trigger] items[i]).listening_time() <= usize::MAX
}

/// Whether `ranked` is the ranking of `items`: it holds the same items, the
/// longest listening time first, and items with equal listening time in the
/// order in which `items` holds them.
pub open spec fn is_ranking_of(
    ranked: Seq<RecordingWithLengthView>,
    items: Seq<RecordingWithLengthView>,
) -> bool {
    &&& sorted_descending(ranked)
    &&& ranked.to_multiset() == items.to_multiset()
    &&& forall|time: nat| #[trigger] tie_group(ranked, time) == tie_group(items, time)
}

/// Filtering a sequence of one item keeps the item or nothing.
proof fn lemma_filter_one<A>(item: A, pred: spec_fn(A) -> bool)
    ensures
        seq![item].filter(pred) == if pred(item) {
            seq![item]
        } else {
            Seq::<A>::empty()
        },
{
    reveal_with_fuel(Seq::filter, 2);
    assert(seq![item].drop_last() =~= Seq::<A>::empty());
    assert(Seq::<A>::empty().push(item) =~= seq![item]);
}

/// Filtering a sequence that holds nothing of the kind leaves nothing.
proof fn lemma_filter_none<A>(s: Seq<A>, pred: spec_fn(A) -> bool)
    requires
        forall|i: int| 0 <= i < s.len() ==> !pred(#[trigger] s[i]),
    ensures
        s.filter(pred) == Seq::<A>::empty(),
{
    let kept = s.filter(pred);
    if kept.len() > 0 {
        s.lemma_filter_pred(pred, 0);
        assert(kept.contains(kept[0]));
        s.lemma_filter_contains_rev(pred, kept[0]);
        let i: int = choose|i: int| 0 <= i < s.len() && s[i] == kept[0];
        assert(!pred(s[i]));
    }
    assert(kept =~= Seq::<A>::empty());
}

/// Putting an item into a ranking, behind every item with a longer
/// listening time and before every other, gives the ranking of the item
/// followed by what was ranked before.
proof fn lemma_insert_ranked(
    ranked: Seq<RecordingWithLengthView>,
    item: RecordingWithLengthView,
    p: int,
    rest: Seq<RecordingWithLengthView>,
)
    requires
        is_ranking_of(ranked, rest),
        0 <= p <= ranked.len(),
        forall|k: int| 0 <= k < p ==> (#[trigger] ranked[k]).listening_time() > item.listening_time(),
        p < ranked.len() ==> ranked[p].listening_time() <= item.listening_time(),
    ensures
        is_ranking_of(ranked.insert(p, item), seq![item] + rest),
{
    let grown = ranked.insert(p, item);
    let before = ranked.take(p);
    let after = ranked.skip(p);
    let one = seq![item];
    ranked.insert_ensures(p, item);
    assert(sorted_descending(grown)) by {
        assert forall|i: int, j: int| 0 <= i < j < grown.len() implies grown[i].listening_time()
            >= grown[j].listening_time() by {
            let a: int = if i < p { i } else { i - 1 };
            let b: int = if j < p { j } else { j - 1 };
            if i != p {
                assert(grown[i] == ranked[a]);
            }
            if j != p {
                assert(grown[j] == ranked[b]);
            }
            if j > p {
                assert(ranked[p].listening_time() >= ranked[b].listening_time() || p == b);
            }
        }
    }
    assert(grown.to_multiset() == (one + rest).to_multiset()) by {
        to_multiset_insert(ranked, p, item);
        to_multiset_insert(rest, 0, item);
        assert(rest.insert(0, item) =~= one + rest);
    }
    assert(grown =~= (before + one) + after);
    assert(ranked =~= before + after);
    assert forall|time: nat| #[trigger] tie_group(grown, time) == tie_group(one + rest, time) by {
        let pred = has_time(time);
        Seq::filter_distributes_over_add(before + one, after, pred);
        Seq::filter_distributes_over_add(before, one, pred);
        Seq::filter_distributes_over_add(before, after, pred);
        Seq::filter_distributes_over_add(one, rest, pred);
        lemma_filter_one(item, pred);
        assert(tie_group(ranked, time) == tie_group(rest, time));
        if item.listening_time() == time {
            assert forall|k: int| 0 <= k < before.len() implies !pred(#[trigger] before[k]) by {
                assert(before[k] == ranked[k]);
            }
            lemma_filter_none(before, pred);
            assert(tie_group(grown, time) =~= one + after.filter(pred));
            assert(tie_group(ranked, time) =~= after.filter(pred));
        } else {
            assert(tie_group(grown, time) =~= before.filter(pred) + after.filter(pred));
            assert(tie_group(one + rest, time) =~= rest.filter(pred));
        }
    }
}

/// The listening times of a sequence, item by item.
pub open spec fn listening_times(items: Seq<RecordingWithLengthView>) -> Seq<nat> {
    items.map_values(|e: RecordingWithLengthView| e.listening_time())
}

/// A tie group of a sequence that is not empty is the tie group of all but
/// the last item, followed by the last item if it has the group's time.
proof fn lemma_tie_group_step(items: Seq<RecordingWithLengthView>, time: nat)
    requires
        items.len() > 0,
    ensures
        tie_group(items, time) == if items.last().listening_time() == time {
            tie_group(items.drop_last(), time).push(items.last())
        } else {
            tie_group(items.drop_last(), time)
        },
{
    reveal(Seq::filter);
}

/// An item of a tie group has the group's time and stands in the sequence.
proof fn lemma_tie_group_member(items: Seq<RecordingWithLengthView>, time: nat, i: int)
    requires
        0 <= i < tie_group(items, time).len(),
    ensures
        tie_group(items, time)[i].listening_time() == time,
        items.contains(tie_group(items, time)[i]),
{
    let group = tie_group(items, time);
    items.lemma_filter_pred(has_time(time), i);
    assert(group.contains(group[i]));
    items.lemma_filter_contains_rev(has_time(time), group[i]);
}

/// In a ranking that is not empty, no item has a shorter listening time
/// than the last.
proof fn lemma_last_is_shortest(items: Seq<RecordingWithLengthView>, item: RecordingWithLengthView)
    requires
        sorted_descending(items),
        items.contains(item),
    ensures
        items.len() > 0,
        item.listening_time() >= items.last().listening_time(),
{
    let i: int = choose|i: int| 0 <= i < items.len() && items[i] == item;
    if i < items.len() - 1 {
        assert(items[i].listening_time() >= items[items.len() - 1].listening_time());
    }
}

/// Two sorted sequences whose tie groups have the same sizes end in items
/// of the same listening time, and stay such sequences when both lose
/// their last item.
proof fn lemma_last_times_agree(
    a: Seq<RecordingWithLengthView>,
    b: Seq<RecordingWithLengthView>,
)
    requires
        sorted_descending(a),
        sorted_descending(b),
        a.len() > 0,
        forall|time: nat| (#[trigger] tie_group(a, time)).len() == tie_group(b, time).len(),
    ensures
        b.len() > 0,
        a.last().listening_time() == b.last().listening_time(),
        sorted_descending(a.drop_last()),
        sorted_descending(b.drop_last()),
        forall|time: nat|
            (#[trigger] tie_group(a.drop_last(), time)).len() == tie_group(
                b.drop_last(),
                time,
            ).len(),
{
    let k: nat = a.last().listening_time();
    lemma_tie_group_step(a, k);
    assert(tie_group(a, k).len() == tie_group(b, k).len());
    lemma_tie_group_member(b, k, 0);
    lemma_last_is_shortest(b, tie_group(b, k)[0]);
    let m: nat = b.last().listening_time();
    lemma_tie_group_step(b, m);
    assert(tie_group(a, m).len() == tie_group(b, m).len());
    lemma_tie_group_member(a, m, 0);
    lemma_last_is_shortest(a, tie_group(a, m)[0]);
    assert(k == m);
    assert forall|time: nat|
        (#[trigger] tie_group(a.drop_last(), time)).len() == tie_group(
            b.drop_last(),
            time,
        ).len() by {
        lemma_tie_group_step(a, time);
        lemma_tie_group_step(b, time);
        assert(tie_group(a, time).len() == tie_group(b, time).len());
    }
    assert(sorted_descending(a.drop_last())) by {
        assert forall|i: int, j: int| 0 <= i < j < a.drop_last().len() implies a.drop_last()[i].listening_time()
            >= a.drop_last()[j].listening_time() by {
            assert(a[i].listening_time() >= a[j].listening_time());
        }
    }
    assert(sorted_descending(b.drop_last())) by {
        assert forall|i: int, j: int| 0 <= i < j < b.drop_last().len() implies b.drop_last()[i].listening_time()
            >= b.drop_last()[j].listening_time() by {
            assert(b[i].listening_time() >= b[j].listening_time());
        }
    }
}

/// Two sorted sequences whose tie groups have the same sizes show the same
/// listening times, position by position.
proof fn lemma_sorted_times_agree(
    a: Seq<RecordingWithLengthView>,
    b: Seq<RecordingWithLengthView>,
)
    requires
        sorted_descending(a),
        sorted_descending(b),
        forall|time: nat| (#[trigger] tie_group(a, time)).len() == tie_group(b, time).len(),
    ensures
        listening_times(a) == listening_times(b),
    decreases a.len(),
{
    if a.len() == 0 {
        if b.len() > 0 {
            let m: nat = b.last().listening_time();
            lemma_tie_group_step(b, m);
            assert(tie_group(a, m).len() == tie_group(b, m).len());
            a.lemma_filter_len(has_time(m));
        }
        assert(listening_times(a) =~= listening_times(b));
    } else {
        lemma_last_times_agree(a, b);
        lemma_sorted_times_agree(a.drop_last(), b.drop_last());
        let ta = listening_times(a.drop_last());
        let tb = listening_times(b.drop_last());
        assert(ta.len() == a.len() - 1);
        assert(tb.len() == b.len() - 1);
        assert(listening_times(a) =~= ta.push(a.last().listening_time()));
        assert(listening_times(b) =~= tb.push(b.last().listening_time()));
    }
}

/// A ranking is determined by its tie groups: two sorted sequences with the
/// same tie groups are the same sequence.
pub proof fn lemma_sorted_with_same_ties_equal(
    a: Seq<RecordingWithLengthView>,
    b: Seq<RecordingWithLengthView>,
)
    requires
        sorted_descending(a),
        sorted_descending(b),
        forall|time: nat| #[trigger] tie_group(a, time) == tie_group(b, time),
    ensures
        a == b,
    decreases a.len(),
{
    if a.len() == 0 {
        if b.len() > 0 {
            let m: nat = b.last().listening_time();
            lemma_tie_group_step(b, m);
            assert(tie_group(a, m) == tie_group(b, m));
            a.lemma_filter_len(has_time(m));
        }
        assert(a =~= b);
    } else {
        assert forall|time: nat| (#[trigger] tie_group(a, time)).len() == tie_group(
            b,
            time,
        ).len() by {
            assert(tie_group(a, time) == tie_group(b, time));
        }
        lemma_last_times_agree(a, b);
        let k: nat = a.last().listening_time();
        lemma_tie_group_step(a, k);
        lemma_tie_group_step(b, k);
        assert(tie_group(a, k) == tie_group(b, k));
        assert(a.last() == tie_group(a, k).last());
        assert(b.last() == tie_group(b, k).last());
        assert forall|time: nat| #[trigger]
            tie_group(a.drop_last(), time) == tie_group(b.drop_last(), time) by {
            lemma_tie_group_step(a, time);
            lemma_tie_group_step(b, time);
            assert(tie_group(a, time) == tie_group(b, time));
            if time == k {
                assert(tie_group(a.drop_last(), time) =~= tie_group(a, time).drop_last());
                assert(tie_group(b.drop_last(), time) =~= tie_group(b, time).drop_last());
            }
        }
        lemma_sorted_with_same_ties_equal(a.drop_last(), b.drop_last());
        assert(a =~= a.drop_last().push(a.last()));
        assert(b =~= b.drop_last().push(b.last()));
    }
}

/// A ranking has as many items as were ranked, and every item of it is one
/// of them: nothing is dropped, and nothing is added.
pub proof fn lemma_ranked_items_are_given(
    ranked: Seq<RecordingWithLengthView>,
    items: Seq<RecordingWithLengthView>,
)
    requires
        is_ranking_of(ranked, items),
    ensures
        ranked.len() == items.len(),
        forall|i: int| 0 <= i < ranked.len() ==> items.contains(#[trigger] ranked[i]),
{
    ranked.to_multiset_ensures();
    items.to_multiset_ensures();
    assert forall|i: int| 0 <= i < ranked.len() implies items.contains(#[trigger] ranked[i]) by {
        assert(ranked.contains(ranked[i]));
        assert(ranked.to_multiset().count(ranked[i]) > 0);
        assert(items.to_multiset().count(ranked[i]) > 0);
    }
}

/// The tie groups of a reversed sequence are the reversed tie groups.
proof fn lemma_tie_group_of_reversed(items: Seq<RecordingWithLengthView>, time: nat)
    ensures
        tie_group(items.reverse(), time) == tie_group(items, time).reverse(),
    decreases items.len(),
{
    let pred = has_time(time);
    if items.len() == 0 {
        assert(items.reverse() =~= items);
        items.lemma_filter_len(pred);
        assert(tie_group(items, time).reverse() =~= tie_group(items, time));
    } else {
        let front = items.drop_last();
        let one = seq![items.last()];
        lemma_tie_group_of_reversed(front, time);
        lemma_tie_group_step(items, time);
        lemma_filter_one(items.last(), pred);
        Seq::filter_distributes_over_add(one, front.reverse(), pred);
        assert(items.reverse() =~= one + front.reverse());
        if pred(items.last()) {
            assert(tie_group(front, time).push(items.last()).reverse() =~= one + tie_group(
                front,
                time,
            ).reverse());
        } else {
            assert(Seq::<RecordingWithLengthView>::empty() + tie_group(front, time).reverse()
                =~= tie_group(front, time).reverse());
        }
    }
}

/// The ranking of given items is unique: the three conditions of
/// [`is_ranking_of`] leave no choice.
pub proof fn lemma_ranking_unique(
    items: Seq<RecordingWithLengthView>,
    ranked: Seq<RecordingWithLengthView>,
    other: Seq<RecordingWithLengthView>,
)
    requires
        is_ranking_of(ranked, items),
        is_ranking_of(other, items),
    ensures
        ranked == other,
{
    assert forall|time: nat| #[trigger] tie_group(ranked, time) == tie_group(other, time) by {
        assert(tie_group(ranked, time) == tie_group(items, time));
        assert(tie_group(other, time) == tie_group(items, time));
    }
    lemma_sorted_with_same_ties_equal(ranked, other);
}

/// Ranking the same items given in reverse order shows the same listening
/// times, position by position. The two rankings are the same sequence
/// exactly when every tie group of the items reads the same in both
/// directions; in particular when no two different items tie.
pub proof fn lemma_ranking_of_reversed(
    items: Seq<RecordingWithLengthView>,
    ranked: Seq<RecordingWithLengthView>,
    ranked_reversed: Seq<RecordingWithLengthView>,
)
    requires
        is_ranking_of(ranked, items),
        is_ranking_of(ranked_reversed, items.reverse()),
    ensures
        listening_times(ranked) == listening_times(ranked_reversed),
        ranked == ranked_reversed <==> (forall|time: nat| #[trigger]
            tie_group(items, time) == tie_group(items, time).reverse()),
{
    assert forall|time: nat| #[trigger]
        tie_group(ranked_reversed, time) == tie_group(items, time).reverse() by {
        lemma_tie_group_of_reversed(items, time);
        assert(tie_group(ranked_reversed, time) == tie_group(items.reverse(), time));
    }
    assert forall|time: nat| (#[trigger] tie_group(ranked, time)).len() == tie_group(
        ranked_reversed,
        time,
    ).len() by {
        assert(tie_group(ranked, time) == tie_group(items, time));
        assert(tie_group(ranked_reversed, time) == tie_group(items, time).reverse());
    }
    lemma_sorted_times_agree(ranked, ranked_reversed);
    if forall|time: nat| #[trigger] tie_group(items, time) == tie_group(items, time).reverse() {
        assert forall|time: nat| #[trigger]
            tie_group(ranked, time) == tie_group(ranked_reversed, time) by {
            assert(tie_group(ranked, time) == tie_group(items, time));
            assert(tie_group(ranked_reversed, time) == tie_group(items, time).reverse());
            assert(tie_group(items, time) == tie_group(items, time).reverse());
        }
        lemma_sorted_with_same_ties_equal(ranked, ranked_reversed);
    }
    if ranked == ranked_reversed {
        assert forall|time: nat| #[trigger]
            tie_group(items, time) == tie_group(items, time).reverse() by {
            assert(tie_group(ranked, time) == tie_group(items, time));
            assert(tie_group(ranked_reversed, time) == tie_group(items, time).reverse());
        }
    }
}

/// The listening time of an item whose time is known to fit.
fn time_of(item: &RecordingWithLength) -> (time: usize)
    requires
        item@.listening_time() <= usize::MAX,
    ensures
        time == item@.listening_time(),
{
    item.recording.listen_count * item.length
}

/// Ranks the recordings by total listening time, the longest first.
///
/// Nothing is dropped and nothing is added. Recordings with the same
/// listening time keep the order in which they were given. If the listening
/// time of any recording does not fit a `usize`, nothing is ranked and the
/// error is [`PipelineError::Computation`].
pub fn rank(enriched: Vec<RecordingWithLength>) -> (ranked: Result<
    Vec<RecordingWithLength>,
    PipelineError,
>)
    ensures
        match ranked {
            Ok(out) => times_fit(enriched_views(enriched@)) && is_ranking_of(
                enriched_views(out@),
                enriched_views(enriched@),
            ),
            Err(e) => e == PipelineError::Computation && !times_fit(enriched_views(enriched@)),
        },
{
    let ghost items = enriched_views(enriched@);
    let mut i: usize = 0;
    while i < enriched.len()
        invariant
            i <= enriched.len(),
            items == enriched_views(enriched@),
            forall|k: int| 0 <= k < i ==> (#[trigger] items[k]).listening_time() <= usize::MAX,
        decreases enriched.len() - i,
    {
        match enriched[i].listening_time() {
            Ok(_) => {},
            Err(_) => {
                assert(items[i as int].listening_time() > usize::MAX);
                return Err(PipelineError::Computation);
            },
        }
        i += 1;
    }
    let mut rest = enriched;
    let mut out: Vec<RecordingWithLength> = Vec::new();
    proof {
        assert(items.take(items.len() as int) =~= items);
        assert(items.skip(items.len() as int) =~= Seq::empty());
        assert(enriched_views(out@) =~= Seq::empty());
    }
    while rest.len() > 0
        invariant
            rest.len() <= items.len(),
            enriched_views(rest@) == items.take(rest.len() as int),
            times_fit(items),
            forall|k: int| 0 <= k < out@.len() ==> (#[trigger] out@[k])@.listening_time() <= usize::MAX,
            is_ranking_of(enriched_views(out@), items.skip(rest.len() as int)),
        decreases rest.len(),
    {
        let ghost ranked = enriched_views(out@);
        let ghost n: int = rest.len() as int;
        let ghost held = rest@;
        let item = rest.pop().unwrap();
        proof {
            assert(item@ == enriched_views(held)[n - 1]);
            assert(item@ == items[n - 1]);
            assert(enriched_views(rest@) =~= items.take(n - 1));
        }
        let time: usize = time_of(&item);
        let mut p: usize = 0;
        while p < out.len() && time_of(&out[p]) > time
            invariant
                p <= out.len(),
                ranked == enriched_views(out@),
                forall|k: int| 0 <= k < out@.len() ==> (#[trigger] out@[k])@.listening_time() <= usize::MAX,
                forall|k: int| 0 <= k < p ==> (#[trigger] ranked[k]).listening_time() > time,
            decreases out.len() - p,
        {
            p += 1;
        }
        proof {
            lemma_insert_ranked(ranked, item@, p as int, items.skip(n));
            assert(seq![item@] + items.skip(n) =~= items.skip(n - 1));
        }
        let ghost shown = item@;
        out.insert(p, item);
        proof {
            ranked.insert_ensures(p as int, shown);
            assert(enriched_views(out@) =~= ranked.insert(p as int, shown));
        }
    }
    proof {
        assert(items.skip(0) =~= items);
    }
    Ok(out)
}

} // verus!
