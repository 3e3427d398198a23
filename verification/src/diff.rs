//! The set-diff engine: which displays lose the transform, which keep it and
//! which gain it when the desired set replaces the previously applied one.

use vstd::prelude::*;
use crate::ids::DisplayId;

verus! {

/// The predicate that holds of the displays occurring in `ys`.
pub open spec fn occurs_in(ys: Seq<DisplayId>) -> spec_fn(DisplayId) -> bool {
    |d: DisplayId| ys.contains(d)
}

/// The predicate that holds of the displays not occurring in `ys`.
pub open spec fn absent_from(ys: Seq<DisplayId>) -> spec_fn(DisplayId) -> bool {
    |d: DisplayId| !ys.contains(d)
}

/// The elements of `xs` that occur in `ys`, in the order of `xs`.
pub open spec fn retained(xs: Seq<DisplayId>, ys: Seq<DisplayId>) -> Seq<DisplayId> {
    xs.filter(occurs_in(ys))
}

/// The elements of `xs` that do not occur in `ys`, in the order of `xs`.
pub open spec fn dropped(xs: Seq<DisplayId>, ys: Seq<DisplayId>) -> Seq<DisplayId> {
    xs.filter(absent_from(ys))
}

/// Whether `needle` occurs in `haystack`.
pub fn contains_display(haystack: &[DisplayId], needle: DisplayId) -> (found: bool)
    ensures
        found == haystack@.contains(needle),
{
    let mut i: usize = 0;
    while i < haystack.len()
        invariant
            i <= haystack.len(),
            forall|k: int| 0 <= k < i ==> haystack@[k] != needle,
        decreases haystack.len() - i,
    {
        if haystack[i] == needle {
            return true;
        }
        i += 1;
    }
    false
}

/// Splits `old` and `new` into what was removed, what is unchanged and what was
/// added. `removed` and `unchanged` keep the order of `old`, `added` keeps the
/// order of `new`; neither input is modified.
pub fn diff_lists(old: &[DisplayId], new: &[DisplayId]) -> (parts: (
    Vec<DisplayId>,
    Vec<DisplayId>,
    Vec<DisplayId>,
))
    ensures
        parts.0@ == dropped(old@, new@),
        parts.1@ == retained(old@, new@),
        parts.2@ == dropped(new@, old@),
{
    let mut removed: Vec<DisplayId> = Vec::new();
    let mut unchanged: Vec<DisplayId> = Vec::new();
    let mut added: Vec<DisplayId> = Vec::new();

    proof {
        reveal(Seq::filter);
    }

    let mut i: usize = 0;
    while i < old.len()
        invariant
            i <= old.len(),
            removed@ == dropped(old@.take(i as int), new@),
            unchanged@ == retained(old@.take(i as int), new@),
        decreases old.len() - i,
    {
        let old_value: DisplayId = old[i];
        proof {
            reveal(Seq::filter);
            assert(old@.take(i + 1).drop_last() == old@.take(i as int));
        }
        if contains_display(new, old_value) {
            unchanged.push(old_value);
        } else {
            removed.push(old_value);
        }
        i += 1;
    }
    assert(old@.take(old.len() as int) == old@);

    let mut j: usize = 0;
    while j < new.len()
        invariant
            j <= new.len(),
            added@ == dropped(new@.take(j as int), old@),
        decreases new.len() - j,
    {
        let new_value: DisplayId = new[j];
        proof {
            reveal(Seq::filter);
            assert(new@.take(j + 1).drop_last() == new@.take(j as int));
        }
        if !contains_display(old, new_value) {
            added.push(new_value);
        }
        j += 1;
    }
    assert(new@.take(new.len() as int) == new@);

    (removed, unchanged, added)
}

/// An element is kept by a filter exactly when it occurs in the sequence and
/// satisfies the predicate.
pub proof fn lemma_filter_membership(
    xs: Seq<DisplayId>,
    pred: spec_fn(DisplayId) -> bool,
    d: DisplayId,
)
    ensures
        xs.filter(pred).contains(d) <==> xs.contains(d) && pred(d),
    decreases xs.len(),
{
    reveal(Seq::filter);
    if xs.len() > 0 {
        let rest = xs.drop_last();
        lemma_filter_membership(rest, pred, d);
        if xs.contains(d) {
            let k = choose|k: int| 0 <= k < xs.len() && xs[k] == d;
            if k < rest.len() {
                assert(rest[k] == d);
            }
        }
        if rest.contains(d) {
            let k = choose|k: int| 0 <= k < rest.len() && rest[k] == d;
            assert(xs[k] == d);
        }
        if pred(xs.last()) {
            let kept = rest.filter(pred);
            let all = kept.push(xs.last());
            if kept.contains(d) {
                let k = choose|k: int| 0 <= k < kept.len() && kept[k] == d;
                assert(all[k] == d);
            }
            if xs.last() == d {
                assert(all[kept.len() as int] == d);
                assert(xs[xs.len() - 1] == d);
            }
            if all.contains(d) {
                let k = choose|k: int| 0 <= k < all.len() && all[k] == d;
                if k < kept.len() {
                    assert(kept[k] == d);
                }
            }
        }
    }
}

/// Filtering keeps a sequence free of duplicates.
pub proof fn lemma_filter_no_duplicates(xs: Seq<DisplayId>, pred: spec_fn(DisplayId) -> bool)
    requires
        xs.no_duplicates(),
    ensures
        xs.filter(pred).no_duplicates(),
    decreases xs.len(),
{
    reveal(Seq::filter);
    if xs.len() > 0 {
        let rest = xs.drop_last();
        lemma_filter_no_duplicates(rest, pred);
        lemma_filter_membership(rest, pred, xs.last());
        if rest.contains(xs.last()) {
            let k = choose|k: int| 0 <= k < rest.len() && rest[k] == xs.last();
            assert(xs[k] == xs[xs.len() - 1]);
        }
    }
}

/// A filter whose predicate holds of every element changes nothing.
pub proof fn lemma_filter_keeps_all(xs: Seq<DisplayId>, pred: spec_fn(DisplayId) -> bool)
    requires
        forall|k: int| 0 <= k < xs.len() ==> pred(#[trigger] xs[k]),
    ensures
        xs.filter(pred) == xs,
    decreases xs.len(),
{
    reveal(Seq::filter);
    if xs.len() > 0 {
        let rest = xs.drop_last();
        assert forall|k: int| 0 <= k < rest.len() implies pred(#[trigger] rest[k]) by {
            assert(rest[k] == xs[k]);
        }
        lemma_filter_keeps_all(rest, pred);
        assert(pred(xs[xs.len() - 1]));
        assert(rest.push(xs.last()) =~= xs);
    }
}

/// A filter whose predicate holds of no element leaves nothing.
pub proof fn lemma_filter_keeps_none(xs: Seq<DisplayId>, pred: spec_fn(DisplayId) -> bool)
    requires
        forall|k: int| 0 <= k < xs.len() ==> !pred(#[trigger] xs[k]),
    ensures
        xs.filter(pred) == Seq::<DisplayId>::empty(),
    decreases xs.len(),
{
    reveal(Seq::filter);
    if xs.len() > 0 {
        let rest = xs.drop_last();
        assert forall|k: int| 0 <= k < rest.len() implies !pred(#[trigger] rest[k]) by {
            assert(rest[k] == xs[k]);
        }
        lemma_filter_keeps_none(rest, pred);
        assert(!pred(xs[xs.len() - 1]));
    } else {
        assert(xs =~= Seq::<DisplayId>::empty());
    }
}

/// The diff partitions both of its inputs.
///
/// Taken as sets, `removed` and `unchanged` are disjoint and together make up
/// `previous`; `unchanged` and `added` are disjoint and together make up
/// `desired`; and taking `removed` out of `previous` and then putting `added` in
/// yields exactly `desired`.
pub proof fn lemma_diff_partitions(previous: Seq<DisplayId>, desired: Seq<DisplayId>)
    ensures
        dropped(previous, desired).to_set().union(retained(previous, desired).to_set())
            == previous.to_set(),
        dropped(previous, desired).to_set().disjoint(retained(previous, desired).to_set()),
        retained(previous, desired).to_set().union(dropped(desired, previous).to_set())
            == desired.to_set(),
        retained(previous, desired).to_set().disjoint(dropped(desired, previous).to_set()),
        previous.to_set().difference(dropped(previous, desired).to_set()).union(
            dropped(desired, previous).to_set(),
        ) == desired.to_set(),
{
    let removed = dropped(previous, desired);
    let unchanged = retained(previous, desired);
    let added = dropped(desired, previous);
    assert forall|d: DisplayId| #[trigger]
        removed.contains(d) <==> previous.contains(d) && !desired.contains(d) by {
        lemma_filter_membership(previous, absent_from(desired), d);
    }
    assert forall|d: DisplayId| #[trigger]
        unchanged.contains(d) <==> previous.contains(d) && desired.contains(d) by {
        lemma_filter_membership(previous, occurs_in(desired), d);
    }
    assert forall|d: DisplayId| #[trigger]
        added.contains(d) <==> desired.contains(d) && !previous.contains(d) by {
        lemma_filter_membership(desired, absent_from(previous), d);
    }
    assert(removed.to_set().union(unchanged.to_set()) =~= previous.to_set());
    assert(unchanged.to_set().union(added.to_set()) =~= desired.to_set());
    assert(previous.to_set().difference(removed.to_set()).union(added.to_set())
        =~= desired.to_set());
}

/// Where neither input repeats an element, the list applied after a change,
/// `unchanged` followed by `added`, repeats none either.
pub proof fn lemma_diff_applied_no_duplicates(previous: Seq<DisplayId>, desired: Seq<DisplayId>)
    requires
        previous.no_duplicates(),
        desired.no_duplicates(),
    ensures
        (retained(previous, desired) + dropped(desired, previous)).no_duplicates(),
{
    let unchanged = retained(previous, desired);
    let added = dropped(desired, previous);
    lemma_filter_no_duplicates(previous, occurs_in(desired));
    lemma_filter_no_duplicates(desired, absent_from(previous));
    assert forall|i: int, j: int|
        0 <= i < unchanged.len() && 0 <= j < added.len() implies unchanged[i] != added[j] by {
        lemma_filter_membership(previous, occurs_in(desired), unchanged[i]);
        lemma_filter_membership(desired, absent_from(previous), added[j]);
        assert(unchanged.contains(unchanged[i]));
        assert(added.contains(added[j]));
    }
    vstd::seq_lib::lemma_no_dup_in_concat(unchanged, added);
}

/// Diffing a list against itself removes nothing, adds nothing and leaves the
/// whole list unchanged, in its order.
pub proof fn lemma_diff_idempotent(displays: Seq<DisplayId>)
    ensures
        dropped(displays, displays) == Seq::<DisplayId>::empty(),
        retained(displays, displays) == displays,
{
    assert forall|k: int| 0 <= k < displays.len() implies displays.contains(
        #[trigger] displays[k],
    ) by {}
    lemma_filter_keeps_all(displays, occurs_in(displays));
    lemma_filter_keeps_none(displays, absent_from(displays));
}

} // verus!
