//! The visible list: the items that match the filter, in the order of the
//! full list, each with the highlight runs of its matched characters.

use crate::highlight::{coalesce, runs_to_ranges, runs_view};
use crate::item::{FuzzyMatchable, Item};
use crate::matcher::{found_view, fuzzy_indices, fuzzy_score, fuzzy_spec};
use core::ops::RangeInclusive;
use vstd::prelude::*;
use vstd::std_specs::range::RangeInclusiveView;

verus! {

/// Whether `item` passes `filter`.
pub open spec fn passes<V: FuzzyMatchable>(item: V, filter: Seq<char>) -> bool {
    fuzzy_spec(item.match_text(), filter, true) is Some
}

/// The entry that a match outcome gives for `item`: none where nothing was
/// found, else the item with the runs of its matched positions.
pub open spec fn entry_for<V>(item: V, found: Option<(i64, Seq<usize>)>) -> Option<
    (V, Seq<RangeInclusiveView<usize>>),
> {
    match found {
        Some((_, positions)) => Some((item, coalesce(positions))),
        None => None,
    }
}

/// The visible list of `list` under `filter`.
pub open spec fn project<V: FuzzyMatchable>(list: Seq<V>, filter: Seq<char>) -> Seq<
    (V, Seq<RangeInclusiveView<usize>>),
>
    decreases list.len(),
{
    if list.len() == 0 {
        Seq::empty()
    } else {
        let head = project(list.drop_last(), filter);
        match entry_for(list.last(), fuzzy_spec(list.last().match_text(), filter, true)) {
            Some(entry) => head.push(entry),
            None => head,
        }
    }
}

/// The items of a visible list, without their runs.
pub open spec fn items_of<V>(entries: Seq<(V, Seq<RangeInclusiveView<usize>>)>) -> Seq<V> {
    Seq::new(entries.len(), |k: int| entries[k].0)
}

/// A computed visible list as the contracts speak of it.
pub open spec fn pairs_view<V>(pairs: Seq<(V, Vec<RangeInclusive<usize>>)>) -> Seq<
    (V, Seq<RangeInclusiveView<usize>>),
> {
    Seq::new(pairs.len(), |k: int| (pairs[k].0, runs_view(pairs[k].1@)))
}

/// The items of a computed visible list.
pub open spec fn pair_items<V>(pairs: Seq<(V, Vec<RangeInclusive<usize>>)>) -> Seq<V> {
    Seq::new(pairs.len(), |k: int| pairs[k].0)
}

/// The visible list keeps exactly the items that pass the filter, in the
/// order in which the full list holds them.
pub proof fn lemma_project_is_stable_filter<V: FuzzyMatchable>(list: Seq<V>, filter: Seq<char>)
    ensures
        items_of(project(list, filter)) == list.filter(|item: V| passes(item, filter)),
    decreases list.len(),
{
    reveal(Seq::filter);
    let pred = |item: V| passes(item, filter);
    if list.len() > 0 {
        lemma_project_is_stable_filter(list.drop_last(), filter);
        let head = project(list.drop_last(), filter);
        if passes(list.last(), filter) {
            assert(items_of(project(list, filter)) == items_of(head).push(list.last()));
        }
    } else {
        assert(items_of(project(list, filter)) == list.filter(pred));
    }
}

/// Under the empty filter every item is visible, in the order of the full
/// list, and none has a highlight run.
pub proof fn lemma_empty_filter_keeps_all<V: FuzzyMatchable>(list: Seq<V>, filter: Seq<char>)
    requires
        filter.len() == 0,
    ensures
        project(list, filter) == Seq::new(
            list.len(),
            |k: int| (list[k], Seq::<RangeInclusiveView<usize>>::empty()),
        ),
    decreases list.len(),
{
    let all = Seq::new(list.len(), |k: int| (list[k], Seq::<RangeInclusiveView<usize>>::empty()));
    if list.len() > 0 {
        let front = list.drop_last();
        lemma_empty_filter_keeps_all(front, filter);
        assert(coalesce(Seq::<usize>::empty()) == Seq::<RangeInclusiveView<usize>>::empty());
        assert(project(list, filter) == project(front, filter).push(
            (list.last(), Seq::<RangeInclusiveView<usize>>::empty()),
        ));
        assert(project(list, filter) == all);
    } else {
        assert(project(list, filter) == all);
    }
}

/// The entry for `item` once its match outcome is known: a duplicate of the
/// item with the ranges of the matched positions, or nothing.
pub fn keep_match<V: Item>(item: &V, found: Option<(i64, Vec<usize>)>) -> (kept: Option<
    (V, Vec<RangeInclusive<usize>>),
>)
    ensures
        match entry_for(*item, found_view(found)) {
            Some(entry) => kept matches Some(pair) && pair.0 == entry.0 && runs_view(pair.1@)
                == entry.1,
            None => kept is None,
        },
{
    match found {
        Some((_, positions)) => Some((item.duplicate(), runs_to_ranges(positions))),
        None => None,
    }
}

/// An item that passed the filter, with its place in the full list and its
/// score.
pub struct FilterMatch<T> {
    pub text: T,
    pub index: usize,
    pub score: i64,
}

/// The scored matches of `list` under `filter`, by the items' places in the
/// full list.
pub open spec fn scored<V: FuzzyMatchable>(list: Seq<V>, filter: Seq<char>) -> Seq<FilterMatch<V>>
    decreases list.len(),
{
    if list.len() == 0 {
        Seq::empty()
    } else {
        let head = scored(list.drop_last(), filter);
        match fuzzy_spec(list.last().match_text(), filter, false) {
            Some((score, _)) => head.push(
                FilterMatch { text: list.last(), index: (list.len() - 1) as usize, score },
            ),
            None => head,
        }
    }
}

/// The projection from a full list and a filter to what is visible.
pub struct FilteredLens;

impl FilteredLens {
    /// The visible list of `list` under the text of `filter`: every item that the
    /// matcher accepts, in the order of `list`, with its highlight ranges.
    pub fn matched_pairs<F: FuzzyMatchable, V: Item>(&self, list: &Vec<V>, filter: &F) -> (pairs: Vec<
        (V, Vec<RangeInclusive<usize>>),
    >)
        ensures
            pairs_view(pairs@) == project(list@, filter.match_text()),
            pair_items(pairs@) == list@.filter(|item: V| passes(item, filter.match_text())),
            filter.match_text().len() == 0 ==> pairs@.len() == list@.len() && forall|k: int|
                0 <= k < list@.len() ==> (#[trigger] pairs@[k]).0 == list@[k] && pairs@[k].1@.len()
                    == 0,
    {
        let f = filter.match_against();
        let mut pairs: Vec<(V, Vec<RangeInclusive<usize>>)> = Vec::new();
        let mut i: usize = 0;
        proof {
            assert(list@.take(0).len() == 0);
            assert(pairs_view(pairs@) == project(list@.take(0), f@));
        }
        while i < list.len()
            invariant
                i <= list.len(),
                f@ == filter.match_text(),
                pairs_view(pairs@) == project(list@.take(i as int), f@),
            decreases list.len() - i,
        {
            let item = &list[i];
            let found = fuzzy_indices(item.match_against(), f);
            let ghost before = pairs@;
            proof {
                assert(list@.take(i + 1).drop_last() == list@.take(i as int));
                assert(list@.take(i + 1).last() == list@[i as int]);
            }
            match keep_match(item, found) {
                Some(pair) => {
                    pairs.push(pair);
                    assert(pairs_view(pairs@) == pairs_view(before).push(
                        (pair.0, runs_view(pair.1@)),
                    ));
                },
                None => {},
            }
            i += 1;
        }
        proof {
            assert(list@.take(list.len() as int) == list@);
            lemma_project_is_stable_filter(list@, f@);
            assert(pair_items(pairs@) == items_of(pairs_view(pairs@)));
            if f@.len() == 0 {
                lemma_empty_filter_keeps_all(list@, f@);
                assert forall|k: int| 0 <= k < list@.len() implies (#[trigger] pairs@[k]).0 == list@[k]
                    && pairs@[k].1@.len() == 0 by {
                    assert(pairs_view(pairs@)[k] == (
                        list@[k],
                        Seq::<RangeInclusiveView<usize>>::empty(),
                    ));
                    assert(runs_view(pairs@[k].1@).len() == 0);
                }
            }
        }
        pairs
    }

    /// Every item of `list` that the matcher accepts for `filter`, in the order
    /// of `list`, with its index in `list` and its score.
    pub fn match_items<V: Item>(&self, list: &Vec<V>, filter: &str) -> (matches: Vec<FilterMatch<V>>)
        ensures
            matches@ == scored(list@, filter@),
    {
        let mut matches: Vec<FilterMatch<V>> = Vec::new();
        let mut i: usize = 0;
        proof {
            assert(list@.take(0).len() == 0);
        }
        while i < list.len()
            invariant
                i <= list.len(),
                matches@ == scored(list@.take(i as int), filter@),
            decreases list.len() - i,
        {
            let item = &list[i];
            proof {
                assert(list@.take(i + 1).drop_last() == list@.take(i as int));
                assert(list@.take(i + 1).last() == list@[i as int]);
            }
            match fuzzy_score(item.match_against(), filter) {
                Some(score) => {
                    matches.push(FilterMatch { text: item.duplicate(), index: i, score });
                },
                None => {},
            }
            i += 1;
        }
        proof {
            assert(list@.take(list.len() as int) == list@);
        }
        matches
    }
}

} // verus!
