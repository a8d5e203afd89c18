//! The selection engine: a filter text, the full list, a cursor into the
//! visible list and the chosen value, kept consistent after every input.

use crate::item::{duplicate_option, FuzzyMatchable, Item};
use crate::projection::{
    items_of, lemma_empty_filter_keeps_all, pair_items, pairs_view, project, FilteredLens,
};
use core::ops::RangeInclusive;
use vstd::prelude::*;
use vstd::std_specs::range::RangeInclusiveView;

verus! {

/// What an input changed, as far as the driver has to react: at most one
/// signal per input, a changed selection taking precedence over a moved
/// cursor.
#[derive(Clone, Copy, Debug, PartialEq, Eq, Structural)]
pub enum Signal {
    Unchanged,
    CursorChanged,
    SelectionChanged,
}

/// Whether two optional choices are the same choice.
pub open spec fn same_choice<Sel: Item>(a: Option<Sel>, b: Option<Sel>) -> bool {
    match (a, b) {
        (None, None) => true,
        (Some(c), Some(d)) => c.same_as(&d),
        _ => false,
    }
}

/// The signal for a step from one cursor and selection to the next.
pub open spec fn signal_spec<Sel: Item>(
    old_index: Option<usize>,
    new_index: Option<usize>,
    old_selection: Option<Sel>,
    new_selection: Option<Sel>,
) -> Signal {
    if !same_choice(old_selection, new_selection) {
        Signal::SelectionChanged
    } else if old_index != new_index {
        Signal::CursorChanged
    } else {
        Signal::Unchanged
    }
}

/// `found` is the first place in `vis` that holds the same choice as
/// `value`, or `None` where no place does.
pub open spec fn is_first_same<Sel: Item>(vis: Seq<Sel>, value: Sel, found: Option<usize>) -> bool {
    match found {
        Some(j) => j < vis.len() && value.same_as(&vis[j as int]) && forall|k: int|
            0 <= k < j ==> !value.same_as(&#[trigger] vis[k]),
        None => forall|k: int| 0 <= k < vis.len() ==> !value.same_as(&#[trigger] vis[k]),
    }
}

/// The row that a step up aims at over a visible list of `len` rows: from no
/// cursor the last row, from the top row none.
pub open spec fn cursor_up(cursor: Option<usize>, len: nat) -> Option<usize> {
    match cursor {
        None => if len > 0 {
            Some((len - 1) as usize)
        } else {
            None
        },
        Some(i) => if i > 0 {
            Some((i - 1) as usize)
        } else {
            None
        },
    }
}

/// The row that a step down aims at, before it is held against the length of
/// the visible list: from no cursor the top row, else one row further.
pub open spec fn cursor_down(cursor: Option<usize>) -> Option<usize> {
    match cursor {
        None => Some(0usize),
        Some(i) => if i < usize::MAX {
            Some((i + 1) as usize)
        } else {
            None
        },
    }
}

/// How reconciliation settles a cursor and a selection against the visible
/// items. A cursor in range decides the selection. Otherwise the selection
/// stays, and the cursor goes to the first row that holds the same choice,
/// whose item the selection then is; with no such row there is no cursor.
pub open spec fn reconciled<Sel: Item>(
    cursor: Option<usize>,
    selection: Option<Sel>,
    vis: Seq<Sel>,
    new_cursor: Option<usize>,
    new_selection: Option<Sel>,
) -> bool {
    if cursor is Some && cursor->0 < vis.len() {
        new_cursor == cursor && new_selection == Some(vis[cursor->0 as int])
    } else {
        match selection {
            Some(v) => is_first_same(vis, v, new_cursor) && new_selection == match new_cursor {
                Some(j) => Some(vis[j as int]),
                None => selection,
            },
            None => new_cursor is None && new_selection is None,
        }
    }
}

/// The invariants that hold between inputs: the cursor is a row of the
/// visible list; the selection is the item in the cursor's row; a selection
/// that is visible has the cursor on a row that holds it; an empty visible
/// list has no cursor.
pub open spec fn consistent<Sel: Item>(
    cursor: Option<usize>,
    selection: Option<Sel>,
    vis: Seq<Sel>,
) -> bool {
    &&& cursor matches Some(i) ==> i < vis.len()
    &&& cursor matches Some(i) ==> selection == Some(vis[i as int])
    &&& (selection matches Some(v) && exists|k: int|
        0 <= k < vis.len() && v.same_as(&#[trigger] vis[k])) ==> (cursor matches Some(j) && j
        < vis.len() && selection == Some(vis[j as int]))
    &&& vis.len() == 0 ==> cursor is None
}

/// Whatever the cursor and the selection were, reconciliation leaves them
/// consistent with the visible items.
pub proof fn lemma_reconciled_is_consistent<Sel: Item>(
    cursor: Option<usize>,
    selection: Option<Sel>,
    vis: Seq<Sel>,
    new_cursor: Option<usize>,
    new_selection: Option<Sel>,
)
    requires
        reconciled(cursor, selection, vis, new_cursor, new_selection),
    ensures
        consistent(new_cursor, new_selection, vis),
{
}

/// How a cursor step settles. Over an empty visible list nothing moves: there
/// is no cursor and the selection stays. Otherwise the cursor decides: a
/// target row of the visible list becomes the cursor and its item the
/// selection; a target off the list clears both.
pub open spec fn moved<Sel: Item>(
    target: Option<usize>,
    selection: Option<Sel>,
    vis: Seq<Sel>,
    new_cursor: Option<usize>,
    new_selection: Option<Sel>,
) -> bool {
    if vis.len() == 0 {
        new_cursor is None && new_selection == selection
    } else if target is Some && target->0 < vis.len() {
        new_cursor == target && new_selection == Some(vis[target->0 as int])
    } else {
        new_cursor is None && new_selection is None
    }
}

/// A cursor step leaves cursor and selection consistent with the visible
/// items.
pub proof fn lemma_moved_is_consistent<Sel: Item>(
    target: Option<usize>,
    selection: Option<Sel>,
    vis: Seq<Sel>,
    new_cursor: Option<usize>,
    new_selection: Option<Sel>,
)
    requires
        moved(target, selection, vis, new_cursor, new_selection),
    ensures
        consistent(new_cursor, new_selection, vis),
{
}

/// Reconciliation changes nothing where cursor and selection are already
/// consistent with the visible items.
pub proof fn lemma_reconcile_keeps_consistent_state<Sel: Item>(
    cursor: Option<usize>,
    selection: Option<Sel>,
    vis: Seq<Sel>,
    new_cursor: Option<usize>,
    new_selection: Option<Sel>,
)
    requires
        consistent(cursor, selection, vis),
        reconciled(cursor, selection, vis, new_cursor, new_selection),
    ensures
        new_cursor == cursor,
        new_selection == selection,
{
}

/// A session as the contracts speak of it: the filter text, the full list,
/// the cursor and the selection.
pub struct Session<Sel> {
    pub filter: Seq<char>,
    pub items: Seq<Sel>,
    pub cursor: Option<usize>,
    pub selection: Option<Sel>,
}

impl<Sel: Item> Session<Sel> {
    /// The items of the visible list: the full list under the filter text.
    pub open spec fn visible_items(self) -> Seq<Sel> {
        items_of(project(self.items, self.filter))
    }

    /// Cursor and selection are consistent with the visible list.
    pub open spec fn is_consistent(self) -> bool {
        consistent(self.cursor, self.selection, self.visible_items())
    }
}

/// An input that changes a session.
pub enum Input<Sel> {
    EditFilter(Seq<char>),
    ReplaceList(Seq<Sel>),
    MoveUp,
    MoveDown,
    SetSelection(Option<Sel>),
}

/// The session `post` is what `input` makes of the session `pre`. An edited
/// filter and a replaced list reconcile the cursor and selection that were
/// there; a set selection is reconciled without a cursor, so that the value
/// given decides; a cursor step settles as `moved` says.
pub open spec fn steps<Sel: Item>(pre: Session<Sel>, input: Input<Sel>, post: Session<Sel>) -> bool {
    match input {
        Input::EditFilter(text) => {
            &&& post.filter == text
            &&& post.items == pre.items
            &&& reconciled(
                pre.cursor,
                pre.selection,
                post.visible_items(),
                post.cursor,
                post.selection,
            )
        },
        Input::ReplaceList(list) => {
            &&& post.filter == pre.filter
            &&& post.items == list
            &&& reconciled(
                pre.cursor,
                pre.selection,
                post.visible_items(),
                post.cursor,
                post.selection,
            )
        },
        Input::MoveUp => {
            &&& post.filter == pre.filter
            &&& post.items == pre.items
            &&& moved(
                cursor_up(pre.cursor, pre.visible_items().len()),
                pre.selection,
                pre.visible_items(),
                post.cursor,
                post.selection,
            )
        },
        Input::MoveDown => {
            &&& post.filter == pre.filter
            &&& post.items == pre.items
            &&& moved(
                cursor_down(pre.cursor),
                pre.selection,
                pre.visible_items(),
                post.cursor,
                post.selection,
            )
        },
        Input::SetSelection(value) => {
            &&& post.filter == pre.filter
            &&& post.items == pre.items
            &&& reconciled(None, value, pre.visible_items(), post.cursor, post.selection)
        },
    }
}

/// `states` are the sessions that `inputs` lead through, one after each
/// input, starting from `start`.
pub open spec fn follows<Sel: Item>(
    start: Session<Sel>,
    inputs: Seq<Input<Sel>>,
    states: Seq<Session<Sel>>,
) -> bool {
    &&& states.len() == inputs.len()
    &&& forall|i: int|
        0 <= i < inputs.len() ==> steps(
            if i == 0 {
                start
            } else {
                states[i - 1]
            },
            inputs[i],
            #[trigger] states[i],
        )
}

/// Whatever the session was, every input leaves its cursor and selection
/// consistent with the visible list.
pub proof fn lemma_step_is_consistent<Sel: Item>(
    pre: Session<Sel>,
    input: Input<Sel>,
    post: Session<Sel>,
)
    requires
        steps(pre, input, post),
    ensures
        post.is_consistent(),
{
}

/// Along every sequence of inputs, from any start, the session is consistent
/// after each input; so its cursor is never past the visible list.
pub proof fn lemma_every_state_is_consistent<Sel: Item>(
    start: Session<Sel>,
    inputs: Seq<Input<Sel>>,
    states: Seq<Session<Sel>>,
)
    requires
        follows(start, inputs, states),
    ensures
        forall|i: int| 0 <= i < states.len() ==> (#[trigger] states[i]).is_consistent(),
        forall|i: int|
            0 <= i < states.len() && (#[trigger] states[i]).cursor is Some ==> states[i].cursor->0
                < states[i].visible_items().len(),
{
    assert forall|i: int| 0 <= i < states.len() implies (#[trigger] states[i]).is_consistent() by {
        let pre = if i == 0 {
            start
        } else {
            states[i - 1]
        };
        lemma_step_is_consistent(pre, inputs[i], states[i]);
    }
}

/// A selection outlasts a filter that hides it. While no visible row holds
/// the selection and the cursor is not a row of the visible list,
/// reconciliation clears the cursor and keeps the selection; once a row holds
/// it again, reconciliation puts the cursor on the first such row.
pub proof fn lemma_selection_survives_refilter<Sel: Item>(
    cursor: Option<usize>,
    value: Sel,
    hidden: Seq<Sel>,
    shown: Seq<Sel>,
    mid_cursor: Option<usize>,
    mid_selection: Option<Sel>,
    end_cursor: Option<usize>,
    end_selection: Option<Sel>,
)
    requires
        cursor matches Some(i) ==> i >= hidden.len(),
        forall|k: int| 0 <= k < hidden.len() ==> !value.same_as(&#[trigger] hidden[k]),
        exists|k: int| 0 <= k < shown.len() && value.same_as(&#[trigger] shown[k]),
        reconciled(cursor, Some(value), hidden, mid_cursor, mid_selection),
        reconciled(mid_cursor, mid_selection, shown, end_cursor, end_selection),
    ensures
        mid_cursor is None,
        mid_selection == Some(value),
        is_first_same(shown, value, end_cursor),
        end_cursor matches Some(j) && end_selection == Some(shown[j as int]),
{
}

/// The signal that a step from the old cursor and selection to the new ones
/// raises.
pub fn signal_between<Sel: Item>(
    old_index: Option<usize>,
    new_index: Option<usize>,
    old_selection: &Option<Sel>,
    new_selection: &Option<Sel>,
) -> (signal: Signal)
    ensures
        signal == signal_spec(old_index, new_index, *old_selection, *new_selection),
{
    let same_selection = match (old_selection, new_selection) {
        (None, None) => true,
        (Some(c), Some(d)) => c.same(d),
        _ => false,
    };
    let same_index = match (old_index, new_index) {
        (None, None) => true,
        (Some(a), Some(b)) => a == b,
        _ => false,
    };
    if !same_selection {
        Signal::SelectionChanged
    } else if !same_index {
        Signal::CursorChanged
    } else {
        Signal::Unchanged
    }
}

/// The first row of `visible` that holds the same choice as `value`.
pub fn first_same<Sel: Item>(visible: &Vec<(Sel, Vec<RangeInclusive<usize>>)>, value: &Sel) -> (found:
    Option<usize>)
    ensures
        is_first_same(pair_items(visible@), *value, found),
{
    let mut k: usize = 0;
    while k < visible.len()
        invariant
            k <= visible.len(),
            forall|m: int| 0 <= m < k ==> !value.same_as(&#[trigger] pair_items(visible@)[m]),
        decreases visible.len() - k,
    {
        if value.same(&visible[k].0) {
            assert(pair_items(visible@)[k as int] == visible@[k as int].0);
            return Some(k);
        }
        assert(pair_items(visible@)[k as int] == visible@[k as int].0);
        k += 1;
    }
    None
}

/// The row that a step up aims at over `len` visible rows.
pub fn cursor_after_up(cursor: Option<usize>, len: usize) -> (moved: Option<usize>)
    ensures
        moved == cursor_up(cursor, len as nat),
{
    match cursor {
        None => if len > 0 {
            Some(len - 1)
        } else {
            None
        },
        Some(i) => i.checked_sub(1),
    }
}

/// The row that a step down aims at; it may lie past the visible list.
pub fn cursor_after_down(cursor: Option<usize>) -> (moved: Option<usize>)
    ensures
        moved == cursor_down(cursor),
{
    match cursor {
        None => Some(0),
        Some(i) => i.checked_add(1),
    }
}

/// Settles a cursor and a selection against the visible list.
pub fn reconcile<Sel: Item>(
    cursor: Option<usize>,
    selection: Option<Sel>,
    visible: &Vec<(Sel, Vec<RangeInclusive<usize>>)>,
) -> (settled: (Option<usize>, Option<Sel>))
    ensures
        reconciled(cursor, selection, pair_items(visible@), settled.0, settled.1),
        consistent(settled.0, settled.1, pair_items(visible@)),
{
    let in_range = match cursor {
        Some(i) => i < visible.len(),
        None => false,
    };
    if in_range {
        let i: usize = cursor.unwrap();
        (cursor, Some(visible[i].0.duplicate()))
    } else {
        match selection {
            Some(v) => match first_same(visible, &v) {
                Some(j) => (Some(j), Some(visible[j].0.duplicate())),
                None => (None, Some(v)),
            },
            None => (None, None),
        }
    }
}

/// Settles a cursor step towards `target` against the visible list.
pub fn move_cursor<Sel: Item>(
    target: Option<usize>,
    selection: Option<Sel>,
    visible: &Vec<(Sel, Vec<RangeInclusive<usize>>)>,
) -> (settled: (Option<usize>, Option<Sel>))
    ensures
        moved(target, selection, pair_items(visible@), settled.0, settled.1),
        consistent(settled.0, settled.1, pair_items(visible@)),
{
    if visible.len() == 0 {
        (None, selection)
    } else {
        match target {
            Some(i) => if i < visible.len() {
                (target, Some(visible[i].0.duplicate()))
            } else {
                (None, None)
            },
            None => (None, None),
        }
    }
}

/// The state of one picking session.
pub struct FilteredSelectionState<Sel> {
    filter: String,
    sel_index: Option<usize>,
    list: Vec<Sel>,
    selection: Option<Sel>,
}

impl<Sel: Item> FilteredSelectionState<Sel> {
    /// The filter text.
    pub closed spec fn filter_text(&self) -> Seq<char> {
        self.filter@
    }

    /// The full list.
    pub closed spec fn items(&self) -> Seq<Sel> {
        self.list@
    }

    /// The cursor: a row of the visible list, or none.
    pub closed spec fn cursor(&self) -> Option<usize> {
        self.sel_index
    }

    /// The chosen value.
    pub closed spec fn selection(&self) -> Option<Sel> {
        self.selection
    }

    /// The session as the contracts speak of it.
    pub open spec fn session(&self) -> Session<Sel> {
        Session {
            filter: self.filter_text(),
            items: self.items(),
            cursor: self.cursor(),
            selection: self.selection(),
        }
    }

    /// The visible list: the full list under the filter text.
    pub open spec fn visible(&self) -> Seq<(Sel, Seq<RangeInclusiveView<usize>>)> {
        project(self.items(), self.filter_text())
    }

    /// The items of the visible list.
    pub open spec fn visible_items(&self) -> Seq<Sel> {
        items_of(self.visible())
    }

    /// Cursor and selection are consistent with the visible list.
    pub open spec fn is_consistent(&self) -> bool {
        consistent(self.cursor(), self.selection(), self.visible_items())
    }

    /// A session over `list`: empty filter, no cursor, nothing selected, and
    /// so every item visible.
    pub fn new(list: Vec<Sel>) -> (state: Self)
        ensures
            state.filter_text().len() == 0,
            state.items() == list@,
            state.cursor() is None,
            state.selection() is None,
            state.visible_items() == list@,
            state.is_consistent(),
    {
        proof {
            lemma_empty_filter_keeps_all(list@, Seq::<char>::empty());
            assert(items_of(project(list@, Seq::<char>::empty())) == list@);
        }
        FilteredSelectionState { filter: String::new(), sel_index: None, list, selection: None }
    }

    /// A session with the given filter text and full list, its cursor and
    /// selection reconciled from the values given.
    pub fn restore(
        filter: String,
        sel_index: Option<usize>,
        list: Vec<Sel>,
        selection: Option<Sel>,
    ) -> (state: Self)
        ensures
            state.filter_text() == filter@,
            state.items() == list@,
            reconciled(
                sel_index,
                selection,
                state.visible_items(),
                state.cursor(),
                state.selection(),
            ),
            state.is_consistent(),
    {
        let visible = FilteredLens.matched_pairs(&list, &filter);
        assert(pair_items(visible@) == items_of(pairs_view(visible@)));
        let (index, chosen) = reconcile(sel_index, selection, &visible);
        FilteredSelectionState { filter, sel_index: index, list, selection: chosen }
    }

    fn compute_visible(&self) -> (pairs: Vec<(Sel, Vec<RangeInclusive<usize>>)>)
        ensures
            pairs_view(pairs@) == self.visible(),
            pair_items(pairs@) == self.visible_items(),
    {
        let pairs = FilteredLens.matched_pairs(&self.list, &self.filter);
        assert(pair_items(pairs@) == items_of(pairs_view(pairs@)));
        pairs
    }

    fn commit(&mut self, new_index: Option<usize>, new_selection: Option<Sel>) -> (signal: Signal)
        ensures
            final(self).filter_text() == old(self).filter_text(),
            final(self).items() == old(self).items(),
            final(self).cursor() == new_index,
            final(self).selection() == new_selection,
            signal == signal_spec(
                old(self).cursor(),
                new_index,
                old(self).selection(),
                new_selection,
            ),
    {
        let signal = signal_between(self.sel_index, new_index, &self.selection, &new_selection);
        self.sel_index = new_index;
        self.selection = new_selection;
        signal
    }

    /// Replaces the filter text and reconciles.
    pub fn edit_filter(&mut self, text: String) -> (signal: Signal)
        ensures
            steps(old(self).session(), Input::EditFilter(text@), final(self).session()),
            final(self).is_consistent(),
            signal == signal_spec(
                old(self).cursor(),
                final(self).cursor(),
                old(self).selection(),
                final(self).selection(),
            ),
    {
        self.filter = text;
        let visible = self.compute_visible();
        let selection = duplicate_option(&self.selection);
        let (index, chosen) = reconcile(self.sel_index, selection, &visible);
        self.commit(index, chosen)
    }

    /// Replaces the full list and reconciles.
    pub fn replace_list(&mut self, list: Vec<Sel>) -> (signal: Signal)
        ensures
            steps(old(self).session(), Input::ReplaceList(list@), final(self).session()),
            final(self).is_consistent(),
            signal == signal_spec(
                old(self).cursor(),
                final(self).cursor(),
                old(self).selection(),
                final(self).selection(),
            ),
    {
        self.list = list;
        let visible = self.compute_visible();
        let selection = duplicate_option(&self.selection);
        let (index, chosen) = reconcile(self.sel_index, selection, &visible);
        self.commit(index, chosen)
    }

    /// Moves the cursor one row up. From no cursor it goes to the last visible
    /// row; from the top row it is cleared, and the selection with it. Over an
    /// empty visible list nothing moves.
    pub fn move_up(&mut self) -> (signal: Signal)
        ensures
            steps(old(self).session(), Input::MoveUp, final(self).session()),
            final(self).is_consistent(),
            signal == signal_spec(
                old(self).cursor(),
                final(self).cursor(),
                old(self).selection(),
                final(self).selection(),
            ),
    {
        let visible = self.compute_visible();
        let target = cursor_after_up(self.sel_index, visible.len());
        let selection = duplicate_option(&self.selection);
        let (index, chosen) = move_cursor(target, selection, &visible);
        self.commit(index, chosen)
    }

    /// Moves the cursor one row down. From no cursor it goes to the top row;
    /// from the last visible row it is cleared, and the selection with it.
    /// Over an empty visible list nothing moves.
    pub fn move_down(&mut self) -> (signal: Signal)
        ensures
            steps(old(self).session(), Input::MoveDown, final(self).session()),
            final(self).is_consistent(),
            signal == signal_spec(
                old(self).cursor(),
                final(self).cursor(),
                old(self).selection(),
                final(self).selection(),
            ),
    {
        let visible = self.compute_visible();
        let target = cursor_after_down(self.sel_index);
        let selection = duplicate_option(&self.selection);
        let (index, chosen) = move_cursor(target, selection, &visible);
        self.commit(index, chosen)
    }

    /// Sets the selection from outside and reconciles: the cursor goes to the
    /// first visible row that holds `value`, or is cleared where no row does
    /// or `value` is `None`.
    pub fn set_selection(&mut self, value: Option<Sel>) -> (signal: Signal)
        ensures
            steps(old(self).session(), Input::SetSelection(value), final(self).session()),
            final(self).is_consistent(),
            signal == signal_spec(
                old(self).cursor(),
                final(self).cursor(),
                old(self).selection(),
                final(self).selection(),
            ),
    {
        let visible = self.compute_visible();
        let (index, chosen) = reconcile(None, value, &visible);
        self.commit(index, chosen)
    }

    /// Ends the session with the current selection as its result.
    pub fn confirm(self) -> (result: Option<Sel>)
        ensures
            result == self.selection(),
    {
        self.selection
    }

    /// Ends the session without a result: cancelling clears the selection.
    pub fn cancel(self) -> (result: Option<Sel>)
        ensures
            result is None,
    {
        None
    }

    /// The visible list, for rendering rows and highlights.
    pub fn visible_list(&self) -> (pairs: Vec<(Sel, Vec<RangeInclusive<usize>>)>)
        ensures
            pairs_view(pairs@) == self.visible(),
    {
        self.compute_visible()
    }

    /// The row to mark as current.
    pub fn cursor_index(&self) -> (index: Option<usize>)
        ensures
            index == self.cursor(),
    {
        self.sel_index
    }

    /// The value that the session currently reports as chosen.
    pub fn current_selection(&self) -> (chosen: Option<Sel>)
        ensures
            chosen == self.selection(),
    {
        duplicate_option(&self.selection)
    }

    /// The full list.
    pub fn list(&self) -> (list: &Vec<Sel>)
        ensures
            list@ == self.items(),
    {
        &self.list
    }

    /// The filter text.
    pub fn filter(&self) -> (text: &str)
        ensures
            text@ == self.filter_text(),
    {
        self.filter.as_str()
    }
}

} // verus!
