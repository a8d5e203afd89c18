use picklist::item::{FuzzyMatchable, Item};
use picklist::selection::{
    cursor_after_down, cursor_after_up, first_same, move_cursor, reconcile, signal_between,
    FilteredSelectionState, Signal,
};
use std::ops::RangeInclusive;
use std::rc::Rc;

fn sample() -> Vec<String> {
    vec!["foobar".to_string(), "foobaz".to_string(), "foofarah".to_string()]
}

fn rows(items: &[&str]) -> Vec<(String, Vec<RangeInclusive<usize>>)> {
    items.iter().map(|s| (s.to_string(), Vec::new())).collect()
}

fn visible_items(state: &FilteredSelectionState<String>) -> Vec<String> {
    state.visible_list().into_iter().map(|(item, _)| item).collect()
}

fn holds_invariants(state: &FilteredSelectionState<String>) {
    let visible = visible_items(state);
    match state.cursor_index() {
        Some(i) => {
            assert!(i < visible.len());
            assert_eq!(state.current_selection(), Some(visible[i].clone()));
        }
        None => {
            if let Some(v) = state.current_selection() {
                assert!(!visible.contains(&v));
            }
        }
    }
    if visible.is_empty() {
        assert_eq!(state.cursor_index(), None);
    }
}

#[test]
fn new_session_starts_empty() {
    let state = FilteredSelectionState::new(sample());
    assert_eq!(state.filter(), "");
    assert_eq!(state.cursor_index(), None);
    assert_eq!(state.current_selection(), None);
    assert_eq!(visible_items(&state), sample());
    holds_invariants(&state);
}

#[test]
fn up_and_down_at_the_boundaries() {
    let mut state = FilteredSelectionState::new(sample());
    assert_eq!(state.move_up(), Signal::SelectionChanged);
    assert_eq!(state.cursor_index(), Some(2));
    assert_eq!(state.move_up(), Signal::SelectionChanged);
    assert_eq!(state.cursor_index(), Some(1));
    state.move_up();
    assert_eq!(state.cursor_index(), Some(0));
    assert_eq!(state.move_up(), Signal::SelectionChanged);
    assert_eq!(state.cursor_index(), None);
    assert_eq!(state.current_selection(), None);
    holds_invariants(&state);

    let mut state = FilteredSelectionState::new(sample());
    state.move_down();
    assert_eq!(state.cursor_index(), Some(0));
    state.move_down();
    state.move_down();
    assert_eq!(state.cursor_index(), Some(2));
    assert_eq!(state.current_selection(), Some("foofarah".to_string()));
    state.move_down();
    assert_eq!(state.cursor_index(), None);
    assert_eq!(state.current_selection(), None);
    holds_invariants(&state);
}

#[test]
fn moving_over_an_empty_visible_list_keeps_the_selection() {
    let mut state = FilteredSelectionState::new(sample());
    state.move_down();
    state.edit_filter("foofarah".to_string());
    state.edit_filter("nothing matches this".to_string());
    assert_eq!(state.cursor_index(), None);
    assert_eq!(state.current_selection(), Some("foofarah".to_string()));
    assert_eq!(state.move_up(), Signal::Unchanged);
    assert_eq!(state.move_down(), Signal::Unchanged);
    assert_eq!(state.cursor_index(), None);
    assert_eq!(state.current_selection(), Some("foofarah".to_string()));
}

#[test]
fn move_cursor_settles_the_step() {
    let visible = rows(&["a", "b", "c"]);
    let b = Some("b".to_string());
    assert_eq!(move_cursor(Some(2), b.clone(), &visible), (Some(2), Some("c".to_string())));
    assert_eq!(move_cursor(Some(3), b.clone(), &visible), (None, None));
    assert_eq!(move_cursor(None, b.clone(), &visible), (None, None));
    assert_eq!(move_cursor(Some(0), b.clone(), &rows(&[])), (None, b.clone()));
    assert_eq!(move_cursor(None, b.clone(), &rows(&[])), (None, b.clone()));
}

#[test]
fn moving_on_an_empty_list_changes_nothing() {
    let mut state: FilteredSelectionState<String> = FilteredSelectionState::new(Vec::new());
    assert_eq!(state.move_up(), Signal::Unchanged);
    assert_eq!(state.cursor_index(), None);
    assert_eq!(state.move_down(), Signal::Unchanged);
    assert_eq!(state.cursor_index(), None);
    assert_eq!(state.current_selection(), None);
}

#[test]
fn selection_survives_refilter() {
    let mut state = FilteredSelectionState::new(sample());
    state.move_up();
    assert_eq!(state.cursor_index(), Some(2));
    assert_eq!(state.current_selection(), Some("foofarah".to_string()));

    let signal = state.edit_filter("foob".to_string());
    assert_eq!(signal, Signal::CursorChanged);
    assert_eq!(visible_items(&state), vec!["foobar".to_string(), "foobaz".to_string()]);
    assert_eq!(state.cursor_index(), None);
    assert_eq!(state.current_selection(), Some("foofarah".to_string()));
    holds_invariants(&state);

    state.edit_filter("farah".to_string());
    assert_eq!(visible_items(&state), vec!["foofarah".to_string()]);
    assert_eq!(state.cursor_index(), Some(0));
    assert_eq!(state.current_selection(), Some("foofarah".to_string()));
    holds_invariants(&state);
}

#[test]
fn end_to_end_pick() {
    let mut state = FilteredSelectionState::new(sample());
    state.edit_filter("foob".to_string());
    assert_eq!(state.filter(), "foob");
    assert_eq!(
        state.visible_list(),
        vec![
            ("foobar".to_string(), vec![0..=3]),
            ("foobaz".to_string(), vec![0..=3]),
        ]
    );
    state.move_down();
    assert_eq!(state.cursor_index(), Some(0));
    assert_eq!(state.current_selection(), Some("foobar".to_string()));
    assert_eq!(state.confirm(), Some("foobar".to_string()));
}

#[test]
fn cancel_reports_no_selection() {
    let mut state = FilteredSelectionState::new(sample());
    state.move_down();
    assert_eq!(state.current_selection(), Some("foobar".to_string()));
    assert_eq!(state.cancel(), None);
}

#[test]
fn confirm_without_selection_reports_none() {
    let state = FilteredSelectionState::new(sample());
    assert_eq!(state.confirm(), None);
}

#[test]
fn set_selection_moves_the_cursor_to_the_value() {
    let mut state = FilteredSelectionState::new(sample());
    let signal = state.set_selection(Some("foobaz".to_string()));
    assert_eq!(signal, Signal::SelectionChanged);
    assert_eq!(state.cursor_index(), Some(1));
    assert_eq!(state.current_selection(), Some("foobaz".to_string()));
    holds_invariants(&state);

    let signal = state.set_selection(None);
    assert_eq!(signal, Signal::SelectionChanged);
    assert_eq!(state.cursor_index(), None);
    assert_eq!(state.current_selection(), None);
}

#[test]
fn set_selection_of_an_absent_value_is_remembered() {
    let mut state = FilteredSelectionState::new(sample());
    state.move_down();
    state.set_selection(Some("quux".to_string()));
    assert_eq!(state.cursor_index(), None);
    assert_eq!(state.current_selection(), Some("quux".to_string()));
    holds_invariants(&state);

    state.replace_list(vec!["bar".to_string(), "quux".to_string()]);
    assert_eq!(state.cursor_index(), Some(1));
    assert_eq!(state.current_selection(), Some("quux".to_string()));
    holds_invariants(&state);
}

#[test]
fn set_selection_picks_the_first_of_equal_rows() {
    let list = vec!["a".to_string(), "b".to_string(), "b".to_string()];
    let mut state = FilteredSelectionState::new(list);
    state.move_up();
    assert_eq!(state.cursor_index(), Some(2));
    state.set_selection(Some("b".to_string()));
    assert_eq!(state.cursor_index(), Some(1));
}

#[test]
fn cursor_in_range_decides_the_selection_after_an_edit() {
    let mut state = FilteredSelectionState::new(sample());
    state.move_down();
    assert_eq!(state.current_selection(), Some("foobar".to_string()));
    let signal = state.edit_filter("farah".to_string());
    assert_eq!(signal, Signal::SelectionChanged);
    assert_eq!(state.cursor_index(), Some(0));
    assert_eq!(state.current_selection(), Some("foofarah".to_string()));
    holds_invariants(&state);
}

#[test]
fn replacing_the_list_under_the_cursor_clears_it() {
    let mut state = FilteredSelectionState::new(sample());
    state.move_up();
    let signal = state.replace_list(vec!["only".to_string()]);
    assert_eq!(signal, Signal::CursorChanged);
    assert_eq!(state.cursor_index(), None);
    assert_eq!(state.current_selection(), Some("foofarah".to_string()));
    holds_invariants(&state);
}

#[test]
fn invariants_hold_along_a_run_of_inputs() {
    let mut state = FilteredSelectionState::new(sample());
    holds_invariants(&state);
    state.move_down();
    holds_invariants(&state);
    state.edit_filter("z".to_string());
    holds_invariants(&state);
    state.move_down();
    holds_invariants(&state);
    state.edit_filter("nothing matches this".to_string());
    holds_invariants(&state);
    assert_eq!(state.cursor_index(), None);
    state.move_up();
    holds_invariants(&state);
    state.set_selection(Some("foobar".to_string()));
    holds_invariants(&state);
    state.edit_filter(String::new());
    holds_invariants(&state);
    assert_eq!(state.cursor_index(), Some(0));
    state.replace_list(Vec::new());
    holds_invariants(&state);
    assert_eq!(state.cursor_index(), None);
}

#[test]
fn unchanged_input_raises_no_signal() {
    let mut state = FilteredSelectionState::new(sample());
    state.move_down();
    assert_eq!(state.edit_filter("foo".to_string()), Signal::Unchanged);
    assert_eq!(state.set_selection(Some("foobar".to_string())), Signal::Unchanged);
}

#[test]
fn signal_prefers_selection_over_cursor() {
    let a = Some("a".to_string());
    let b = Some("b".to_string());
    let none: Option<String> = None;
    assert_eq!(signal_between(None, None, &none, &none), Signal::Unchanged);
    assert_eq!(signal_between(Some(1), Some(1), &none, &none), Signal::Unchanged);
    assert_eq!(signal_between(None, None, &a, &a), Signal::Unchanged);
    assert_eq!(signal_between(Some(2), Some(2), &a, &a), Signal::Unchanged);
    assert_eq!(signal_between(Some(1), Some(2), &a, &a), Signal::CursorChanged);
    assert_eq!(signal_between(Some(1), None, &none, &none), Signal::CursorChanged);
    assert_eq!(signal_between(None, Some(0), &a, &a), Signal::CursorChanged);
    assert_eq!(signal_between(Some(1), Some(2), &a, &b), Signal::SelectionChanged);
    assert_eq!(signal_between(Some(1), Some(1), &a, &b), Signal::SelectionChanged);
    assert_eq!(signal_between(None, None, &a, &none), Signal::SelectionChanged);
    assert_eq!(signal_between(None, Some(0), &none, &a), Signal::SelectionChanged);
}

#[test]
fn cursor_steps() {
    assert_eq!(cursor_after_up(None, 3), Some(2));
    assert_eq!(cursor_after_up(None, 0), None);
    assert_eq!(cursor_after_up(Some(2), 3), Some(1));
    assert_eq!(cursor_after_up(Some(0), 3), None);
    assert_eq!(cursor_after_down(None), Some(0));
    assert_eq!(cursor_after_down(Some(4)), Some(5));
    assert_eq!(cursor_after_down(Some(usize::MAX)), None);
}

#[test]
fn first_same_finds_the_first_row() {
    let visible = rows(&["a", "b", "c", "b"]);
    assert_eq!(first_same(&visible, &"b".to_string()), Some(1));
    assert_eq!(first_same(&visible, &"a".to_string()), Some(0));
    assert_eq!(first_same(&visible, &"z".to_string()), None);
    assert_eq!(first_same(&rows(&[]), &"a".to_string()), None);
}

#[test]
fn reconcile_settles_cursor_and_selection() {
    let visible = rows(&["a", "b", "c"]);
    let b = Some("b".to_string());
    assert_eq!(reconcile(Some(2), b.clone(), &visible), (Some(2), Some("c".to_string())));
    assert_eq!(reconcile(Some(3), b.clone(), &visible), (Some(1), b.clone()));
    assert_eq!(reconcile(None, b.clone(), &visible), (Some(1), b.clone()));
    assert_eq!(reconcile(None, Some("z".to_string()), &visible), (None, Some("z".to_string())));
    assert_eq!(reconcile(Some(7), None, &visible), (None, None));
    assert_eq!(reconcile(Some(0), None, &rows(&[])), (None, None));
    assert_eq!(reconcile(None, None, &visible), (None, None));
}

#[test]
fn restore_reconciles_what_it_is_given() {
    let state = FilteredSelectionState::restore(
        "foob".to_string(),
        Some(5),
        sample(),
        Some("foobaz".to_string()),
    );
    assert_eq!(state.filter(), "foob");
    assert_eq!(state.list(), &sample());
    assert_eq!(state.cursor_index(), Some(1));
    assert_eq!(state.current_selection(), Some("foobaz".to_string()));
    holds_invariants(&state);

    let state = FilteredSelectionState::restore(
        String::new(),
        Some(2),
        sample(),
        Some("foobar".to_string()),
    );
    assert_eq!(state.cursor_index(), Some(2));
    assert_eq!(state.current_selection(), Some("foofarah".to_string()));

    let state =
        FilteredSelectionState::restore("xyz".to_string(), None, sample(), Some("foobar".to_string()));
    assert_eq!(state.cursor_index(), None);
    assert_eq!(state.current_selection(), Some("foobar".to_string()));
}

#[test]
fn shared_items_are_picked_by_value() {
    let list: Vec<Rc<String>> = sample().into_iter().map(Rc::new).collect();
    let mut state = FilteredSelectionState::new(list);
    state.set_selection(Some(Rc::new("foobaz".to_string())));
    assert_eq!(state.cursor_index(), Some(1));
    state.edit_filter("baz".to_string());
    assert_eq!(state.cursor_index(), Some(0));
    assert_eq!(state.confirm(), Some(Rc::new("foobaz".to_string())));
}

#[derive(Debug, PartialEq)]
struct Entry {
    id: u32,
    label: String,
}

impl FuzzyMatchable for Entry {
    fn match_against(&self) -> &str {
        &self.label
    }
}

impl Item for Entry {
    fn same(&self, other: &Self) -> bool {
        self.id == other.id
    }

    fn duplicate(&self) -> Self {
        Entry { id: self.id, label: self.label.clone() }
    }
}

fn entry(id: u32, label: &str) -> Entry {
    Entry { id, label: label.to_string() }
}

#[test]
fn selection_is_tracked_by_the_items_own_equality() {
    let list = vec![entry(1, "foobar"), entry(2, "foobar"), entry(3, "quux")];
    let mut state = FilteredSelectionState::new(list);
    state.set_selection(Some(entry(2, "renamed")));
    assert_eq!(state.cursor_index(), Some(1));
    assert_eq!(state.current_selection(), Some(entry(2, "foobar")));
    state.edit_filter("quux".to_string());
    assert_eq!(state.cursor_index(), None);
    assert_eq!(state.current_selection(), Some(entry(2, "foobar")));
    state.edit_filter("bar".to_string());
    assert_eq!(state.cursor_index(), Some(1));
    assert_eq!(state.confirm(), Some(entry(2, "foobar")));
}
