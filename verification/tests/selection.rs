use branch_picker::selection::{initial_selection, initial_state};
use branch_picker::{select_next, select_prev, PickerError};
use tui::widgets::ListState;

fn state_at(index: Option<usize>) -> ListState {
    let mut state = ListState::default();
    state.select(index);
    state
}

fn after_next(items_len: usize, index: Option<usize>) -> Option<usize> {
    let mut state = state_at(index);
    select_next(items_len, &mut state);
    state.selected()
}

fn after_prev(items_len: usize, index: Option<usize>) -> Option<usize> {
    let mut state = state_at(index);
    select_prev(items_len, &mut state);
    state.selected()
}

fn names(list: &[&str]) -> Vec<String> {
    list.iter().map(|name| name.to_string()).collect()
}

#[test]
fn next_moves_down_and_wraps() {
    assert_eq!(after_next(3, Some(0)), Some(1));
    assert_eq!(after_next(3, Some(1)), Some(2));
    assert_eq!(after_next(3, Some(2)), Some(0));
}

#[test]
fn prev_moves_up_and_wraps() {
    assert_eq!(after_prev(3, Some(0)), Some(2));
    assert_eq!(after_prev(3, Some(1)), Some(0));
    assert_eq!(after_prev(3, Some(2)), Some(1));
}

#[test]
fn moves_in_a_single_entry_list_stay_put() {
    assert_eq!(after_next(1, Some(0)), Some(0));
    assert_eq!(after_prev(1, Some(0)), Some(0));
}

#[test]
fn moves_without_a_selection_select_the_first_entry() {
    assert_eq!(after_next(3, None), Some(0));
    assert_eq!(after_prev(3, None), Some(0));
    assert_eq!(after_next(0, None), Some(0));
    assert_eq!(after_prev(0, None), Some(0));
}

#[test]
fn moves_follow_the_modular_formula() {
    for n in 1..=8usize {
        for i in 0..n {
            assert_eq!(after_next(n, Some(i)), Some((i + 1) % n));
            assert_eq!(after_prev(n, Some(i)), Some((i + n - 1) % n));
        }
    }
}

#[test]
fn next_and_prev_undo_each_other() {
    for n in 1..=8usize {
        for i in 0..n {
            let mut state = state_at(Some(i));
            select_next(n, &mut state);
            select_prev(n, &mut state);
            assert_eq!(state.selected(), Some(i));
            select_prev(n, &mut state);
            select_next(n, &mut state);
            assert_eq!(state.selected(), Some(i));
        }
    }
}

#[test]
fn moves_from_an_index_past_the_end() {
    assert_eq!(after_next(3, Some(7)), Some(0));
    assert_eq!(after_prev(3, Some(7)), Some(6));
    assert_eq!(after_next(3, Some(usize::MAX)), Some(0));
}

#[test]
fn a_move_changes_the_stored_selection() {
    let mut state = state_at(Some(4));
    select_next(10, &mut state);
    assert_ne!(state.selected(), Some(4));
    assert_eq!(state.selected(), Some(5));
}

#[test]
fn initial_selection_is_the_current_branch() {
    let listing = names(&["main", "dev", "feat/x"]);
    assert_eq!(initial_selection(&listing, "dev"), Ok(1));
    assert_eq!(initial_selection(&listing, "main"), Ok(0));
    assert_eq!(initial_selection(&listing, "feat/x"), Ok(2));
}

#[test]
fn initial_selection_fails_on_a_branch_that_is_not_listed() {
    let listing = names(&["main", "dev", "feat/x"]);
    assert_eq!(initial_selection(&listing, "release"), Err(PickerError::BranchNotFound));
    assert_eq!(initial_selection(&listing, "de"), Err(PickerError::BranchNotFound));
    assert_eq!(initial_selection(&listing, "Dev"), Err(PickerError::BranchNotFound));
}

#[test]
fn initial_selection_fails_on_an_empty_listing() {
    let listing: Vec<String> = Vec::new();
    assert_eq!(initial_selection(&listing, "main"), Err(PickerError::EmptyListing));
    assert_eq!(initial_selection(&listing, ""), Err(PickerError::EmptyListing));
    assert!(initial_state(&listing, "main").is_err());
}

#[test]
fn initial_selection_fails_on_an_empty_current_branch() {
    let listing = names(&["main", "dev"]);
    assert_eq!(initial_selection(&listing, ""), Err(PickerError::CurrentBranchUnreadable));
}

#[test]
fn initial_selection_takes_the_first_of_equal_names() {
    let listing = names(&["dev", "main", "dev", "main"]);
    assert_eq!(initial_selection(&listing, "main"), Ok(1));
    assert_eq!(initial_selection(&listing, "dev"), Ok(0));
}

#[test]
fn initial_state_selects_the_current_branch() {
    let listing = names(&["main", "dev", "feat/x"]);
    let state = initial_state(&listing, "dev").unwrap();
    assert_eq!(state.selected(), Some(1));
    let missing = initial_state(&listing, "gone");
    assert_eq!(missing.err(), Some(PickerError::BranchNotFound));
}
