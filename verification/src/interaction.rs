//! The picker's reaction to one key press.
//!
//! The caller draws the list, waits for a key and hands it to `try_step`,
//! again and again while the state it gets back is `Running`.

use crate::selection::{
    in_range, next_index, prev_index, scroll_offset, select_next, select_prev, selected_index,
};
use tui::widgets::ListState;
use vstd::prelude::*;

verus! {

/// A key press, as far as the picker tells keys apart.
#[derive(Debug, Clone, Copy, PartialEq, Eq)]
pub enum Key {
    /// The down arrow.
    Down,
    /// The up arrow.
    Up,
    /// The escape key.
    Esc,
    /// A character typed while the control key was held.
    Ctrl(char),
    /// A character.
    Char(char),
    /// Any other key.
    Other,
}

/// What a key press asks of the picker.
#[derive(Debug, Clone, Copy, PartialEq, Eq)]
pub enum Action {
    /// Select the entry below.
    SelectNext,
    /// Select the entry above.
    SelectPrevious,
    /// Leave without a checkout.
    Cancel,
    /// Check out the selected entry.
    Confirm,
    /// Nothing.
    Ignore,
}

/// Where the picker stands after a key press.
#[derive(Debug, Clone, Copy, PartialEq, Eq)]
pub enum LoopState {
    /// It waits for the next key.
    Running,
    /// The entry at this index was chosen for checkout.
    Confirmed(usize),
    /// The user left without choosing.
    Cancelled,
}

/// The action bound to each key: the arrows move, escape, control-c and `q`
/// cancel, the enter key confirms (it arrives as a line feed or a carriage
/// return), and every other key does nothing.
pub open spec fn action_of(key: Key) -> Action {
    match key {
        Key::Down => Action::SelectNext,
        Key::Up => Action::SelectPrevious,
        Key::Esc => Action::Cancel,
        Key::Ctrl(c) => if c == 'c' {
            Action::Cancel
        } else {
            Action::Ignore
        },
        Key::Char(c) => if c == 'q' {
            Action::Cancel
        } else if c == '\n' || c == '\r' {
            Action::Confirm
        } else {
            Action::Ignore
        },
        Key::Other => Action::Ignore,
    }
}

/// Looks up the action bound to `key`.
pub fn action_for(key: Key) -> (action: Action)
    ensures
        action == action_of(key),
{
    match key {
        Key::Down => Action::SelectNext,
        Key::Up => Action::SelectPrevious,
        Key::Esc => Action::Cancel,
        Key::Ctrl(c) => if c == 'c' {
            Action::Cancel
        } else {
            Action::Ignore
        },
        Key::Char(c) => if c == 'q' {
            Action::Cancel
        } else if c == '\n' || c == '\r' {
            Action::Confirm
        } else {
            Action::Ignore
        },
        Key::Other => Action::Ignore,
    }
}

/// The picker as a state machine: what a key press makes of the selection
/// in a list of `len` entries, and where the picker stands after it. A move
/// changes the selection and the picker runs on; a confirmation ends it with
/// the index that is selected; a cancellation ends it with nothing; any
/// other key leaves everything as it is.
pub open spec fn transition(len: usize, selected: Option<usize>, key: Key) -> (
    Option<usize>,
    LoopState,
)
    recommends
        in_range(len, selected),
{
    match action_of(key) {
        Action::SelectNext => (Some(next_index(len, selected)), LoopState::Running),
        Action::SelectPrevious => (Some(prev_index(len, selected)), LoopState::Running),
        Action::Cancel => (selected, LoopState::Cancelled),
        Action::Confirm => (selected, LoopState::Confirmed(selected->0)),
        Action::Ignore => (selected, LoopState::Running),
    }
}

/// While an entry of the list is selected, every key press leaves an entry
/// of the list selected, and a confirmation names an entry of the list.
pub proof fn lemma_transition_keeps_selection_in_range(
    len: usize,
    selected: Option<usize>,
    key: Key,
)
    requires
        in_range(len, selected),
    ensures
        in_range(len, transition(len, selected, key).0),
        transition(len, selected, key).1 matches LoopState::Confirmed(index) ==> index < len
            && selected == Some(index),
{
}

/// Reacts to one key press while the picker is running, on a list of
/// `items_len` entries one of which is selected.
pub fn step(items_len: usize, list_state: &mut ListState, key: Key) -> (next: LoopState)
    requires
        in_range(items_len, selected_index(*old(list_state))),
    ensures
        (selected_index(*final(list_state)), next) == transition(
            items_len,
            selected_index(*old(list_state)),
            key,
        ),
        scroll_offset(*final(list_state)) == scroll_offset(*old(list_state)),
        in_range(items_len, selected_index(*final(list_state))),
        next matches LoopState::Confirmed(index) ==> index < items_len,
{
    match action_for(key) {
        Action::SelectNext => {
            select_next(items_len, list_state);
            LoopState::Running
        },
        Action::SelectPrevious => {
            select_prev(items_len, list_state);
            LoopState::Running
        },
        Action::Cancel => LoopState::Cancelled,
        Action::Confirm => LoopState::Confirmed(list_state.selected().unwrap()),
        Action::Ignore => LoopState::Running,
    }
}

/// Reacts to one key press as `step` does, after making sure that an entry
/// of the list is selected. Where none is, the picker is in no state it can
/// run from: nothing is changed and nothing comes back.
pub fn try_step(items_len: usize, list_state: &mut ListState, key: Key) -> (next: Option<
    LoopState,
>)
    ensures
        next is Some <==> in_range(items_len, selected_index(*old(list_state))),
        next is None ==> *final(list_state) == *old(list_state),
        next matches Some(state) ==> {
            &&& (selected_index(*final(list_state)), state) == transition(
                items_len,
                selected_index(*old(list_state)),
                key,
            )
            &&& scroll_offset(*final(list_state)) == scroll_offset(*old(list_state))
            &&& in_range(items_len, selected_index(*final(list_state)))
            &&& state matches LoopState::Confirmed(index) ==> index < items_len
        },
{
    match list_state.selected() {
        Some(index) => {
            if index < items_len {
                Some(step(items_len, list_state, key))
            } else {
                None
            }
        },
        None => None,
    }
}

} // verus!
