use branch_picker::interaction::{action_for, step, Action, Key, LoopState};
use tui::widgets::ListState;

fn state_at(index: usize) -> ListState {
    let mut state = ListState::default();
    state.select(Some(index));
    state
}

#[test]
fn each_key_has_its_action() {
    assert_eq!(action_for(Key::Down), Action::SelectNext);
    assert_eq!(action_for(Key::Up), Action::SelectPrevious);
    assert_eq!(action_for(Key::Esc), Action::Cancel);
    assert_eq!(action_for(Key::Ctrl('c')), Action::Cancel);
    assert_eq!(action_for(Key::Char('q')), Action::Cancel);
    assert_eq!(action_for(Key::Char('\n')), Action::Confirm);
    assert_eq!(action_for(Key::Char('\r')), Action::Confirm);
}

#[test]
fn other_keys_do_nothing() {
    assert_eq!(action_for(Key::Other), Action::Ignore);
    assert_eq!(action_for(Key::Char('c')), Action::Ignore);
    assert_eq!(action_for(Key::Char('Q')), Action::Ignore);
    assert_eq!(action_for(Key::Char(' ')), Action::Ignore);
    assert_eq!(action_for(Key::Ctrl('q')), Action::Ignore);
    assert_eq!(action_for(Key::Ctrl('\n')), Action::Ignore);
}

#[test]
fn down_down_enter_confirms_the_wrapped_entry() {
    let mut state = state_at(1);
    assert_eq!(step(3, &mut state, Key::Down), LoopState::Running);
    assert_eq!(state.selected(), Some(2));
    assert_eq!(step(3, &mut state, Key::Down), LoopState::Running);
    assert_eq!(state.selected(), Some(0));
    assert_eq!(step(3, &mut state, Key::Char('\n')), LoopState::Confirmed(0));
    assert_eq!(state.selected(), Some(0));
}

#[test]
fn quit_as_first_key_cancels() {
    let mut state = state_at(1);
    assert_eq!(step(3, &mut state, Key::Char('q')), LoopState::Cancelled);
    assert_eq!(state.selected(), Some(1));
}

#[test]
fn escape_and_interrupt_cancel() {
    let mut state = state_at(2);
    assert_eq!(step(3, &mut state, Key::Esc), LoopState::Cancelled);
    assert_eq!(step(3, &mut state, Key::Ctrl('c')), LoopState::Cancelled);
    assert_eq!(state.selected(), Some(2));
}

#[test]
fn up_moves_and_wraps_to_the_last_entry() {
    let mut state = state_at(1);
    assert_eq!(step(3, &mut state, Key::Up), LoopState::Running);
    assert_eq!(state.selected(), Some(0));
    assert_eq!(step(3, &mut state, Key::Up), LoopState::Running);
    assert_eq!(state.selected(), Some(2));
}

#[test]
fn carriage_return_confirms_the_selected_entry() {
    let mut state = state_at(2);
    assert_eq!(step(3, &mut state, Key::Char('\r')), LoopState::Confirmed(2));
}

#[test]
fn ignored_keys_leave_the_picker_running() {
    let mut state = state_at(1);
    assert_eq!(step(3, &mut state, Key::Other), LoopState::Running);
    assert_eq!(step(3, &mut state, Key::Char('x')), LoopState::Running);
    assert_eq!(step(3, &mut state, Key::Ctrl('d')), LoopState::Running);
    assert_eq!(state.selected(), Some(1));
}
