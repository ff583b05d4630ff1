//! The selection of one entry of the branch list, kept in a `tui` list state.

use crate::error::PickerError;
use crate::text::texts;
use tui::widgets::ListState;
use vstd::arithmetic::div_mod::{
    lemma_mod_add_multiples_vanish, lemma_mod_self_0, lemma_small_mod,
};
use vstd::prelude::*;

verus! {

/// `tui::widgets::ListState`: what a drawn list remembers from one frame to
/// the next. It holds a selection and a scroll offset, and nothing else.
#[verifier::external_type_specification]
#[verifier::external_body]
pub struct ExListState(tui::widgets::ListState);

/// The index that a list state holds as its selection, if it holds one.
pub uninterp spec fn selected_index(state: ListState) -> Option<usize>;

/// The number of entries that a list state has scrolled past.
pub uninterp spec fn scroll_offset(state: ListState) -> usize;

/// `ListState::default` makes a state in which nothing is selected and
/// nothing is scrolled past.
pub assume_specification[ <ListState as Default>::default ]() -> (state: ListState)
    ensures
        selected_index(state) is None,
        scroll_offset(state) == 0,
;

/// `ListState::selected` hands out the stored selection.
pub assume_specification[ ListState::selected ](state: &ListState) -> (index: Option<usize>)
    ensures
        index == selected_index(*state),
;

/// `ListState::select` stores `index` as the selection. It keeps the scroll
/// offset for an index and sets it to zero for `None`.
pub assume_specification[ ListState::select ](state: &mut ListState, index: Option<usize>)
    ensures
        selected_index(*final(state)) == index,
        scroll_offset(*final(state)) == if index is None {
            0
        } else {
            scroll_offset(*old(state))
        },
;

/// A selection that points at one of the `len` entries of a list.
pub open spec fn in_range(len: usize, selected: Option<usize>) -> bool {
    match selected {
        Some(i) => i < len,
        None => false,
    }
}

/// The position that follows `selected` in a list of `len` entries: one
/// further down, the top after the last entry, and the top when nothing was
/// selected.
pub open spec fn next_index(len: usize, selected: Option<usize>) -> usize {
    match selected {
        Some(i) => if i + 1 < len {
            (i + 1) as usize
        } else {
            0
        },
        None => 0,
    }
}

/// The position that precedes `selected` in a list of `len` entries: one
/// further up, the last entry before the top, and the top when nothing was
/// selected.
pub open spec fn prev_index(len: usize, selected: Option<usize>) -> usize
    recommends
        len > 0 || selected is None,
{
    match selected {
        Some(i) => if i == 0 {
            (len - 1) as usize
        } else {
            (i - 1) as usize
        },
        None => 0,
    }
}

/// From an entry `i` of a list of `n` entries, the entry below is
/// `(i + 1) mod n` and the entry above is `(i - 1 + n) mod n`.
pub proof fn lemma_moves_are_modular(n: usize, i: usize)
    requires
        i < n,
    ensures
        next_index(n, Some(i)) == (i + 1) % (n as int),
        prev_index(n, Some(i)) == (i - 1 + n) % (n as int),
{
    if i + 1 < n {
        lemma_small_mod((i + 1) as nat, n as nat);
    } else {
        lemma_mod_self_0(n as int);
    }
    if i == 0 {
        lemma_small_mod((n - 1) as nat, n as nat);
    } else {
        lemma_small_mod((i - 1) as nat, n as nat);
        lemma_mod_add_multiples_vanish(i - 1, n as int);
    }
}

/// Moving down and then up, or up and then down, leads back to the entry
/// that was selected at the start.
pub proof fn lemma_moves_are_inverse(n: usize, i: usize)
    requires
        i < n,
    ensures
        prev_index(n, Some(next_index(n, Some(i)))) == i,
        next_index(n, Some(prev_index(n, Some(i)))) == i,
{
}

/// In a list that has entries, a move from a selected entry or from no
/// selection ends on an entry of the list.
pub proof fn lemma_moves_stay_in_range(n: usize, selected: Option<usize>)
    requires
        n > 0,
        selected is Some ==> in_range(n, selected),
    ensures
        in_range(n, Some(next_index(n, selected))),
        in_range(n, Some(prev_index(n, selected))),
{
}

/// Moves the selection one entry down, wrapping from the last entry to the
/// first. Without a selection the first entry becomes selected.
pub fn select_next(items_len: usize, list_state: &mut ListState)
    requires
        items_len > 0 || selected_index(*old(list_state)) is None,
    ensures
        selected_index(*final(list_state)) == Some(
            next_index(items_len, selected_index(*old(list_state))),
        ),
        in_range(items_len, selected_index(*old(list_state))) ==> selected_index(
            *final(list_state),
        )->0 == (selected_index(*old(list_state))->0 + 1) % (items_len as int),
        scroll_offset(*final(list_state)) == scroll_offset(*old(list_state)),
{
    let i: usize = match list_state.selected() {
        Some(i) => {
            proof {
                if i < items_len {
                    lemma_moves_are_modular(items_len, i);
                }
            }
            if i >= items_len - 1 {
                0
            } else {
                i + 1
            }
        },
        None => 0,
    };
    list_state.select(Some(i));
}

/// Moves the selection one entry up, wrapping from the first entry to the
/// last. Without a selection the first entry becomes selected.
pub fn select_prev(items_len: usize, list_state: &mut ListState)
    requires
        items_len > 0 || selected_index(*old(list_state)) is None,
    ensures
        selected_index(*final(list_state)) == Some(
            prev_index(items_len, selected_index(*old(list_state))),
        ),
        in_range(items_len, selected_index(*old(list_state))) ==> selected_index(
            *final(list_state),
        )->0 == (selected_index(*old(list_state))->0 - 1 + items_len) % (items_len as int),
        scroll_offset(*final(list_state)) == scroll_offset(*old(list_state)),
{
    let i: usize = match list_state.selected() {
        Some(i) => {
            proof {
                if i < items_len {
                    lemma_moves_are_modular(items_len, i);
                }
            }
            if i == 0 {
                items_len - 1
            } else {
                i - 1
            }
        },
        None => 0,
    };
    list_state.select(Some(i));
}

/// Whether `index` is the first place at which `name` stands in `names`.
pub open spec fn is_first_position(names: Seq<Seq<char>>, name: Seq<char>, index: int) -> bool {
    &&& 0 <= index < names.len()
    &&& names[index] == name
    &&& forall|j: int| 0 <= j < index ==> names[j] != name
}

/// Finds the entry that is selected when the picker starts: the first one
/// that equals the current branch, letter for letter. An empty listing, an
/// empty current branch and a current branch that the listing lacks are
/// refused, in this order.
pub fn initial_selection(branches: &Vec<String>, current_branch: &str) -> (r: Result<
    usize,
    PickerError,
>)
    ensures
        match r {
            Ok(index) => branches.len() > 0 && current_branch@.len() > 0 && is_first_position(
                texts(branches@),
                current_branch@,
                index as int,
            ),
            Err(PickerError::EmptyListing) => branches.len() == 0,
            Err(PickerError::CurrentBranchUnreadable) => branches.len() > 0
                && current_branch@.len() == 0,
            Err(PickerError::BranchNotFound) => branches.len() > 0 && current_branch@.len() > 0
                && !texts(branches@).contains(current_branch@),
            Err(_) => false,
        },
{
    if branches.len() == 0 {
        return Err(PickerError::EmptyListing);
    }
    if current_branch.is_empty() {
        return Err(PickerError::CurrentBranchUnreadable);
    }
    let current = current_branch.to_owned();
    let mut index: usize = 0;
    while index < branches.len()
        invariant
            index <= branches.len(),
            current@ == current_branch@,
            current_branch@.len() > 0,
            forall|j: int| 0 <= j < index ==> texts(branches@)[j] != current_branch@,
        decreases branches.len() - index,
    {
        if branches[index] == current {
            return Ok(index);
        }
        index += 1;
    }
    Err(PickerError::BranchNotFound)
}

/// Makes the list state with which the picker starts: the current branch
/// is selected and the list is not scrolled. It fails as `initial_selection`
/// does.
pub fn initial_state(branches: &Vec<String>, current_branch: &str) -> (r: Result<
    ListState,
    PickerError,
>)
    ensures
        match r {
            Ok(state) => selected_index(state) is Some && is_first_position(
                texts(branches@),
                current_branch@,
                selected_index(state)->0 as int,
            ) && scroll_offset(state) == 0 && current_branch@.len() > 0,
            Err(PickerError::EmptyListing) => branches.len() == 0,
            Err(PickerError::CurrentBranchUnreadable) => branches.len() > 0
                && current_branch@.len() == 0,
            Err(PickerError::BranchNotFound) => branches.len() > 0 && current_branch@.len() > 0
                && !texts(branches@).contains(current_branch@),
            Err(_) => false,
        },
{
    match initial_selection(branches, current_branch) {
        Ok(index) => {
            let mut state = ListState::default();
            state.select(Some(index));
            Ok(state)
        },
        Err(e) => Err(e),
    }
}

} // verus!
