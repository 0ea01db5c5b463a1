use vstd::prelude::*;
use crate::history::{add_target, list_targets, remove_target, removed, saved, views, ConnectionHistory};
use crate::keys::PickerAction;
use crate::text::{chars_of, push_char, string_of, trim, trim_chars};

verus! {

broadcast use vstd::string::group_string_axioms;

pub enum PickerExit {
    Selected(String),
    Quit,
}

pub struct PickerState {
    pub targets: Vec<String>,
    pub selected: usize,
    pub adding: bool,
    pub input: String,
    pub status: Option<String>,
}

pub enum ApplyResult {
    Continue,
    Exit(PickerExit),
}

impl PickerState {
    /// The selection points at a target.
    pub open spec fn wf(&self) -> bool {
        self.selected < self.targets@.len()
    }
}

/// The picker over the given targets (`localhost` when there are none), first one selected.
pub fn new_picker_state(targets: Vec<String>) -> (r: PickerState)
    ensures
        r.wf(),
        targets@.len() > 0 ==> r.targets@ == targets@,
        targets@.len() == 0 ==> views(r.targets@) == seq!["localhost"@],
        r.selected == 0,
        !r.adding,
        r.input@.len() == 0,
        r.status is None,
{
    let mut state = PickerState { targets, selected: 0, adding: false, input: String::new(), status: None };
    if state.targets.len() == 0 {
        state.targets.push("localhost".to_string());
        assert(views(state.targets@) =~= seq!["localhost"@]);
    }
    state
}

/// `r` ends the picker with the target `name` selected.
pub open spec fn exits_with(r: ApplyResult, name: Seq<char>) -> bool {
    r matches ApplyResult::Exit(PickerExit::Selected(t)) && t@ == name
}

/// `s` with its last character removed (unchanged when empty).
pub open spec fn drop_last_char(s: Seq<char>) -> Seq<char> {
    if s.len() > 0 { s.drop_last() } else { s }
}

/// Everything but `selected` is as before.
pub open spec fn same_but_selected(a: PickerState, b: PickerState) -> bool {
    a.targets == b.targets && a.adding == b.adding && a.input == b.input && a.status == b.status
}

/// Applies one picker action. Deleting and adding targets update `history` and reload the list from it.
pub fn apply_action(state: &mut PickerState, action: PickerAction, history: &mut ConnectionHistory) -> (r: ApplyResult)
    requires
        old(state).wf(),
    ensures
        final(state).wf(),
        match action {
            PickerAction::Quit => r matches ApplyResult::Exit(PickerExit::Quit) && *final(state) == *old(state)
                && *final(history) == *old(history),
            PickerAction::Up => r is Continue && same_but_selected(*final(state), *old(state))
                && final(state).selected == (if old(state).selected > 0 { old(state).selected - 1 } else { 0 })
                && *final(history) == *old(history),
            PickerAction::Down => r is Continue && same_but_selected(*final(state), *old(state))
                && final(state).selected == (if old(state).selected + 1 < old(state).targets@.len() {
                    (old(state).selected + 1) as usize
                } else {
                    (old(state).targets@.len() - 1) as usize
                })
                && *final(history) == *old(history),
            PickerAction::Select => *final(state) == *old(state) && *final(history) == *old(history)
                && (old(state).adding ==> r is Continue)
                && (!old(state).adding ==> exits_with(r, old(state).targets@[old(state).selected as int]@)),
            PickerAction::Add => r is Continue && final(state).adding && final(state).input@.len() == 0
                && final(state).status is None && final(state).targets == old(state).targets
                && final(state).selected == old(state).selected && *final(history) == *old(history),
            PickerAction::Delete => r is Continue && (old(state).adding ==> *final(state) == *old(state)
                && *final(history) == *old(history))
                && (!old(state).adding ==> {
                    &&& views(final(history).targets@) == removed(
                        views(old(history).targets@),
                        old(state).targets@[old(state).selected as int]@,
                    )
                    &&& views(final(state).targets@) == views(final(history).targets@)
                    &&& final(state).selected == (if old(state).selected < final(state).targets@.len() {
                        old(state).selected
                    } else {
                        (final(state).targets@.len() - 1) as usize
                    })
                    &&& final(state).adding == old(state).adding
                    &&& final(state).input == old(state).input
                    &&& final(state).status == old(state).status
                }),
            PickerAction::CancelAdd => r is Continue && !final(state).adding && final(state).input@.len() == 0
                && final(state).targets == old(state).targets && final(state).selected == old(state).selected
                && final(state).status == old(state).status && *final(history) == *old(history),
            PickerAction::Backspace => r is Continue && final(state).input@ == drop_last_char(old(state).input@)
                && final(state).targets == old(state).targets && final(state).selected == old(state).selected
                && final(state).adding == old(state).adding && final(state).status == old(state).status
                && *final(history) == *old(history),
            PickerAction::Char(c) => r is Continue && final(state).input@ == old(state).input@.push(c)
                && final(state).targets == old(state).targets && final(state).selected == old(state).selected
                && final(state).adding == old(state).adding && final(state).status == old(state).status
                && *final(history) == *old(history),
            PickerAction::ConfirmAdd => r is Continue && (trim(old(state).input@).len() == 0 ==> {
                &&& final(state).status matches Some(m) && m@ == "Target cannot be empty"@
                &&& final(state).targets == old(state).targets
                &&& final(state).selected == old(state).selected
                &&& final(state).adding == old(state).adding
                &&& final(state).input == old(state).input
                &&& *final(history) == *old(history)
            }) && (trim(old(state).input@).len() > 0 ==> {
                &&& views(final(history).targets@) == saved(views(old(history).targets@), trim(old(state).input@))
                &&& views(final(state).targets@) == views(final(history).targets@)
                &&& final(state).selected == 0
                &&& !final(state).adding
                &&& final(state).input@.len() == 0
                &&& final(state).status == old(state).status
            }),
        },
{
    match action {
        PickerAction::Quit => ApplyResult::Exit(PickerExit::Quit),
        PickerAction::Up => {
            move_selection(state, -1);
            ApplyResult::Continue
        },
        PickerAction::Down => {
            move_selection(state, 1);
            ApplyResult::Continue
        },
        PickerAction::Select => select_target(state),
        PickerAction::Add => {
            state.adding = true;
            state.input = String::new();
            state.status = None;
            ApplyResult::Continue
        },
        PickerAction::Delete => {
            delete_selected(state, history);
            ApplyResult::Continue
        },
        PickerAction::CancelAdd => {
            state.adding = false;
            state.input = String::new();
            ApplyResult::Continue
        },
        PickerAction::Backspace => {
            let mut chars = chars_of(state.input.as_str());
            let ghost before = chars@;
            if chars.len() > 0 {
                chars.pop();
            }
            assert(chars@ =~= drop_last_char(before));
            state.input = string_of(&chars);
            ApplyResult::Continue
        },
        PickerAction::Char(c) => {
            push_char(&mut state.input, c);
            ApplyResult::Continue
        },
        PickerAction::ConfirmAdd => confirm_add(state, history),
    }
}

fn move_selection(state: &mut PickerState, delta: i32)
    requires
        old(state).wf(),
    ensures
        final(state).wf(),
        same_but_selected(*final(state), *old(state)),
        delta < 0 ==> final(state).selected == (if old(state).selected > 0 { old(state).selected - 1 } else { 0 }),
        delta >= 0 ==> final(state).selected == (if old(state).selected + 1 < old(state).targets@.len() {
            (old(state).selected + 1) as usize
        } else {
            (old(state).targets@.len() - 1) as usize
        }),
{
    if state.targets.len() == 0 {
        return;
    }
    if delta < 0 {
        state.selected = state.selected.saturating_sub(1);
    } else {
        let next = state.selected + 1;
        let last = state.targets.len() - 1;
        state.selected = if next < last { next } else { last };
    }
}

fn select_target(state: &PickerState) -> (r: ApplyResult)
    requires
        state.wf(),
    ensures
        state.adding ==> r is Continue,
        !state.adding ==> exits_with(r, state.targets@[state.selected as int]@),
{
    if state.adding || state.targets.len() == 0 {
        return ApplyResult::Continue;
    }
    let t = state.targets[state.selected].as_str().to_string();
    ApplyResult::Exit(PickerExit::Selected(t))
}

fn delete_selected(state: &mut PickerState, history: &mut ConnectionHistory)
    requires
        old(state).wf(),
    ensures
        final(state).wf(),
        old(state).adding ==> *final(state) == *old(state) && *final(history) == *old(history),
        !old(state).adding ==> {
            &&& views(final(history).targets@) == removed(
                views(old(history).targets@),
                old(state).targets@[old(state).selected as int]@,
            )
            &&& views(final(state).targets@) == views(final(history).targets@)
            &&& final(state).selected == (if old(state).selected < final(state).targets@.len() {
                old(state).selected
            } else {
                (final(state).targets@.len() - 1) as usize
            })
            &&& final(state).adding == old(state).adding
            &&& final(state).input == old(state).input
            &&& final(state).status == old(state).status
        },
{
    if state.adding || state.targets.len() == 0 {
        return;
    }
    let target = state.targets[state.selected].as_str().to_string();
    let _ = remove_target(history, target.as_str());
    state.targets = list_targets(history);
    assert(views(state.targets@).len() == state.targets@.len());
    if state.selected >= state.targets.len() {
        state.selected = state.targets.len().saturating_sub(1);
    }
}

fn confirm_add(state: &mut PickerState, history: &mut ConnectionHistory) -> (r: ApplyResult)
    requires
        old(state).wf(),
    ensures
        final(state).wf(),
        r is Continue,
        trim(old(state).input@).len() == 0 ==> {
            &&& final(state).status matches Some(m) && m@ == "Target cannot be empty"@
            &&& final(state).targets == old(state).targets
            &&& final(state).selected == old(state).selected
            &&& final(state).adding == old(state).adding
            &&& final(state).input == old(state).input
            &&& *final(history) == *old(history)
        },
        trim(old(state).input@).len() > 0 ==> {
            &&& views(final(history).targets@) == saved(views(old(history).targets@), trim(old(state).input@))
            &&& views(final(state).targets@) == views(final(history).targets@)
            &&& final(state).selected == 0
            &&& !final(state).adding
            &&& final(state).input@.len() == 0
            &&& final(state).status == old(state).status
        },
{
    let chars = chars_of(state.input.as_str());
    let t = trim_chars(chars.as_slice());
    if t.len() == 0 {
        state.status = Some("Target cannot be empty".to_string());
        return ApplyResult::Continue;
    }
    let target = string_of(&t);
    add_target(history, target.as_str());
    state.targets = list_targets(history);
    assert(views(state.targets@).len() == state.targets@.len());
    state.selected = 0;
    state.adding = false;
    state.input = String::new();
    ApplyResult::Continue
}

} // verus!
