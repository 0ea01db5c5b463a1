use nulctl::history::ConnectionHistory;
use nulctl::keys::PickerAction;
use nulctl::picker::{apply_action, new_picker_state, ApplyResult, PickerExit};

fn history_of(targets: &[&str]) -> ConnectionHistory {
    ConnectionHistory { targets: targets.iter().map(|t| t.to_string()).collect() }
}

#[test]
fn move_selection_respects_bounds() {
    let mut history = history_of(&["a", "b", "c"]);
    let mut state = new_picker_state(vec!["a".into(), "b".into(), "c".into()]);
    apply_action(&mut state, PickerAction::Up, &mut history);
    assert_eq!(state.selected, 0);
    apply_action(&mut state, PickerAction::Down, &mut history);
    apply_action(&mut state, PickerAction::Down, &mut history);
    assert_eq!(state.selected, 2);
    apply_action(&mut state, PickerAction::Down, &mut history);
    assert_eq!(state.selected, 2);
}

#[test]
fn select_returns_target_when_not_adding() {
    let mut history = history_of(&["host"]);
    let mut state = new_picker_state(vec!["host".into()]);
    let result = apply_action(&mut state, PickerAction::Select, &mut history);
    assert!(matches!(
        result,
        ApplyResult::Exit(PickerExit::Selected(ref t)) if t == "host"
    ));
}

#[test]
fn confirm_add_rejects_empty_input() {
    let mut history = history_of(&["localhost"]);
    let mut state = new_picker_state(vec!["localhost".into()]);
    state.adding = true;
    apply_action(&mut state, PickerAction::ConfirmAdd, &mut history);
    assert_eq!(state.status.as_deref(), Some("Target cannot be empty"));
}

#[test]
fn add_mode_accepts_char_input() {
    let mut history = history_of(&["localhost"]);
    let mut state = new_picker_state(vec!["localhost".into()]);
    state.adding = true;
    apply_action(&mut state, PickerAction::Char('x'), &mut history);
    assert_eq!(state.input, "x");
    apply_action(&mut state, PickerAction::Backspace, &mut history);
    assert!(state.input.is_empty());
}

#[test]
fn add_action_enters_add_mode() {
    let mut history = history_of(&["localhost"]);
    let mut state = new_picker_state(vec!["localhost".into()]);
    apply_action(&mut state, PickerAction::Add, &mut history);
    assert!(state.adding);
}

#[test]
fn cancel_add_clears_mode() {
    let mut history = history_of(&["localhost"]);
    let mut state = new_picker_state(vec!["localhost".into()]);
    state.adding = true;
    state.input = "partial".into();
    apply_action(&mut state, PickerAction::CancelAdd, &mut history);
    assert!(!state.adding);
    assert!(state.input.is_empty());
}

#[test]
fn confirm_add_saves_and_selects_new_target() {
    let mut history = history_of(&["localhost"]);
    let mut state = new_picker_state(vec!["localhost".into()]);
    state.adding = true;
    state.input = "  web1  ".into();
    let result = apply_action(&mut state, PickerAction::ConfirmAdd, &mut history);
    assert!(matches!(result, ApplyResult::Continue));
    assert_eq!(history.targets, vec!["web1".to_string(), "localhost".to_string()]);
    assert_eq!(state.targets, history.targets);
    assert_eq!(state.selected, 0);
    assert!(!state.adding);
    assert!(state.input.is_empty());
}

#[test]
fn delete_removes_selected_target() {
    let mut history = history_of(&["a", "b"]);
    let mut state = new_picker_state(vec!["a".into(), "b".into()]);
    apply_action(&mut state, PickerAction::Down, &mut history);
    apply_action(&mut state, PickerAction::Delete, &mut history);
    assert_eq!(history.targets, vec!["a".to_string()]);
    assert_eq!(state.targets, vec!["a".to_string()]);
    assert_eq!(state.selected, 0);
}

#[test]
fn quit_action_exits() {
    let mut history = history_of(&["a"]);
    let mut state = new_picker_state(vec!["a".into()]);
    let result = apply_action(&mut state, PickerAction::Quit, &mut history);
    assert!(matches!(result, ApplyResult::Exit(PickerExit::Quit)));
}
