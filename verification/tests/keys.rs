use nulctl::keys::{
    is_quit, map_add_input_key, map_dashboard_key, map_log_key, map_picker_key, DashboardAction,
    KeyCode, KeyEvent, LogAction, PickerAction,
};

fn key(code: KeyCode) -> KeyEvent {
    KeyEvent::new(code, false)
}

#[test]
fn dashboard_maps_docker_scroll_keys() {
    assert_eq!(map_dashboard_key(&key(KeyCode::Up)), Some(DashboardAction::DockerScrollUp));
    assert_eq!(map_dashboard_key(&key(KeyCode::Char('j'))), Some(DashboardAction::DockerScrollDown));
}

#[test]
fn dashboard_maps_chart_pan_keys() {
    assert_eq!(map_dashboard_key(&key(KeyCode::Left)), Some(DashboardAction::ChartPanLeft));
    assert_eq!(map_dashboard_key(&key(KeyCode::Right)), Some(DashboardAction::ChartPanRight));
}

#[test]
fn dashboard_maps_action_keys() {
    assert_eq!(map_dashboard_key(&key(KeyCode::Char('u'))), Some(DashboardAction::Update));
}

#[test]
fn picker_maps_navigation_keys() {
    assert_eq!(map_picker_key(&key(KeyCode::Char('j')), false), Some(PickerAction::Down));
    assert_eq!(map_picker_key(&key(KeyCode::Char('a')), false), Some(PickerAction::Add));
}

#[test]
fn add_input_maps_confirm_and_cancel() {
    assert_eq!(map_add_input_key(&key(KeyCode::Enter)), Some(PickerAction::ConfirmAdd));
    assert_eq!(map_add_input_key(&key(KeyCode::Esc)), Some(PickerAction::CancelAdd));
}

#[test]
fn log_key_scrolls_when_finished() {
    assert_eq!(map_log_key(&key(KeyCode::Up), true), Some(LogAction::ScrollUp));
    assert!(map_log_key(&key(KeyCode::Char('q')), false).is_none());
}

#[test]
fn is_quit_detects_q_and_esc() {
    assert!(is_quit(&key(KeyCode::Char('q'))));
    assert!(is_quit(&key(KeyCode::Esc)));
    assert!(!is_quit(&key(KeyCode::Char('m'))));
}

#[test]
fn ctrl_c_quits_everywhere() {
    let ctrl_c = KeyEvent::new(KeyCode::Char('c'), true);
    assert!(is_quit(&ctrl_c));
    assert_eq!(map_dashboard_key(&ctrl_c), Some(DashboardAction::Quit));
    assert_eq!(map_log_key(&ctrl_c, true), Some(LogAction::Quit));
    assert!(!is_quit(&key(KeyCode::Char('c'))));
}

#[test]
fn add_input_types_characters() {
    assert_eq!(map_add_input_key(&key(KeyCode::Char('q'))), Some(PickerAction::Char('q')));
    assert_eq!(map_add_input_key(&key(KeyCode::Backspace)), Some(PickerAction::Backspace));
    assert_eq!(map_picker_key(&key(KeyCode::Char('x')), true), Some(PickerAction::Char('x')));
}

#[test]
fn add_form_keys_type_and_cancel() {
    assert_eq!(map_picker_key(&key(KeyCode::Char('q')), true), Some(PickerAction::Quit));
    assert_eq!(map_picker_key(&key(KeyCode::Char('w')), true), Some(PickerAction::Char('w')));
    assert_eq!(map_picker_key(&key(KeyCode::Esc), true), Some(PickerAction::CancelAdd));
    assert_eq!(map_picker_key(&key(KeyCode::Enter), true), Some(PickerAction::ConfirmAdd));
    assert_eq!(
        map_picker_key(&KeyEvent::new(KeyCode::Char('c'), true), true),
        Some(PickerAction::Quit)
    );
    assert_eq!(map_picker_key(&key(KeyCode::Char('q')), false), Some(PickerAction::Quit));
    assert_eq!(map_picker_key(&key(KeyCode::Esc), false), Some(PickerAction::Quit));
}
