use nulctl::history::{add_target, list_targets, remove_target, save_history, ConnectionHistory};

#[test]
fn remove_target_keeps_at_least_localhost() {
    let mut history = ConnectionHistory { targets: vec!["only".to_string()] };
    remove_target(&mut history, "only");
    assert_eq!(history.targets, vec!["localhost".to_string()]);
}

#[test]
fn save_history_moves_target_to_front_once() {
    let mut history = ConnectionHistory {
        targets: vec!["a".to_string(), "b".to_string(), "c".to_string()],
    };
    save_history(&mut history, "c");
    assert_eq!(history.targets, vec!["c".to_string(), "a".to_string(), "b".to_string()]);
}

#[test]
fn save_history_keeps_ten_newest() {
    let mut history = ConnectionHistory { targets: vec![] };
    for i in 0..12 {
        add_target(&mut history, &format!("host{i}"));
    }
    let targets = list_targets(&history);
    assert_eq!(targets.len(), 10);
    assert_eq!(targets[0], "host11");
    assert_eq!(targets[9], "host2");
}

#[test]
fn remove_target_reports_whether_removed() {
    let mut history = ConnectionHistory::default();
    add_target(&mut history, "x");
    assert!(remove_target(&mut history, "x"));
    assert!(!remove_target(&mut history, "x"));
    assert_eq!(history.targets, vec!["localhost".to_string()]);
}

#[test]
fn default_history_is_localhost() {
    assert_eq!(ConnectionHistory::default().targets, vec!["localhost".to_string()]);
    assert_eq!(ConnectionHistory::new().targets, vec!["localhost".to_string()]);
}
