use vstd::prelude::*;

verus! {

/// The keys the TUI reacts to; every other key is `Other`.
#[derive(Debug, Clone, Copy, PartialEq, Eq, Structural)]
pub enum KeyCode {
    Up,
    Down,
    Left,
    Right,
    Enter,
    Esc,
    Backspace,
    Delete,
    Char(char),
    Other,
}

/// A key press: its code and whether Control was held.
#[derive(Debug, Clone, Copy, PartialEq, Eq, Structural)]
pub struct KeyEvent {
    pub code: KeyCode,
    pub ctrl: bool,
}

impl KeyEvent {
    pub fn new(code: KeyCode, ctrl: bool) -> (r: KeyEvent)
        ensures
            r.code == code,
            r.ctrl == ctrl,
    {
        KeyEvent { code, ctrl }
    }
}

/// `q`, `Esc`, or `Ctrl+C`.
pub open spec fn quit_key(key: KeyEvent) -> bool {
    key.code == KeyCode::Char('q') || key.code == KeyCode::Esc || (key.code == KeyCode::Char('c') && key.ctrl)
}

pub fn is_quit(key: &KeyEvent) -> (r: bool)
    ensures
        r == quit_key(*key),
{
    match key.code {
        KeyCode::Char(c) => c == 'q' || (c == 'c' && key.ctrl),
        KeyCode::Esc => true,
        _ => false,
    }
}

#[derive(Debug, Clone, Copy, PartialEq, Eq, Structural)]
pub enum PickerAction {
    Up,
    Down,
    Select,
    Add,
    Delete,
    Quit,
    Char(char),
    Backspace,
    ConfirmAdd,
    CancelAdd,
}

/// Keys while typing a new target.
pub open spec fn add_input_action(key: KeyEvent) -> Option<PickerAction> {
    match key.code {
        KeyCode::Enter => Some(PickerAction::ConfirmAdd),
        KeyCode::Esc => Some(PickerAction::CancelAdd),
        KeyCode::Backspace => Some(PickerAction::Backspace),
        KeyCode::Char(c) => Some(PickerAction::Char(c)),
        _ => None,
    }
}

/// Picker keys. The quit keys quit, except that `Esc` cancels the add form while a target is
/// typed (as the form's help line says); in the form the other keys type, confirm or erase, and
/// outside it the navigation keys move, select, add or delete.
pub open spec fn picker_action(key: KeyEvent, adding: bool) -> Option<PickerAction> {
    if adding {
        if quit_key(key) && key.code != KeyCode::Esc {
            Some(PickerAction::Quit)
        } else {
            add_input_action(key)
        }
    } else if quit_key(key) {
        Some(PickerAction::Quit)
    } else {
        match key.code {
            KeyCode::Up | KeyCode::Char('k') => Some(PickerAction::Up),
            KeyCode::Down | KeyCode::Char('j') => Some(PickerAction::Down),
            KeyCode::Enter => Some(PickerAction::Select),
            KeyCode::Char('a') => Some(PickerAction::Add),
            KeyCode::Char('d') | KeyCode::Delete => Some(PickerAction::Delete),
            _ => None,
        }
    }
}

pub fn map_picker_key(key: &KeyEvent, adding: bool) -> (r: Option<PickerAction>)
    ensures
        r == picker_action(*key, adding),
{
    if adding {
        if is_quit(key) && key.code != KeyCode::Esc {
            return Some(PickerAction::Quit);
        }
        return map_add_input_key(key);
    }
    if is_quit(key) {
        return Some(PickerAction::Quit);
    }
    match key.code {
        KeyCode::Up => Some(PickerAction::Up),
        KeyCode::Down => Some(PickerAction::Down),
        KeyCode::Enter => Some(PickerAction::Select),
        KeyCode::Delete => Some(PickerAction::Delete),
        KeyCode::Char(c) => {
            if c == 'k' {
                Some(PickerAction::Up)
            } else if c == 'j' {
                Some(PickerAction::Down)
            } else if c == 'a' {
                Some(PickerAction::Add)
            } else if c == 'd' {
                Some(PickerAction::Delete)
            } else {
                None
            }
        },
        _ => None,
    }
}

pub fn map_add_input_key(key: &KeyEvent) -> (r: Option<PickerAction>)
    ensures
        r == add_input_action(*key),
{
    match key.code {
        KeyCode::Enter => Some(PickerAction::ConfirmAdd),
        KeyCode::Esc => Some(PickerAction::CancelAdd),
        KeyCode::Backspace => Some(PickerAction::Backspace),
        KeyCode::Char(c) => Some(PickerAction::Char(c)),
        _ => None,
    }
}

#[derive(Debug, Clone, Copy, PartialEq, Eq, Structural)]
pub enum DashboardAction {
    Quit,
    Switch,
    Update,
    ChartPanLeft,
    ChartPanRight,
    DockerScrollUp,
    DockerScrollDown,
}

pub open spec fn dashboard_action(key: KeyEvent) -> Option<DashboardAction> {
    if quit_key(key) {
        Some(DashboardAction::Quit)
    } else {
        match key.code {
            KeyCode::Up | KeyCode::Char('k') => Some(DashboardAction::DockerScrollUp),
            KeyCode::Down | KeyCode::Char('j') => Some(DashboardAction::DockerScrollDown),
            KeyCode::Left | KeyCode::Char('h') => Some(DashboardAction::ChartPanLeft),
            KeyCode::Right | KeyCode::Char('l') => Some(DashboardAction::ChartPanRight),
            KeyCode::Char('u') => Some(DashboardAction::Update),
            KeyCode::Char('s') => Some(DashboardAction::Switch),
            _ => None,
        }
    }
}

pub fn map_dashboard_key(key: &KeyEvent) -> (r: Option<DashboardAction>)
    ensures
        r == dashboard_action(*key),
{
    if is_quit(key) {
        return Some(DashboardAction::Quit);
    }
    match key.code {
        KeyCode::Up => Some(DashboardAction::DockerScrollUp),
        KeyCode::Down => Some(DashboardAction::DockerScrollDown),
        KeyCode::Left => Some(DashboardAction::ChartPanLeft),
        KeyCode::Right => Some(DashboardAction::ChartPanRight),
        KeyCode::Char(c) => {
            if c == 'k' {
                Some(DashboardAction::DockerScrollUp)
            } else if c == 'j' {
                Some(DashboardAction::DockerScrollDown)
            } else if c == 'h' {
                Some(DashboardAction::ChartPanLeft)
            } else if c == 'l' {
                Some(DashboardAction::ChartPanRight)
            } else if c == 'u' {
                Some(DashboardAction::Update)
            } else if c == 's' {
                Some(DashboardAction::Switch)
            } else {
                None
            }
        },
        _ => None,
    }
}

#[derive(Debug, Clone, Copy, PartialEq, Eq, Structural)]
pub enum LogAction {
    Quit,
    ScrollUp,
    ScrollDown,
}

pub open spec fn log_action(key: KeyEvent, finished: bool) -> Option<LogAction> {
    if quit_key(key) && finished {
        Some(LogAction::Quit)
    } else {
        match key.code {
            KeyCode::Up | KeyCode::Char('k') => Some(LogAction::ScrollUp),
            KeyCode::Down | KeyCode::Char('j') => Some(LogAction::ScrollDown),
            _ => None,
        }
    }
}

pub fn map_log_key(key: &KeyEvent, finished: bool) -> (r: Option<LogAction>)
    ensures
        r == log_action(*key, finished),
{
    if is_quit(key) && finished {
        return Some(LogAction::Quit);
    }
    match key.code {
        KeyCode::Up => Some(LogAction::ScrollUp),
        KeyCode::Down => Some(LogAction::ScrollDown),
        KeyCode::Char(c) => {
            if c == 'k' {
                Some(LogAction::ScrollUp)
            } else if c == 'j' {
                Some(LogAction::ScrollDown)
            } else {
                None
            }
        },
        _ => None,
    }
}

/// A quit key (`q`, `Esc`, `Ctrl+C`) quits the dashboard and the server list, and closes a
/// finished log view; `q` and `Ctrl+C` quit the picker even while a target is typed.
pub proof fn lemma_quit_keys_quit(key: KeyEvent)
    requires
        quit_key(key),
    ensures
        dashboard_action(key) == Some(DashboardAction::Quit),
        picker_action(key, false) == Some(PickerAction::Quit),
        log_action(key, true) == Some(LogAction::Quit),
        key.code != KeyCode::Esc ==> picker_action(key, true) == Some(PickerAction::Quit),
{
}

/// While a target is typed, `Esc` cancels the form, Enter confirms it, and any character that is
/// not a quit key is typed into it.
pub proof fn lemma_add_form_keys(key: KeyEvent)
    ensures
        key.code == KeyCode::Esc ==> picker_action(key, true) == Some(PickerAction::CancelAdd),
        key.code == KeyCode::Enter ==> picker_action(key, true) == Some(PickerAction::ConfirmAdd),
        (key.code matches KeyCode::Char(c) && !quit_key(key)) ==> picker_action(key, true)
            == Some(PickerAction::Char(key.code->Char_0)),
{
}

/// Each dashboard action has its keys and no others: `u` alone starts an update, `s` alone
/// switches server, `←`/`h` and `→`/`l` pan, `↑`/`k` and `↓`/`j` scroll the Docker panel, and the
/// quit keys quit.
pub proof fn lemma_dashboard_keys(key: KeyEvent)
    ensures
        dashboard_action(key) == Some(DashboardAction::Update) <==> key.code == KeyCode::Char('u'),
        dashboard_action(key) == Some(DashboardAction::Switch) <==> key.code == KeyCode::Char('s'),
        dashboard_action(key) == Some(DashboardAction::Quit) <==> (key.code == KeyCode::Char('q')
            || key.code == KeyCode::Esc || (key.code == KeyCode::Char('c') && key.ctrl)),
        dashboard_action(key) == Some(DashboardAction::ChartPanLeft) <==> (key.code == KeyCode::Left
            || key.code == KeyCode::Char('h')),
        dashboard_action(key) == Some(DashboardAction::ChartPanRight) <==> (key.code == KeyCode::Right
            || key.code == KeyCode::Char('l')),
        dashboard_action(key) == Some(DashboardAction::DockerScrollUp) <==> (key.code == KeyCode::Up
            || key.code == KeyCode::Char('k')),
        dashboard_action(key) == Some(DashboardAction::DockerScrollDown) <==> (key.code == KeyCode::Down
            || key.code == KeyCode::Char('j')),
{
}

/// Outside the add form each picker action has its keys and no others: `↑`/`k` up, `↓`/`j` down,
/// Enter selects, `a` adds, `d`/Delete deletes, and the quit keys quit.
pub proof fn lemma_picker_keys(key: KeyEvent)
    ensures
        picker_action(key, false) == Some(PickerAction::Up) <==> (key.code == KeyCode::Up
            || key.code == KeyCode::Char('k')),
        picker_action(key, false) == Some(PickerAction::Down) <==> (key.code == KeyCode::Down
            || key.code == KeyCode::Char('j')),
        picker_action(key, false) == Some(PickerAction::Select) <==> key.code == KeyCode::Enter,
        picker_action(key, false) == Some(PickerAction::Add) <==> key.code == KeyCode::Char('a'),
        picker_action(key, false) == Some(PickerAction::Delete) <==> (key.code == KeyCode::Delete
            || key.code == KeyCode::Char('d')),
        picker_action(key, false) == Some(PickerAction::Quit) <==> (key.code == KeyCode::Char('q')
            || key.code == KeyCode::Esc || (key.code == KeyCode::Char('c') && key.ctrl)),
{
}

/// In the log view `↑`/`k` scroll up and `↓`/`j` down; the quit keys close it only once the
/// command has finished.
pub proof fn lemma_log_keys(key: KeyEvent, finished: bool)
    ensures
        log_action(key, finished) == Some(LogAction::ScrollUp) <==> (key.code == KeyCode::Up
            || key.code == KeyCode::Char('k')),
        log_action(key, finished) == Some(LogAction::ScrollDown) <==> (key.code == KeyCode::Down
            || key.code == KeyCode::Char('j')),
        log_action(key, finished) == Some(LogAction::Quit) <==> (finished && (key.code
            == KeyCode::Char('q') || key.code == KeyCode::Esc || (key.code == KeyCode::Char('c')
            && key.ctrl))),
{
}

} // verus!
