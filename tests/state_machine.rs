use kill_timer::catalog::ProcessEntry;
use kill_timer::machine::{Action, App, Key, Mode, Status};

fn app_with(list: &[(u32, &str)]) -> App {
    let mut app = App::new();
    let snapshot: Vec<ProcessEntry> =
        list.iter().map(|(id, name)| ProcessEntry::new(*id, name)).collect();
    app.refresh(&snapshot);
    app
}

fn type_text(app: &mut App, s: &str, now: u64) {
    for c in s.chars() {
        assert_eq!(app.handle_key(Key::Char(c), now), Action::Continue);
    }
}

#[test]
fn select_arm_and_terminate() {
    let mut app = app_with(&[(1, "p1"), (2, "p2"), (3, "p3")]);
    assert_eq!(app.mode, Mode::Selecting);
    app.handle_key(Key::Down, 0);
    assert_eq!(app.catalog.selected, Some(1));
    app.handle_key(Key::Enter, 0);
    assert_eq!(app.target, Some(2));
    assert_eq!(app.mode, Mode::ConfiguringTimer);
    assert_eq!(app.target_name(), Some(vec!['p', '2']));
    type_text(&mut app, "0:05", 0);
    app.handle_key(Key::Enter, 1_000);
    assert_eq!(app.mode, Mode::Running);
    assert_eq!(app.timer.total_seconds, 5);
    assert_eq!(app.timer.remaining(1_000), Some(5));
    assert_eq!(app.expired_target(5_999), None);
    assert_eq!(app.expired_target(6_000), Some(2));
    assert!(app.termination_finished(true));
    assert_eq!(app.mode, Mode::Selecting);
    assert_eq!(app.target, None);
    assert!(!app.timer.is_armed());
    assert_eq!(app.status, Status::Terminated);
    assert!(!app.status.is_error());
}

#[test]
fn failed_termination_returns_to_selection() {
    let mut app = app_with(&[(4, "x")]);
    app.handle_key(Key::Enter, 0);
    type_text(&mut app, "0", 0);
    app.handle_key(Key::Enter, 0);
    assert_eq!(app.expired_target(0), Some(4));
    assert!(!app.termination_finished(false));
    assert_eq!(app.mode, Mode::Selecting);
    assert_eq!(app.target, None);
    assert!(!app.timer.is_armed());
    assert!(app.status.is_error());
}

#[test]
fn search_query_filters_list() {
    let mut app = app_with(&[(1, "p1"), (2, "p2"), (3, "p3")]);
    type_text(&mut app, "p2", 0);
    assert_eq!(app.catalog.filtered.len(), 1);
    assert_eq!(app.catalog.filtered[0].id, 2);
    assert_eq!(app.catalog.selected, Some(0));
    app.handle_key(Key::Backspace, 0);
    assert_eq!(app.catalog.query, vec!['p']);
    assert_eq!(app.catalog.filtered.len(), 3);
    app.handle_key(Key::Char('/'), 0);
    assert!(app.catalog.query.is_empty());
    assert!(app.refresh_due());
}

#[test]
fn invalid_countdown_stays_configuring() {
    let mut app = app_with(&[(1, "p1")]);
    app.handle_key(Key::Enter, 0);
    type_text(&mut app, "abc", 0);
    app.handle_key(Key::Enter, 0);
    assert_eq!(app.mode, Mode::ConfiguringTimer);
    assert_eq!(app.status, Status::InvalidFormat);
    assert!(app.status.is_error());
    assert!(!app.timer.is_armed());
    assert_eq!(app.expired_target(1_000_000), None);
}

#[test]
fn escape_and_cancel_clear_target() {
    let mut app = app_with(&[(1, "p1")]);
    app.handle_key(Key::Enter, 0);
    type_text(&mut app, "12", 0);
    app.handle_key(Key::Backspace, 0);
    assert_eq!(app.timer_input, vec!['1']);
    app.handle_key(Key::Esc, 0);
    assert_eq!(app.mode, Mode::Selecting);
    assert_eq!(app.target, None);
    assert!(app.timer_input.is_empty());

    app.handle_key(Key::Enter, 0);
    type_text(&mut app, "60", 0);
    app.handle_key(Key::Enter, 0);
    assert_eq!(app.mode, Mode::Running);
    assert!(!app.refresh_due());
    assert_eq!(app.handle_key(Key::Char('Q'), 10), Action::Continue);
    assert_eq!(app.mode, Mode::Selecting);
    assert_eq!(app.target, None);
    assert!(!app.timer.is_armed());
    assert_eq!(app.status, Status::TimerCancelled);
}

#[test]
fn quit_keys() {
    let mut app = app_with(&[(1, "p1")]);
    assert_eq!(app.handle_key(Key::Char('q'), 0), Action::Quit);
    app.handle_key(Key::Enter, 0);
    assert_eq!(app.handle_key(Key::Char('Q'), 0), Action::Quit);
    assert_eq!(app.handle_key(Key::Other, 0), Action::Continue);
}

#[test]
fn confirm_without_entries_does_nothing() {
    let mut app = App::new();
    app.handle_key(Key::Enter, 0);
    assert_eq!(app.mode, Mode::Selecting);
    assert_eq!(app.target, None);
    assert_eq!(app.status, Status::SelectPrompt);
    assert!(!app.status.message().is_empty());
}
