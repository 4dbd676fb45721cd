use pebble::app::{Action, ActionType, App, AppMode};
use pebble::backend::install::{
    finish_message, password_rejected_message, progress_message, starting_message,
};
use pebble::events::{handle_key, handle_mouse, Key, MouseInput};
use pebble::models::{AppConfig, Package};

fn pkg(name: &str) -> Package {
    Package { name: name.to_string(), description: format!("about {}", name) }
}

fn app_with_results(n: usize) -> App {
    let mut app = App::new(AppConfig { beta_mode: false });
    app.mode = AppMode::Search;
    app.finish_search((0..n).map(|i| pkg(&format!("core/p{} 1", i))).collect());
    app
}

#[test]
fn new_app_starts_at_home() {
    let app = App::new(AppConfig { beta_mode: true });
    assert!(app.mode == AppMode::Home);
    assert!(app.action == ActionType::Install);
    assert!(app.config.beta_mode);
    assert_eq!(app.selected, None);
    assert!(!app.should_quit && !app.search_pending && !app.install_listening);
}

#[test]
fn hub_chooses_install_or_removal() {
    let mut app = App::new(AppConfig { beta_mode: false });
    assert_eq!(app.home_selected_index, 0);
    handle_key(&mut app, Key::Down);
    assert_eq!(app.home_selected_index, 1);
    handle_key(&mut app, Key::Up);
    assert_eq!(app.home_selected_index, 0);
    handle_key(&mut app, Key::Char('j'));
    assert!(matches!(handle_key(&mut app, Key::Enter), Action::Idle));
    assert!(app.mode == AppMode::Search);
    assert!(app.action == ActionType::Uninstall);
    let mut other = App::new(AppConfig { beta_mode: false });
    handle_key(&mut other, Key::Enter);
    assert!(other.action == ActionType::Install);
    let mut quitting = App::new(AppConfig { beta_mode: false });
    handle_key(&mut quitting, Key::Char('x'));
    assert!(!quitting.should_quit);
    handle_key(&mut quitting, Key::Esc);
    assert!(quitting.should_quit);
}

#[test]
fn next_and_previous_wrap_around() {
    let mut app = app_with_results(3);
    assert_eq!(app.selected, Some(0));
    app.next();
    app.next();
    assert_eq!(app.selected, Some(2));
    app.next();
    assert_eq!(app.selected, Some(0));
    app.previous();
    assert_eq!(app.selected, Some(2));
    app.previous();
    assert_eq!(app.selected, Some(1));
}

#[test]
fn navigation_round_trip() {
    let mut app = app_with_results(4);
    for start in 0..4 {
        app.selected = Some(start);
        app.next();
        app.previous();
        assert_eq!(app.selected, Some(start));
        app.previous();
        app.next();
        assert_eq!(app.selected, Some(start));
    }
}

#[test]
fn navigation_on_empty_list_selects_zero() {
    let mut app = app_with_results(0);
    assert_eq!(app.selected, None);
    app.next();
    assert_eq!(app.selected, Some(0));
    app.selected = None;
    app.previous();
    assert_eq!(app.selected, Some(0));
}

#[test]
fn typing_then_erasing_restores_the_search() {
    let mut app = app_with_results(0);
    app.search_input = "vi".to_string();
    handle_key(&mut app, Key::Char('m'));
    assert_eq!(app.search_input, "vim");
    handle_key(&mut app, Key::Backspace);
    assert_eq!(app.search_input, "vi");
    assert!(app.mode == AppMode::Search);
}

#[test]
fn backspace_on_empty_search_does_nothing() {
    let mut app = app_with_results(0);
    handle_key(&mut app, Key::Backspace);
    assert_eq!(app.search_input, "");
}

#[test]
fn enter_in_search_asks_for_a_search() {
    let mut app = app_with_results(0);
    app.search_input = "vim".to_string();
    match handle_key(&mut app, Key::Enter) {
        Action::RunSearch { query, installed_only } => {
            assert_eq!(query, "vim");
            assert!(!installed_only);
        }
        _ => panic!("expected a search"),
    }
    app.action = ActionType::Uninstall;
    match handle_key(&mut app, Key::Enter) {
        Action::RunSearch { installed_only, .. } => assert!(installed_only),
        _ => panic!("expected a search"),
    }
}

#[test]
fn finishing_a_search_focuses_the_list() {
    let mut app = app_with_results(0);
    assert!(app.mode == AppMode::Search);
    app.finish_search(vec![pkg("core/a 1")]);
    assert!(app.mode == AppMode::List);
    assert_eq!(app.selected, Some(0));
}

#[test]
fn esc_in_search_quits_and_down_enters_list() {
    let mut app = app_with_results(2);
    app.mode = AppMode::Search;
    handle_key(&mut app, Key::Down);
    assert!(app.mode == AppMode::List);
    handle_key(&mut app, Key::Char('q'));
    assert!(app.mode == AppMode::Search);
    assert_eq!(app.selected, None);
    assert!(!app.should_quit);
    handle_key(&mut app, Key::Esc);
    assert!(app.should_quit);
}

#[test]
fn list_keys_move_and_typing_returns_to_search() {
    let mut app = app_with_results(3);
    assert!(app.mode == AppMode::List);
    handle_key(&mut app, Key::Char('j'));
    assert_eq!(app.selected, Some(1));
    handle_key(&mut app, Key::Up);
    assert_eq!(app.selected, Some(0));
    handle_key(&mut app, Key::Char('k'));
    assert_eq!(app.selected, Some(2));
    handle_key(&mut app, Key::Char('x'));
    assert!(app.mode == AppMode::Search);
    assert_eq!(app.search_input, "x");
    assert_eq!(app.selected, None);
}

#[test]
fn install_with_password_flow() {
    let mut app = app_with_results(2);
    handle_key(&mut app, Key::Down);
    assert!(matches!(handle_key(&mut app, Key::Enter), Action::CheckSudo));
    assert!(matches!(app.continue_install(true), Action::Idle));
    assert!(app.mode == AppMode::Password);
    handle_key(&mut app, Key::Char('p'));
    handle_key(&mut app, Key::Char('w'));
    handle_key(&mut app, Key::Char('x'));
    handle_key(&mut app, Key::Backspace);
    assert_eq!(app.password_input, "pw");
    match handle_key(&mut app, Key::Enter) {
        Action::StartInstall { package, password, uninstall } => {
            assert_eq!(package.name, "core/p1 1");
            assert_eq!(password, Some("pw".to_string()));
            assert!(!uninstall);
        }
        _ => panic!("expected an installation"),
    }
    assert!(app.mode == AppMode::Authenticating);
    assert_eq!(app.password_input, "");
    assert!(app.install_listening);
}

#[test]
fn install_without_password_starts_at_once() {
    let mut app = app_with_results(1);
    app.action = ActionType::Uninstall;
    match app.continue_install(false) {
        Action::StartInstall { password, uninstall, .. } => {
            assert_eq!(password, None);
            assert!(uninstall);
        }
        _ => panic!("expected an installation"),
    }
}

#[test]
fn install_needs_a_selection() {
    let mut app = app_with_results(0);
    app.mode = AppMode::List;
    assert!(matches!(handle_key(&mut app, Key::Enter), Action::Idle));
    assert!(matches!(app.continue_install(false), Action::Idle));
    assert!(matches!(app.start_install_process(None), Action::Idle));
}

#[test]
fn esc_in_password_returns_to_list() {
    let mut app = app_with_results(1);
    app.continue_install(true);
    app.password_error = Some("bad".to_string());
    handle_key(&mut app, Key::Esc);
    assert!(app.mode == AppMode::List);
    assert_eq!(app.password_error, None);
}

#[test]
fn input_is_blocked_while_installing() {
    let mut app = app_with_results(2);
    for mode in [AppMode::Installing, AppMode::Authenticating] {
        app.mode = mode;
        for key in [Key::Enter, Key::Esc, Key::Char('a'), Key::Backspace, Key::Up, Key::Down] {
            assert!(matches!(handle_key(&mut app, key), Action::Idle));
            assert!(app.mode == mode);
            assert_eq!(app.search_input, "");
            assert_eq!(app.selected, Some(0));
        }
    }
}

#[test]
fn install_messages_drive_the_log() {
    let mut app = app_with_results(1);
    app.start_install_process(None);
    app.receive_install_message(starting_message(&app.search_results[0].clone()));
    assert!(app.mode == AppMode::Installing);
    assert_eq!(app.install_logs, vec!["Starting installation for core/p0 1...".to_string()]);
    app.receive_install_message("resolving dependencies...".to_string());
    app.receive_install_message(finish_message(true, ""));
    assert!(app.mode == AppMode::InstallComplete);
    assert_eq!(app.install_logs.len(), 3);
    handle_key(&mut app, Key::Enter);
    assert!(app.mode == AppMode::Search);
    assert!(app.install_logs.is_empty());
    assert!(!app.install_listening);
}

#[test]
fn beta_frames_replace_each_other() {
    let mut app = app_with_results(1);
    app.start_install_process(None);
    app.receive_install_message(progress_message(true, 0, "x".to_string()));
    assert_eq!(app.install_logs, vec!["Installing... [C o o o]".to_string()]);
    app.receive_install_message(progress_message(true, 1, "y".to_string()));
    app.receive_install_message(progress_message(true, 9, "z".to_string()));
    assert_eq!(app.install_logs, vec!["Installing... [c  o o o]".to_string()]);
    app.receive_install_message(progress_message(false, 2, "plain".to_string()));
    assert_eq!(app.install_logs.len(), 2);
    assert_eq!(app.install_logs[1], "plain");
}

#[test]
fn frame_marker_is_removed_everywhere() {
    let mut app = app_with_results(1);
    app.receive_install_message("CLRLINE_ILOVECANDYaCLRLINE_ILOVECANDYb".to_string());
    assert_eq!(app.install_logs, vec!["ab".to_string()]);
}

#[test]
fn rejected_password_returns_to_prompt() {
    let mut app = app_with_results(1);
    app.start_install_process(Some("bad".to_string()));
    app.password_input = "leftover".to_string();
    app.receive_install_message(password_rejected_message());
    assert!(app.mode == AppMode::Password);
    assert_eq!(app.password_error, Some("Incorrect password. Please try again.".to_string()));
    assert_eq!(app.password_input, "");
    assert!(app.install_logs.is_empty());
    assert!(!app.install_listening);
    let mut other = app_with_results(1);
    other.start_install_process(None);
    other.receive_install_message("sudo: Sorry, try again.".to_string());
    assert!(other.mode == AppMode::Password);
}

#[test]
fn failure_message_completes_installation() {
    let mut app = app_with_results(1);
    app.start_install_process(None);
    app.receive_install_message(finish_message(false, "exit status: 1"));
    assert!(app.mode == AppMode::InstallComplete);
    assert_eq!(
        app.install_logs[0],
        "\nInstallation failed with status: exit status: 1 [Press Esc to return]"
    );
}

#[test]
fn debounce_waits_150_ms() {
    let mut app = app_with_results(0);
    app.search_input = "vim".to_string();
    assert!(matches!(app.check_debounce(Some(500)), Action::Idle));
    app.mark_search_dirty();
    assert!(matches!(app.check_debounce(None), Action::Idle));
    assert!(matches!(app.check_debounce(Some(149)), Action::Idle));
    assert!(app.search_pending);
    match app.check_debounce(Some(150)) {
        Action::SpawnSearch { query, installed_only } => {
            assert_eq!(query, "vim");
            assert!(!installed_only);
        }
        _ => panic!("expected a background search"),
    }
    assert!(!app.search_pending);
    assert!(app.search_waiting);
}

#[test]
fn debounce_skips_short_or_blank_queries() {
    let mut app = app_with_results(0);
    for q in ["ab", "   ", "\u{e9}"] {
        app.search_input = q.to_string();
        app.mark_search_dirty();
        assert!(matches!(app.check_debounce(Some(1000)), Action::Idle));
        assert!(!app.search_pending);
        assert!(!app.search_waiting);
    }
    // Two characters of two bytes each are four bytes: long enough.
    app.search_input = "\u{e9}\u{e9}".to_string();
    app.mark_search_dirty();
    assert!(matches!(app.check_debounce(Some(1000)), Action::SpawnSearch { .. }));
}

#[test]
fn poll_takes_results_only_when_waiting() {
    let mut app = app_with_results(0);
    app.poll_search_results(Some(vec![pkg("core/a 1")]));
    assert!(app.search_results.is_empty());
    app.search_waiting = true;
    app.poll_search_results(None);
    assert!(app.search_waiting);
    app.poll_search_results(Some(vec![pkg("core/a 1"), pkg("core/b 1")]));
    assert_eq!(app.search_results.len(), 2);
    assert_eq!(app.selected, Some(0));
    assert!(!app.search_waiting);
    assert!(app.mode == AppMode::Search);
    app.search_waiting = true;
    app.poll_search_results(Some(vec![]));
    assert_eq!(app.selected, None);
}

#[test]
fn scrolling_focuses_the_list() {
    let mut app = app_with_results(3);
    app.mode = AppMode::Search;
    handle_mouse(&mut app, MouseInput::ScrollDown);
    assert!(app.mode == AppMode::List);
    assert_eq!(app.selected, Some(1));
    handle_mouse(&mut app, MouseInput::ScrollUp);
    handle_mouse(&mut app, MouseInput::ScrollUp);
    assert_eq!(app.selected, Some(2));
    let mut empty = app_with_results(0);
    handle_mouse(&mut empty, MouseInput::ScrollDown);
    assert!(empty.mode == AppMode::Search);
    assert_eq!(empty.selected, None);
}

#[test]
fn debounce_fires_once_between_keystrokes() {
    let mut app = app_with_results(0);
    app.search_input = "vim".to_string();
    app.mark_search_dirty();
    let mut fired = 0;
    for ms in [10u128, 200, 300, 1000, 5000] {
        if matches!(app.check_debounce(Some(ms)), Action::SpawnSearch { .. }) {
            fired += 1;
        }
    }
    assert_eq!(fired, 1);
    assert!(!app.search_pending);
}
