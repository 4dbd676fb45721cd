use pebble::app::{App, AppMode};
use pebble::backend::install::{
    animation_frame, install_arguments, package_id, spawn_failure_message, wait_failure_message,
};
use pebble::events::{Key, MouseInput};
use pebble::input;
use pebble::install::{confirming_arguments, plan, InstallStep};
use pebble::models::{AppConfig, Package};
use pebble::mouse::handle_mouse;
use pebble::select::prompt::processor::read_number;
use pebble::select::{self, accepts_lowered, is_confirmation, read_choice, Choice};
use pebble::text::{char_is_whitespace, trim_string};
use pebble::ui::{footer_hint, log_scroll, masked_password, package_label, password_title, shows_install_logs};

fn pkg(name: &str) -> Package {
    Package { name: name.to_string(), description: "d".to_string() }
}

#[test]
fn choice_reading() {
    assert_eq!(read_choice("   \n", 5), Choice::Blank);
    assert_eq!(read_choice(" 2\n", 5), Choice::Chosen(1));
    assert_eq!(read_choice("+5", 5), Choice::Chosen(4));
    assert_eq!(read_choice("0", 5), Choice::Invalid);
    assert_eq!(read_choice("6", 5), Choice::Invalid);
    assert_eq!(read_choice("-1", 5), Choice::Invalid);
    assert_eq!(read_choice("two", 5), Choice::Invalid);
    assert_eq!(read_choice("1 2", 5), Choice::Invalid);
    assert_eq!(read_choice("99999999999999999999999", 5), Choice::Invalid);
}

#[test]
fn number_reading_is_one_based() {
    assert_eq!(read_number(" 3 ", 3), Some(3));
    assert_eq!(read_number("4", 3), None);
    assert_eq!(read_number("", 3), None);
    assert_eq!(read_number("0", 3), None);
}

#[test]
fn confirmation_defaults_to_yes() {
    assert!(is_confirmation("\n"));
    assert!(is_confirmation("Y\n"));
    assert!(is_confirmation("  yEs "));
    assert!(!is_confirmation("n"));
    assert!(!is_confirmation("yess"));
}

#[test]
fn selection_process() {
    let results = vec![pkg("core/a 1"), pkg("core/b 1")];
    assert!(select::process(Vec::new(), 0, true).is_none());
    assert!(select::process(results.clone(), 1, false).is_none());
    assert_eq!(select::process(results.clone(), 1, true).unwrap().name, "core/b 1");
    assert_eq!(select::processor::process(results.clone(), 1, true).unwrap().name, "core/a 1");
    assert!(select::processor::process(results.clone(), 3, true).is_none());
    assert!(select::processor::process(results, 2, false).is_none());
}

#[test]
fn typed_search_is_trimmed() {
    assert_eq!(input::process("  vim \n"), Some("vim".to_string()));
    assert_eq!(input::process("\u{3000} \t\n"), None);
    assert_eq!(trim_string("\u{a0}x y\u{2003}"), "x y");
}

#[test]
fn install_plans() {
    let cfg = AppConfig { beta_mode: false };
    let beta = AppConfig { beta_mode: true };
    assert!(matches!(plan(None, &cfg), InstallStep::Aborted));
    match plan(Some(pkg("extra/vim 9.0-1 [installed]")), &cfg) {
        InstallStep::Normal { arguments } => {
            assert_eq!(arguments, vec!["pacman", "-S", "--noconfirm", "extra/vim"])
        }
        _ => panic!("expected a normal installation"),
    }
    match plan(Some(pkg("extra/vim 9.0-1")), &beta) {
        InstallStep::Beta { arguments } => {
            assert_eq!(arguments, vec!["pacman", "-S", "--noconfirm", "extra/vim"])
        }
        _ => panic!("expected a beta installation"),
    }
}

#[test]
fn install_commands() {
    let p = pkg("  extra/vim 9.0-1");
    assert_eq!(package_id(&p), "extra/vim");
    assert_eq!(package_id(&pkg("   ")), "   ");
    assert_eq!(install_arguments(&p), vec!["pacman", "-S", "--noconfirm", "extra/vim"]);
    assert_eq!(confirming_arguments(&p), vec!["pacman", "-S", "extra/vim"]);
}

#[test]
fn install_failure_texts() {
    assert_eq!(spawn_failure_message("no sudo"), "Failed to spawn sudo command: no sudo");
    assert_eq!(
        wait_failure_message("gone"),
        "\nFailed to wait for the command: gone [Press Esc to return]"
    );
    assert_eq!(animation_frame(7), "c       ");
    assert_eq!(animation_frame(8), "C o o o");
}

#[test]
fn config_from_arguments() {
    let args = |v: &[&str]| v.iter().map(|s| s.to_string()).collect::<Vec<String>>();
    assert!(!AppConfig::parse_args(&args(&["pebble"])).beta_mode);
    assert!(AppConfig::parse_args(&args(&["pebble", "--beta"])).beta_mode);
    assert!(AppConfig::parse_args(&args(&["pebble", "x", "beta"])).beta_mode);
    assert!(!AppConfig::parse_args(&args(&["pebble", "--betas"])).beta_mode);
}

#[test]
fn footer_hints() {
    assert_eq!(footer_hint(AppMode::Search), "[Enter] Search   [Esc] Quit   [Up/Down] Navigate");
    assert_eq!(footer_hint(AppMode::InstallComplete), "[Enter/Esc] Return to Hub");
    assert_eq!(footer_hint(AppMode::Home), "[Up/Down] Choose   [Enter] Select   [Esc] Quit");
    assert!(shows_install_logs(AppMode::Authenticating));
    assert!(!shows_install_logs(AppMode::List));
}

#[test]
fn log_scrolling() {
    assert_eq!(log_scroll(5, 10), 0);
    assert_eq!(log_scroll(20, 10), 12);
    assert_eq!(log_scroll(3, 1), 3);
    assert_eq!(log_scroll(65536 + 20, 10), 12);
}

#[test]
fn password_display() {
    assert_eq!(masked_password("abc"), "***");
    assert_eq!(masked_password("\u{e9}"), "**");
    assert_eq!(password_title(&None), " Sudo Password Required ");
    assert_eq!(password_title(&Some("Wrong".to_string())), " Wrong ");
}

#[test]
fn labels() {
    assert_eq!(package_label(&pkg("core/linux 6.1")), "core/linux");
    assert_eq!(package_label(&pkg(" ")), "Unknown");
}

#[test]
fn mouse_to_keys() {
    let mut app = App::new(AppConfig { beta_mode: false });
    app.mode = AppMode::Search;
    assert_eq!(handle_mouse(&app, MouseInput::ScrollDown), None);
    app.search_results = vec![pkg("core/a 1")];
    assert_eq!(handle_mouse(&app, MouseInput::ScrollDown), Some(Key::Down));
    assert_eq!(handle_mouse(&app, MouseInput::ScrollUp), Some(Key::Up));
    assert_eq!(handle_mouse(&app, MouseInput::LeftDown { row: 7 }), Some(Key::Down));
    assert_eq!(handle_mouse(&app, MouseInput::LeftDown { row: 2 }), None);
    app.mode = AppMode::List;
    assert_eq!(handle_mouse(&app, MouseInput::LeftDown { row: 5 }), Some(Key::Esc));
    assert_eq!(handle_mouse(&app, MouseInput::LeftDown { row: 6 }), None);
    app.mode = AppMode::Installing;
    assert_eq!(handle_mouse(&app, MouseInput::ScrollDown), None);
    assert_eq!(handle_mouse(&app, MouseInput::Other), None);
}

#[test]
fn lowered_answers() {
    assert!(accepts_lowered(""));
    assert!(accepts_lowered("yes"));
    assert!(!accepts_lowered("YES"));
    assert!(!accepts_lowered(" y"));
}

#[test]
fn white_space_characters() {
    for c in [' ', '\t', '\n', '\u{b}', '\u{c}', '\r', '\u{85}', '\u{a0}', '\u{1680}', '\u{2000}', '\u{200a}', '\u{2028}', '\u{2029}', '\u{202f}', '\u{205f}', '\u{3000}'] {
        assert!(char_is_whitespace(c));
        assert!(c.is_whitespace());
    }
    for c in ['a', '\u{200b}', '\u{180e}', '\u{8}', '\u{e}', '_'] {
        assert!(!char_is_whitespace(c));
        assert!(!c.is_whitespace());
    }
}
