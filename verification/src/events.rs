use vstd::prelude::*;

use crate::app::{ActionType, ActionView, App, AppMode, AppView, Action};
use crate::text::{all_white, pop_char, push_char, utf8_len};

verus! {

/// A key press, as far as the interface tells keys apart.
#[derive(PartialEq, Eq, Structural, Clone, Copy, Debug)]
pub enum Key {
    Enter,
    Char(char),
    Backspace,
    Esc,
    Up,
    Down,
    Other,
}

/// A mouse event, as far as the interface tells them apart. `row` is the terminal row
/// of a left-button press.
#[derive(PartialEq, Eq, Structural, Clone, Copy, Debug)]
pub enum MouseInput {
    ScrollDown,
    ScrollUp,
    LeftDown { row: u16 },
    Other,
}

/// `s` without its last character (unchanged when empty), as `String::pop` leaves it.
pub open spec fn without_last(s: Seq<char>) -> Seq<char> {
    if s.len() == 0 {
        s
    } else {
        s.drop_last()
    }
}

/// The effect of one key press: the new state and what the program is asked to do.
pub open spec fn key_step(v: AppView, key: Key) -> (AppView, ActionView) {
    match v.mode {
        // --- In the search box ---
        AppMode::Search => match key {
            Key::Enter => (
                v,
                ActionView::RunSearch {
                    query: v.search_input,
                    installed_only: v.action != ActionType::Install,
                },
            ),
            Key::Char(c) => (AppView { search_input: v.search_input.push(c), ..v }, ActionView::Idle),
            Key::Backspace => (
                AppView { search_input: without_last(v.search_input), ..v },
                ActionView::Idle,
            ),
            Key::Esc => (AppView { should_quit: true, ..v }, ActionView::Idle),
            Key::Down => (
                if v.search_results.len() > 0 {
                    AppView { mode: AppMode::List, ..v }
                } else {
                    v
                },
                ActionView::Idle,
            ),
            _ => (v, ActionView::Idle),
        },
        // --- Navigating the list ---
        AppMode::List => match key {
            Key::Char('q') | Key::Esc => (
                AppView { mode: AppMode::Search, selected: None, ..v },
                ActionView::Idle,
            ),
            Key::Down | Key::Char('j') => (v.select_next(), ActionView::Idle),
            Key::Up | Key::Char('k') => (v.select_previous(), ActionView::Idle),
            Key::Enter => (
                v,
                if v.selected is Some {
                    ActionView::CheckSudo
                } else {
                    ActionView::Idle
                },
            ),
            Key::Char(c) => (
                AppView {
                    mode: AppMode::Search,
                    search_input: v.search_input.push(c),
                    selected: None,
                    ..v
                },
                ActionView::Idle,
            ),
            Key::Backspace => (
                AppView {
                    mode: AppMode::Search,
                    search_input: without_last(v.search_input),
                    selected: None,
                    ..v
                },
                ActionView::Idle,
            ),
            _ => (v, ActionView::Idle),
        },
        // --- Entering the sudo password ---
        AppMode::Password => match key {
            Key::Enter => (AppView {
                password_input: Seq::empty(),
                password_error: None,
                ..v
            }).begin_install(Some(v.password_input)),
            Key::Char(c) => (
                AppView { password_input: v.password_input.push(c), password_error: None, ..v },
                ActionView::Idle,
            ),
            Key::Backspace => (
                AppView {
                    password_input: without_last(v.password_input),
                    password_error: None,
                    ..v
                },
                ActionView::Idle,
            ),
            Key::Esc => (
                AppView { mode: AppMode::List, password_error: None, ..v },
                ActionView::Idle,
            ),
            _ => (v, ActionView::Idle),
        },
        // --- Back from a finished installation ---
        AppMode::InstallComplete => match key {
            Key::Enter | Key::Esc => (
                AppView {
                    mode: AppMode::Search,
                    install_logs: Seq::empty(),
                    install_listening: false,
                    ..v
                },
                ActionView::Idle,
            ),
            _ => (v, ActionView::Idle),
        },
        // --- The hub: choose between installing and removing ---
        AppMode::Home => match key {
            Key::Up | Key::Down | Key::Char('k') | Key::Char('j') => (
                AppView { home_selected_index: other_entry(v.home_selected_index), ..v },
                ActionView::Idle,
            ),
            Key::Enter => (
                AppView { mode: AppMode::Search, action: hub_action(v.home_selected_index), ..v },
                ActionView::Idle,
            ),
            Key::Esc => (AppView { should_quit: true, ..v }, ActionView::Idle),
            _ => (v, ActionView::Idle),
        },
        // --- Input is blocked while installing or authenticating ---
        _ => (v, ActionView::Idle),
    }
}

/// The hub has two entries; moving either way selects the other one.
pub open spec fn other_entry(i: usize) -> usize {
    if i == 0 {
        1
    } else {
        0
    }
}

/// Entry 0 of the hub installs packages, entry 1 removes them.
pub open spec fn hub_action(i: usize) -> ActionType {
    if i == 0 {
        ActionType::Install
    } else {
        ActionType::Uninstall
    }
}

/// The effect of a mouse event: scrolling moves the list selection and focuses the
/// list, when there are results.
pub open spec fn mouse_step(v: AppView, mouse: MouseInput) -> AppView {
    match mouse {
        MouseInput::ScrollDown => if v.search_results.len() > 0 {
            (AppView { mode: AppMode::List, ..v }).select_next()
        } else {
            v
        },
        MouseInput::ScrollUp => if v.search_results.len() > 0 {
            (AppView { mode: AppMode::List, ..v }).select_previous()
        } else {
            v
        },
        _ => v,
    }
}

/// Handles one key press.
pub fn handle_key(app: &mut App, key: Key) -> (r: Action)
    ensures
        (final(app)@, r@) == key_step(old(app)@, key),
{
    match app.mode {
        AppMode::Search => match key {
            Key::Enter => Action::RunSearch {
                query: app.search_input.clone(),
                installed_only: app.action != ActionType::Install,
            },
            Key::Char(c) => {
                push_char(&mut app.search_input, c);
                Action::Idle
            },
            Key::Backspace => {
                pop_char(&mut app.search_input);
                Action::Idle
            },
            Key::Esc => {
                app.should_quit = true;
                Action::Idle
            },
            Key::Down => {
                if app.search_results.len() > 0 {
                    app.mode = AppMode::List;
                }
                Action::Idle
            },
            _ => Action::Idle,
        },
        AppMode::List => match key {
            Key::Char('q') | Key::Esc => {
                app.mode = AppMode::Search;
                app.selected = None;
                Action::Idle
            },
            Key::Down | Key::Char('j') => {
                app.next();
                Action::Idle
            },
            Key::Up | Key::Char('k') => {
                app.previous();
                Action::Idle
            },
            Key::Enter => app.execute_install(),
            Key::Char(c) => {
                app.mode = AppMode::Search;
                push_char(&mut app.search_input, c);
                app.selected = None;
                Action::Idle
            },
            Key::Backspace => {
                app.mode = AppMode::Search;
                pop_char(&mut app.search_input);
                app.selected = None;
                Action::Idle
            },
            _ => Action::Idle,
        },
        AppMode::Password => match key {
            Key::Enter => {
                let pw = app.password_input.clone();
                app.password_input = String::new();
                app.password_error = None;
                app.start_install_process(Some(pw))
            },
            Key::Char(c) => {
                push_char(&mut app.password_input, c);
                app.password_error = None;
                Action::Idle
            },
            Key::Backspace => {
                pop_char(&mut app.password_input);
                app.password_error = None;
                Action::Idle
            },
            Key::Esc => {
                app.mode = AppMode::List;
                app.password_error = None;
                Action::Idle
            },
            _ => Action::Idle,
        },
        AppMode::InstallComplete => match key {
            Key::Enter | Key::Esc => {
                app.mode = AppMode::Search;
                app.install_logs.clear();
                app.install_listening = false;
                assert(app.install_logs.deep_view() =~= Seq::<Seq<char>>::empty());
                Action::Idle
            },
            _ => Action::Idle,
        },
        AppMode::Home => match key {
            Key::Up | Key::Down | Key::Char('k') | Key::Char('j') => {
                app.home_selected_index = if app.home_selected_index == 0 {
                    1
                } else {
                    0
                };
                Action::Idle
            },
            Key::Enter => {
                app.mode = AppMode::Search;
                app.action = if app.home_selected_index == 0 {
                    ActionType::Install
                } else {
                    ActionType::Uninstall
                };
                Action::Idle
            },
            Key::Esc => {
                app.should_quit = true;
                Action::Idle
            },
            _ => Action::Idle,
        },
        _ => Action::Idle,
    }
}

/// Handles one mouse event.
pub fn handle_mouse(app: &mut App, mouse: MouseInput)
    ensures
        final(app)@ == mouse_step(old(app)@, mouse),
{
    match mouse {
        MouseInput::ScrollDown => {
            if app.search_results.len() > 0 {
                app.mode = AppMode::List;
                app.next();
            }
        },
        MouseInput::ScrollUp => {
            if app.search_results.len() > 0 {
                app.mode = AppMode::List;
                app.previous();
            }
        },
        _ => {},
    }
}

/// Typing a character in the search box and erasing it again leaves everything as it was.
pub proof fn lemma_type_then_erase(v: AppView, c: char)
    requires
        v.mode == AppMode::Search,
    ensures
        key_step(key_step(v, Key::Char(c)).0, Key::Backspace) == (v, ActionView::Idle),
{
    assert(v.search_input.push(c).drop_last() =~= v.search_input);
    assert(key_step(key_step(v, Key::Char(c)).0, Key::Backspace).0 =~= v);
}

/// While authenticating or installing, no key changes anything or asks for anything.
pub proof fn lemma_input_blocked(v: AppView, key: Key)
    requires
        v.mode == AppMode::Authenticating || v.mode == AppMode::Installing,
    ensures
        key_step(v, key) == (v, ActionView::Idle),
{
}

/// Only Esc in the search box or on the hub quits.
pub proof fn lemma_only_esc_quits(v: AppView, key: Key)
    requires
        !v.should_quit,
        key_step(v, key).0.should_quit,
    ensures
        v.mode == AppMode::Search || v.mode == AppMode::Home,
        key == Key::Esc,
{
}

/// In the list, turning the mouse wheel does what the arrow keys do.
pub proof fn lemma_wheel_matches_arrows(v: AppView)
    requires
        v.mode == AppMode::List,
        v.search_results.len() > 0,
    ensures
        mouse_step(v, MouseInput::ScrollDown) == key_step(v, Key::Down).0,
        mouse_step(v, MouseInput::ScrollUp) == key_step(v, Key::Up).0,
{
    assert(AppView { mode: AppMode::List, ..v } =~= v);
}

/// On the hub, moving twice comes back to the same entry.
pub proof fn lemma_hub_round_trip(v: AppView, first: Key, second: Key)
    requires
        v.mode == AppMode::Home,
        v.home_selected_index <= 1,
        first == Key::Up || first == Key::Down,
        second == Key::Up || second == Key::Down,
    ensures
        key_step(key_step(v, first).0, second) == (v, ActionView::Idle),
{
    assert(key_step(key_step(v, first).0, second).0 =~= v);
}

/// On the screen of a finished installation, Esc does exactly what Enter does: back to
/// the search box with an empty log, no longer listening to the installer, asking for
/// nothing.
pub proof fn lemma_finished_screen_esc_is_enter(v: AppView)
    requires
        v.mode == AppMode::InstallComplete,
    ensures
        key_step(v, Key::Esc) == key_step(v, Key::Enter),
        key_step(v, Key::Esc) == (
            AppView {
                mode: AppMode::Search,
                install_logs: Seq::empty(),
                install_listening: false,
                ..v
            },
            ActionView::Idle,
        ),
        key_step(v, Key::Esc).0.mode != v.mode,
{
}

/// When the debounce fires on a query that is not blank and has at least three bytes, the
/// background search asks for the typed query, restricted to installed packages exactly
/// when removing; that is the search Enter asks for in the search box.
pub proof fn lemma_background_search_scope(v: AppView, elapsed_ms: Option<u128>)
    requires
        v.search_pending,
        elapsed_ms is Some,
        elapsed_ms->0 >= 150,
        !all_white(v.search_input),
        utf8_len(v.search_input) >= 3,
    ensures
        v.debounce_step(elapsed_ms) == (
            AppView { search_pending: false, search_waiting: true, ..v },
            ActionView::SpawnSearch {
                query: v.search_input,
                installed_only: v.action == ActionType::Uninstall,
            },
        ),
        v.mode == AppMode::Search ==> key_step(v, Key::Enter).1 == (ActionView::RunSearch {
            query: v.search_input,
            installed_only: v.action == ActionType::Uninstall,
        }),
{
}

/// A debounce check that does not fire, in particular one made before 150 ms have passed
/// since the last keystroke, changes nothing and asks for nothing; one that fires on a
/// blank input, or on one shorter than three bytes, only clears the pending flag.
pub proof fn lemma_debounce_without_search(v: AppView, elapsed_ms: Option<u128>)
    ensures
        !v.debounce_fires(elapsed_ms) ==> v.debounce_step(elapsed_ms) == (v, ActionView::Idle),
        elapsed_ms is None || elapsed_ms->0 < 150 ==> v.debounce_step(elapsed_ms) == (
            v,
            ActionView::Idle,
        ),
        v.debounce_fires(elapsed_ms) && (all_white(v.search_input) || utf8_len(v.search_input)
            < 3) ==> v.debounce_step(elapsed_ms) == (
            AppView { search_pending: false, ..v },
            ActionView::Idle,
        ),
{
}

/// In the result list `j` moves down and `k` moves up, exactly as the arrow keys do;
/// down goes to the next item and up to the previous one, both wrapping around the list;
/// with nothing selected either key selects the first item.
pub proof fn lemma_list_moves_wrap(v: AppView)
    requires
        v.mode == AppMode::List,
        v.search_results.len() > 0,
        v.search_results.len() <= usize::MAX,
        v.selected is None || v.selected->0 < v.search_results.len(),
    ensures
        key_step(v, Key::Char('j')) == key_step(v, Key::Down),
        key_step(v, Key::Char('k')) == key_step(v, Key::Up),
        key_step(v, Key::Down).1 == ActionView::Idle,
        key_step(v, Key::Up).1 == ActionView::Idle,
        key_step(v, Key::Down).0 == (AppView { selected: key_step(v, Key::Down).0.selected, ..v }),
        key_step(v, Key::Up).0 == (AppView { selected: key_step(v, Key::Up).0.selected, ..v }),
        v.selected is None ==> key_step(v, Key::Down).0.selected == Some(0usize)
            && key_step(v, Key::Up).0.selected == Some(0usize),
        v.selected is Some ==> key_step(v, Key::Down).0.selected->0 == (v.selected->0 + 1)
            % (v.search_results.len() as int),
        v.selected is Some ==> key_step(v, Key::Up).0.selected->0 == (v.selected->0
            + v.search_results.len() - 1) % (v.search_results.len() as int),
{
    let len = v.search_results.len();
    if v.selected is Some {
        let i = v.selected->0;
        if i + 1 == len {
            assert((i + 1) % (len as int) == 0) by (nonlinear_arith)
                requires
                    i + 1 == len,
                    len > 0,
            ;
        } else {
            assert((i + 1) % (len as int) == i + 1) by (nonlinear_arith)
                requires
                    i + 1 < len,
                    0 <= i,
            ;
        }
        if i == 0 {
            assert((i + len - 1) % (len as int) == len - 1) by (nonlinear_arith)
                requires
                    i == 0,
                    len > 0,
            ;
        } else {
            assert((i + len - 1) % (len as int) == i - 1) by (nonlinear_arith)
                requires
                    0 < i < len,
            ;
        }
    }
    assert(key_step(v, Key::Down).0 =~= (AppView { selected: key_step(v, Key::Down).0.selected, ..v }));
    assert(key_step(v, Key::Up).0 =~= (AppView { selected: key_step(v, Key::Up).0.selected, ..v }));
}

/// Leaving the list with Esc or `q` goes back to the search box with nothing selected;
/// typing any other character there goes back too and types it.
pub proof fn lemma_leaving_the_list(v: AppView, c: char)
    requires
        v.mode == AppMode::List,
        c != 'q' && c != 'j' && c != 'k',
    ensures
        key_step(v, Key::Esc) == key_step(v, Key::Char('q')),
        key_step(v, Key::Esc) == (
            AppView { mode: AppMode::Search, selected: None, ..v },
            ActionView::Idle,
        ),
        key_step(v, Key::Char(c)) == (
            AppView { mode: AppMode::Search, search_input: v.search_input.push(c), selected: None, ..v },
            ActionView::Idle,
        ),
{
}

/// In the search box a typed character is added at the end of the query and asks for
/// nothing; Enter asks for a search of the query as typed; Down moves to the result list
/// when there are results, keeping the selection.
pub proof fn lemma_typing_in_search_box(v: AppView, c: char)
    requires
        v.mode == AppMode::Search,
    ensures
        key_step(v, Key::Char(c)) == (
            AppView { search_input: v.search_input.push(c), ..v },
            ActionView::Idle,
        ),
        key_step(v, Key::Char(c)).0.search_input.len() == v.search_input.len() + 1,
        key_step(v, Key::Char(c)).0.search_input.last() == c,
        key_step(v, Key::Enter).0 == v,
        key_step(v, Key::Enter).1 is RunSearch,
        key_step(v, Key::Enter).1->RunSearch_query == v.search_input,
        v.search_results.len() > 0 ==> key_step(v, Key::Down) == (
            AppView { mode: AppMode::List, ..v },
            ActionView::Idle,
        ),
        v.search_results.len() == 0 ==> key_step(v, Key::Down) == (v, ActionView::Idle),
{
}

/// Enter at the password prompt starts the installation of the selected package with
/// exactly the password typed, and clears the typed password; Esc goes back to the list.
pub proof fn lemma_password_enter_starts_install(v: AppView)
    requires
        v.mode == AppMode::Password,
        v.selected is Some,
        v.selected->0 < v.search_results.len(),
    ensures
        key_step(v, Key::Enter).1 == (ActionView::StartInstall {
            package: v.search_results[v.selected->0 as int],
            password: Some(v.password_input),
            uninstall: v.action == ActionType::Uninstall,
        }),
        key_step(v, Key::Enter).0.mode == AppMode::Authenticating,
        key_step(v, Key::Enter).0.password_input == Seq::<char>::empty(),
        key_step(v, Key::Enter).0.install_listening,
        key_step(v, Key::Esc) == (
            AppView { mode: AppMode::List, password_error: None, ..v },
            ActionView::Idle,
        ),
{
}

/// Enter on the hub opens the search box for installing from the first entry and for
/// removing from the second.
pub proof fn lemma_hub_enter_chooses_action(v: AppView)
    requires
        v.mode == AppMode::Home,
    ensures
        key_step(v, Key::Enter).0.mode == AppMode::Search,
        key_step(v, Key::Enter).1 == ActionView::Idle,
        v.home_selected_index == 0 ==> key_step(v, Key::Enter).0.action == ActionType::Install,
        v.home_selected_index == 1 ==> key_step(v, Key::Enter).0.action == ActionType::Uninstall,
{
}

} // verus!
