use vstd::prelude::*;

use crate::backend::install::{
    animation_frames, beta_progress_text, failure_text, rejected_text, starting_text,
    success_text,
};
use crate::models::{AppConfig, Package, PackageView};
use crate::text::{
    all_white, begins_with, chars_of, has_infix, has_prefix, is_blank, lacks_from,
    lemma_absent_char, lemma_lacks_from, lemma_remove_absent, lemma_remove_leading, occurs_at,
    occurs_in, remove_all, remove_occurrences, string_of, utf8_len, utf8_length,
};

verus! {

/// Which screen has the keyboard.
#[derive(PartialEq, Eq, Structural, Clone, Copy, Debug)]
pub enum AppMode {
    Home,
    Search,
    List,
    Password,
    Authenticating,
    Installing,
    InstallComplete,
}

/// Whether a chosen package is to be installed or removed.
#[derive(PartialEq, Eq, Structural, Clone, Copy, Debug)]
pub enum ActionType {
    Install,
    Uninstall,
}

/// The state of the terminal interface. The selection of the result list, and whether a
/// background search or installation is being listened to, are held as plain values; the
/// list widget, the channels and the clock belong to the program around the library.
pub struct App {
    pub config: AppConfig,
    pub mode: AppMode,
    pub action: ActionType,
    /// 0 for Install, 1 for Uninstall.
    pub home_selected_index: usize,
    // Search box state
    pub search_input: String,
    // Results list state
    pub search_results: Vec<Package>,
    pub selected: Option<usize>,
    // Background search state
    pub search_waiting: bool,
    pub search_pending: bool,
    // Installation state
    pub password_input: String,
    pub password_error: Option<String>,
    pub install_logs: Vec<String>,
    pub install_listening: bool,
    // Lifecycle flag
    pub should_quit: bool,
}

/// What the program around the library is asked to do after a state change.
pub enum Action {
    /// Nothing.
    Idle,
    /// Search now for `query` (installed packages only when `installed_only`) and hand
    /// the results to `App::finish_search`.
    RunSearch { query: String, installed_only: bool },
    /// Start a background search for `query` and hand its results to
    /// `App::poll_search_results` when they arrive.
    SpawnSearch { query: String, installed_only: bool },
    /// Find out whether sudo needs a password and hand the answer to
    /// `App::continue_install`.
    CheckSudo,
    /// Install (or, when `uninstall`, remove) `package`, authenticating with `password`
    /// when there is one; the progress messages go to `App::receive_install_message`.
    StartInstall { package: Package, password: Option<String>, uninstall: bool },
}

#[verifier::ext_equal]
pub struct AppView {
    pub beta_mode: bool,
    pub mode: AppMode,
    pub action: ActionType,
    pub home_selected_index: usize,
    pub search_input: Seq<char>,
    pub search_results: Seq<PackageView>,
    pub selected: Option<usize>,
    pub search_waiting: bool,
    pub search_pending: bool,
    pub password_input: Seq<char>,
    pub password_error: Option<Seq<char>>,
    pub install_logs: Seq<Seq<char>>,
    pub install_listening: bool,
    pub should_quit: bool,
}

pub enum ActionView {
    Idle,
    RunSearch { query: Seq<char>, installed_only: bool },
    SpawnSearch { query: Seq<char>, installed_only: bool },
    CheckSudo,
    StartInstall { package: PackageView, password: Option<Seq<char>>, uninstall: bool },
}

/// The characters of an optional string.
pub open spec fn opt_chars(o: Option<String>) -> Option<Seq<char>> {
    match o {
        Some(s) => Some(s@),
        None => None,
    }
}

impl View for App {
    type V = AppView;

    open spec fn view(&self) -> AppView {
        AppView {
            beta_mode: self.config.beta_mode,
            mode: self.mode,
            action: self.action,
            home_selected_index: self.home_selected_index,
            search_input: self.search_input@,
            search_results: self.search_results.deep_view(),
            selected: self.selected,
            search_waiting: self.search_waiting,
            search_pending: self.search_pending,
            password_input: self.password_input@,
            password_error: opt_chars(self.password_error),
            install_logs: self.install_logs.deep_view(),
            install_listening: self.install_listening,
            should_quit: self.should_quit,
        }
    }
}

impl View for Action {
    type V = ActionView;

    open spec fn view(&self) -> ActionView {
        match self {
            Action::Idle => ActionView::Idle,
            Action::RunSearch { query, installed_only } => ActionView::RunSearch {
                query: query@,
                installed_only: *installed_only,
            },
            Action::SpawnSearch { query, installed_only } => ActionView::SpawnSearch {
                query: query@,
                installed_only: *installed_only,
            },
            Action::CheckSudo => ActionView::CheckSudo,
            Action::StartInstall { package, password, uninstall } => ActionView::StartInstall {
                package: package@,
                password: opt_chars(*password),
                uninstall: *uninstall,
            },
        }
    }
}

// ---------------------------------------------------------------------------
// The transitions, stated over views
// ---------------------------------------------------------------------------

/// The last valid index of a list of `len` items (0 for an empty list).
pub open spec fn last_index(len: nat) -> nat {
    if len == 0 {
        0
    } else {
        (len - 1) as nat
    }
}

/// The selection after moving down: the next item, wrapping from the last to the first.
pub open spec fn next_index(sel: Option<usize>, len: nat) -> usize {
    match sel {
        Some(i) => if i >= last_index(len) {
            0
        } else {
            (i + 1) as usize
        },
        None => 0,
    }
}

/// The selection after moving up: the previous item, wrapping from the first to the last.
pub open spec fn previous_index(sel: Option<usize>, len: nat) -> usize {
    match sel {
        Some(i) => if i == 0 {
            last_index(len) as usize
        } else {
            (i - 1) as usize
        },
        None => 0,
    }
}

/// Messages the installer sends that the log window treats specially.
pub open spec fn install_start_marker() -> Seq<char> {
    "Starting installation for"@
}

pub open spec fn frame_marker() -> Seq<char> {
    "CLRLINE_ILOVECANDY"@
}

pub open spec fn frame_line_marker() -> Seq<char> {
    "Installing..."@
}

pub open spec fn incorrect_password_error() -> Seq<char> {
    "Incorrect password. Please try again."@
}

/// A message from sudo that the password was wrong.
pub open spec fn is_password_rejection(msg: Seq<char>) -> bool {
    occurs_in(msg, "1 incorrect password attempt"@) || occurs_in(msg, "Sorry, try again"@)
}

/// A message that the installation has ended.
pub open spec fn is_install_end(msg: Seq<char>) -> bool {
    occurs_in(msg, "Installation Complete"@) || occurs_in(msg, "failed with status"@)
}

impl AppView {
    /// The state of a freshly started interface.
    pub open spec fn initial(beta_mode: bool) -> AppView {
        AppView {
            beta_mode,
            mode: AppMode::Home,
            action: ActionType::Install,
            home_selected_index: 0,
            search_input: Seq::empty(),
            search_results: Seq::empty(),
            selected: None,
            search_waiting: false,
            search_pending: false,
            password_input: Seq::empty(),
            password_error: None,
            install_logs: Seq::empty(),
            install_listening: false,
            should_quit: false,
        }
    }

    pub open spec fn select_next(self) -> AppView {
        AppView { selected: Some(next_index(self.selected, self.search_results.len())), ..self }
    }

    pub open spec fn select_previous(self) -> AppView {
        AppView {
            selected: Some(previous_index(self.selected, self.search_results.len())),
            ..self
        }
    }

    /// New results replace the list; the first one is selected, if any.
    pub open spec fn with_results(self, results: Seq<PackageView>) -> AppView {
        AppView {
            search_results: results,
            selected: if results.len() > 0 {
                Some(0usize)
            } else {
                None
            },
            ..self
        }
    }

    /// Starting the installation of the selected package, if a package is selected.
    pub open spec fn begin_install(self, password: Option<Seq<char>>) -> (AppView, ActionView) {
        if self.selected is Some && self.selected->0 < self.search_results.len() {
            (
                AppView {
                    mode: AppMode::Authenticating,
                    install_logs: Seq::empty(),
                    install_listening: true,
                    ..self
                },
                ActionView::StartInstall {
                    package: self.search_results[self.selected->0 as int],
                    password,
                    uninstall: self.action == ActionType::Uninstall,
                },
            )
        } else {
            (self, ActionView::Idle)
        }
    }

    /// A background search for the current input, unless it is blank or shorter than
    /// three bytes.
    pub open spec fn trigger_search(self) -> (AppView, ActionView) {
        if all_white(self.search_input) || utf8_len(self.search_input) < 3 {
            (self, ActionView::Idle)
        } else {
            (
                AppView { search_waiting: true, ..self },
                ActionView::SpawnSearch {
                    query: self.search_input,
                    installed_only: self.action != ActionType::Install,
                },
            )
        }
    }

    /// The debounce fires: a search is pending and 150 ms have passed since the last
    /// keystroke.
    pub open spec fn debounce_fires(self, elapsed_ms: Option<u128>) -> bool {
        self.search_pending && elapsed_ms is Some && elapsed_ms->0 >= 150
    }

    /// One debounce check: when it fires the pending flag is cleared and a search is
    /// asked for; otherwise nothing changes.
    pub open spec fn debounce_step(self, elapsed_ms: Option<u128>) -> (AppView, ActionView) {
        if self.debounce_fires(elapsed_ms) {
            (AppView { search_pending: false, ..self }).trigger_search()
        } else {
            (self, ActionView::Idle)
        }
    }

    /// One message from the installer, as the main loop handles it.
    pub open spec fn after_message(self, msg: Seq<char>) -> AppView {
        let logs = self.install_logs;
        if begins_with(msg, install_start_marker()) {
            AppView { mode: AppMode::Installing, install_logs: logs.push(msg), ..self }
        } else if begins_with(msg, frame_marker()) {
            let frame = remove_all(msg, frame_marker());
            if logs.len() > 0 && begins_with(logs.last(), frame_line_marker()) {
                AppView { install_logs: logs.update(logs.len() - 1, frame), ..self }
            } else {
                AppView { install_logs: logs.push(frame), ..self }
            }
        } else if is_password_rejection(msg) {
            AppView {
                mode: AppMode::Password,
                password_error: Some(incorrect_password_error()),
                password_input: Seq::empty(),
                install_logs: Seq::empty(),
                install_listening: false,
                ..self
            }
        } else if is_install_end(msg) {
            AppView { install_logs: logs.push(msg), mode: AppMode::InstallComplete, ..self }
        } else {
            AppView { install_logs: logs.push(msg), ..self }
        }
    }
}

// ---------------------------------------------------------------------------
// Executable state changes
// ---------------------------------------------------------------------------

impl App {
    pub fn new(config: AppConfig) -> (r: App)
        ensures
            r@ == AppView::initial(config.beta_mode),
    {
        let r = App {
            config,
            mode: AppMode::Home,
            action: ActionType::Install,
            home_selected_index: 0,
            search_input: String::new(),
            search_results: Vec::new(),
            selected: None,
            search_waiting: false,
            search_pending: false,
            password_input: String::new(),
            password_error: None,
            install_logs: Vec::new(),
            install_listening: false,
            should_quit: false,
        };
        assert(r.search_results.deep_view() =~= Seq::<PackageView>::empty());
        assert(r.install_logs.deep_view() =~= Seq::<Seq<char>>::empty());
        r
    }

    /// Mark that the user typed something; the debounce fires the actual search later
    /// (the caller notes the time of the keystroke).
    pub fn mark_search_dirty(&mut self)
        ensures
            final(self)@ == (AppView { search_pending: true, ..old(self)@ }),
    {
        self.search_pending = true;
    }

    /// Called every frame with the milliseconds since the last keystroke (`None` when
    /// there was none): fires the background search once 150 ms have passed.
    pub fn check_debounce(&mut self, elapsed_ms: Option<u128>) -> (r: Action)
        ensures
            (final(self)@, r@) == old(self)@.debounce_step(elapsed_ms),
    {
        if !self.search_pending {
            return Action::Idle;
        }
        match elapsed_ms {
            Some(ms) => {
                if ms >= 150 {
                    self.search_pending = false;
                    self.trigger_search()
                } else {
                    Action::Idle
                }
            },
            None => Action::Idle,
        }
    }

    /// Asks for a background search of the current input.
    fn trigger_search(&mut self) -> (r: Action)
        ensures
            (final(self)@, r@) == old(self)@.trigger_search(),
    {
        let query = self.search_input.clone();
        let chars = chars_of(query.as_str());
        if is_blank(&chars) || utf8_length(&chars) < 3 {
            return Action::Idle;
        }
        self.search_waiting = true;
        Action::SpawnSearch { query, installed_only: self.action != ActionType::Install }
    }

    /// Called every frame with what the background search sent, if anything: takes
    /// results only while a search is awaited.
    pub fn poll_search_results(&mut self, received: Option<Vec<Package>>)
        ensures
            final(self)@ == (if old(self).search_waiting && received is Some {
                AppView { search_waiting: false, ..old(self)@.with_results(received->0.deep_view()) }
            } else {
                old(self)@
            }),
    {
        if self.search_waiting {
            match received {
                Some(results) => {
                    self.search_results = results;
                    if self.search_results.len() > 0 {
                        self.selected = Some(0);
                    } else {
                        self.selected = None;
                    }
                    self.search_waiting = false;
                },
                None => {},
            }
        }
    }

    /// Takes the results of a search run from the search box; focus moves to the list
    /// when there are any.
    pub fn finish_search(&mut self, results: Vec<Package>)
        ensures
            final(self)@ == (if results.len() > 0 {
                AppView { mode: AppMode::List, ..old(self)@.with_results(results.deep_view()) }
            } else {
                old(self)@.with_results(results.deep_view())
            }),
    {
        self.search_results = results;
        if self.search_results.len() > 0 {
            self.selected = Some(0);
            self.mode = AppMode::List;
        } else {
            self.selected = None;
        }
    }

    /// Install the selected package: first find out whether sudo needs a password.
    pub fn execute_install(&mut self) -> (r: Action)
        ensures
            final(self)@ == old(self)@,
            r@ == (if old(self).selected is Some {
                ActionView::CheckSudo
            } else {
                ActionView::Idle
            }),
    {
        if self.selected.is_some() {
            Action::CheckSudo
        } else {
            Action::Idle
        }
    }

    /// Goes on with the installation once it is known whether sudo needs a password:
    /// ask for it, or start right away.
    pub fn continue_install(&mut self, needs_password: bool) -> (r: Action)
        ensures
            (final(self)@, r@) == (if old(self).selected is None {
                (old(self)@, ActionView::Idle)
            } else if needs_password {
                (
                    AppView {
                        mode: AppMode::Password,
                        password_input: Seq::empty(),
                        password_error: None,
                        ..old(self)@
                    },
                    ActionView::Idle,
                )
            } else {
                old(self)@.begin_install(None)
            }),
    {
        if self.selected.is_none() {
            return Action::Idle;
        }
        if needs_password {
            self.mode = AppMode::Password;
            self.password_input = String::new();
            self.password_error = None;
            Action::Idle
        } else {
            self.start_install_process(None)
        }
    }

    /// Starts installing (or removing) the selected package with the given password.
    pub fn start_install_process(&mut self, password: Option<String>) -> (r: Action)
        ensures
            (final(self)@, r@) == old(self)@.begin_install(opt_chars(password)),
    {
        match self.selected {
            Some(i) => {
                if i < self.search_results.len() {
                    let package = self.search_results[i].copied();
                    self.mode = AppMode::Authenticating;
                    self.install_logs.clear();
                    self.install_listening = true;
                    assert(self.install_logs.deep_view() =~= Seq::<Seq<char>>::empty());
                    Action::StartInstall {
                        package,
                        password,
                        uninstall: self.action == ActionType::Uninstall,
                    }
                } else {
                    Action::Idle
                }
            },
            None => Action::Idle,
        }
    }

    /// Selects the next item, wrapping from the last to the first.
    pub fn next(&mut self)
        ensures
            final(self)@ == old(self)@.select_next(),
    {
        let len = self.search_results.len();
        let last = if len == 0 {
            0
        } else {
            len - 1
        };
        let i = match self.selected {
            Some(i) => if i >= last {
                0
            } else {
                i + 1
            },
            None => 0,
        };
        self.selected = Some(i);
    }

    /// Selects the previous item, wrapping from the first to the last.
    pub fn previous(&mut self)
        ensures
            final(self)@ == old(self)@.select_previous(),
    {
        let len = self.search_results.len();
        let last = if len == 0 {
            0
        } else {
            len - 1
        };
        let i = match self.selected {
            Some(i) => if i == 0 {
                last
            } else {
                i - 1
            },
            None => 0,
        };
        self.selected = Some(i);
    }

    /// Handles one message from the installer. After a rejected password the installer
    /// is no longer listened to (`install_listening` is false).
    pub fn receive_install_message(&mut self, msg: String)
        ensures
            final(self)@ == old(self)@.after_message(msg@),
    {
        let m = chars_of(msg.as_str());
        let start_marker = chars_of("Starting installation for");
        let frame_mark = chars_of("CLRLINE_ILOVECANDY");
        let frame_line = chars_of("Installing...");
        let rejected_a = chars_of("1 incorrect password attempt");
        let rejected_b = chars_of("Sorry, try again");
        let end_a = chars_of("Installation Complete");
        let end_b = chars_of("failed with status");
        let ghost logs = self.install_logs.deep_view();
        if has_prefix(&m, &start_marker) {
            self.mode = AppMode::Installing;
            self.install_logs.push(msg);
            assert(self.install_logs.deep_view() =~= logs.push(m@));
        } else if has_prefix(&m, &frame_mark) {
            proof {
                reveal_strlit("CLRLINE_ILOVECANDY");
            }
            let frame = string_of(&remove_occurrences(&m, &frame_mark));
            let n = self.install_logs.len();
            let replace_last = if n > 0 {
                let last = chars_of(self.install_logs[n - 1].as_str());
                has_prefix(&last, &frame_line)
            } else {
                false
            };
            if replace_last {
                self.install_logs.set(n - 1, frame);
                assert(self.install_logs.deep_view() =~= logs.update(n - 1, remove_all(m@, frame_mark@)));
            } else {
                self.install_logs.push(frame);
                assert(self.install_logs.deep_view() =~= logs.push(remove_all(m@, frame_mark@)));
            }
        } else if has_infix(&m, &rejected_a) || has_infix(&m, &rejected_b) {
            self.mode = AppMode::Password;
            self.password_error = Some(string_of(&chars_of("Incorrect password. Please try again.")));
            self.password_input = String::new();
            self.install_logs.clear();
            self.install_listening = false;
            assert(self.install_logs.deep_view() =~= Seq::<Seq<char>>::empty());
        } else if has_infix(&m, &end_a) || has_infix(&m, &end_b) {
            self.install_logs.push(msg);
            self.mode = AppMode::InstallComplete;
            assert(self.install_logs.deep_view() =~= logs.push(m@));
        } else {
            self.install_logs.push(msg);
            assert(self.install_logs.deep_view() =~= logs.push(m@));
        }
    }
}

// ---------------------------------------------------------------------------
// Laws
// ---------------------------------------------------------------------------

/// Moving down and then up, or up and then down, comes back to the same item of the list.
pub proof fn lemma_navigation_round_trip(v: AppView)
    requires
        v.selected is Some,
        v.selected->0 < v.search_results.len(),
        v.search_results.len() <= usize::MAX,
    ensures
        v.select_next().select_previous() == v,
        v.select_previous().select_next() == v,
{
    let len = v.search_results.len();
    let i = v.selected->0;
    if i >= last_index(len) {
        assert(i == len - 1);
        assert(last_index(len) as usize == i);
    } else {
        assert(((i + 1) as usize) == i + 1);
    }
    if i == 0 {
        assert(last_index(len) as usize == last_index(len));
    } else {
        assert(((i - 1) as usize) == i - 1);
    }
    assert(previous_index(Some(next_index(v.selected, len)), len) == i);
    assert(next_index(Some(previous_index(v.selected, len)), len) == i);
    assert(v.select_next().select_previous() =~= v);
    assert(v.select_previous().select_next() =~= v);
}

/// Moving through a non-empty list keeps the selection on one of its items.
pub proof fn lemma_navigation_in_range(v: AppView)
    requires
        v.search_results.len() > 0,
        v.search_results.len() <= usize::MAX,
        v.selected is None || v.selected->0 < v.search_results.len(),
    ensures
        v.select_next().selected->0 < v.search_results.len(),
        v.select_previous().selected->0 < v.search_results.len(),
{
}

/// The first message of an installation switches to the installing screen and is logged.
pub proof fn lemma_start_message_begins_installing(v: AppView, name: Seq<char>)
    ensures
        v.after_message(starting_text(name)) == (AppView {
            mode: AppMode::Installing,
            install_logs: v.install_logs.push(starting_text(name)),
            ..v
        }),
{
    reveal_strlit("Starting installation for ");
    reveal_strlit("Starting installation for");
    let m = starting_text(name);
    assert(m.subrange(0, 25) =~= install_start_marker());
}

/// In beta mode, while an animation line ends the log, each output line of pacman
/// replaces it with the next frame: the log does not grow, and the new line is again an
/// animation line.
pub proof fn lemma_beta_frames_replace(v: AppView, i: int)
    requires
        v.install_logs.len() > 0,
        begins_with(v.install_logs.last(), frame_line_marker()),
    ensures
        v.after_message(beta_progress_text(i)) == (AppView {
            install_logs: v.install_logs.update(
                v.install_logs.len() - 1,
                "Installing... ["@ + animation_frames()[i % 8] + "]"@,
            ),
            ..v
        }),
        begins_with("Installing... ["@ + animation_frames()[i % 8] + "]"@, frame_line_marker()),
{
    reveal_strlit("CLRLINE_ILOVECANDYInstalling... [");
    reveal_strlit("CLRLINE_ILOVECANDY");
    reveal_strlit("Installing... [");
    reveal_strlit("Installing...");
    reveal_strlit("Starting installation for");
    reveal_strlit("]");
    reveal_strlit("C o o o");
    reveal_strlit("c  o o o");
    reveal_strlit("C   o o");
    reveal_strlit("c    o o");
    reveal_strlit("C     o");
    reveal_strlit("c      o");
    reveal_strlit("C       ");
    reveal_strlit("c       ");
    reveal_with_fuel(lacks_from, 20);
    let f = animation_frames()[i % 8];
    let t = "Installing... ["@ + f + "]"@;
    let m = beta_progress_text(i);
    let p = frame_marker();
    assert(m =~= p + t);
    assert(m[0] != install_start_marker()[0]);
    assert(m.subrange(0, 18) =~= p);
    assert(lacks_from("Installing... ["@, 'L', 0));
    assert(lacks_from("]"@, 'L', 0));
    assert(lacks_from(f, 'L', 0));
    lemma_lacks_from("Installing... ["@, 'L', 0);
    lemma_lacks_from("]"@, 'L', 0);
    lemma_lacks_from(f, 'L', 0);
    assert forall|k: int| 0 <= k < t.len() implies t[k] != p[1] by {
        if k >= 15 + f.len() {
            assert(t[k] == "]"@[k - 15 - f.len()]);
        } else if k >= 15 {
            assert(t[k] == f[k - 15]);
        } else {
            assert(t[k] == "Installing... ["@[k]);
        }
    }
    lemma_absent_char(t, p, 1);
    lemma_remove_absent(t, p);
    lemma_remove_leading(p, t);
    assert(t.subrange(0, 13) =~= frame_line_marker());
}

/// The message of a successful installation ends it: it is logged and the screen says
/// the installation is complete.
pub proof fn lemma_success_message_completes(v: AppView)
    ensures
        v.after_message(success_text()) == (AppView {
            install_logs: v.install_logs.push(success_text()),
            mode: AppMode::InstallComplete,
            ..v
        }),
{
    reveal_strlit("\nInstallation Complete! [Press Esc or Enter to return]");
    reveal_strlit("Installation Complete");
    reveal_strlit("1 incorrect password attempt");
    reveal_strlit("Sorry, try again");
    reveal_strlit("Starting installation for");
    reveal_strlit("CLRLINE_ILOVECANDY");
    reveal_with_fuel(lacks_from, 60);
    let m = success_text();
    assert(m[0] != install_start_marker()[0]);
    assert(m[0] != frame_marker()[0]);
    assert(lacks_from(m, '1', 0));
    assert(lacks_from(m, 'S', 0));
    lemma_lacks_from(m, '1', 0);
    lemma_lacks_from(m, 'S', 0);
    lemma_absent_char(m, "1 incorrect password attempt"@, 0);
    lemma_absent_char(m, "Sorry, try again"@, 0);
    assert(m.subrange(1, 22) =~= "Installation Complete"@);
    assert(occurs_at(m, "Installation Complete"@, 1));
}

/// The message of a failed installation ends it too, unless the printed status itself
/// reads as a refused password.
pub proof fn lemma_failure_message_completes(v: AppView, status: Seq<char>)
    requires
        !is_password_rejection(failure_text(status)),
    ensures
        v.after_message(failure_text(status)) == (AppView {
            install_logs: v.install_logs.push(failure_text(status)),
            mode: AppMode::InstallComplete,
            ..v
        }),
{
    reveal_strlit("\nInstallation failed with status: ");
    reveal_strlit("failed with status");
    reveal_strlit("Starting installation for");
    reveal_strlit("CLRLINE_ILOVECANDY");
    let m = failure_text(status);
    assert(m[0] != install_start_marker()[0]);
    assert(m[0] != frame_marker()[0]);
    assert(m.subrange(14, 32) =~= "failed with status"@);
    assert(occurs_at(m, "failed with status"@, 14));
}

/// A refused password brings back the password prompt with an error, an empty input and
/// an empty log, and the installer is no longer listened to.
pub proof fn lemma_rejection_returns_to_password(v: AppView)
    ensures
        v.after_message(rejected_text()) == (AppView {
            mode: AppMode::Password,
            password_error: Some(incorrect_password_error()),
            password_input: Seq::empty(),
            install_logs: Seq::empty(),
            install_listening: false,
            ..v
        }),
{
    reveal_strlit("1 incorrect password attempt");
    reveal_strlit("Starting installation for");
    reveal_strlit("CLRLINE_ILOVECANDY");
    let m = rejected_text();
    assert(m[0] != install_start_marker()[0]);
    assert(m[0] != frame_marker()[0]);
    assert(m.subrange(0, m.len() as int) =~= m);
    assert(occurs_at(m, "1 incorrect password attempt"@, 0));
}

/// A frame of the beta animation always shows: after it the log ends with the frame, and
/// every earlier line stays, except an animation line at the end, which the frame
/// replaces. Nothing else changes.
pub proof fn lemma_frame_always_shown(v: AppView, msg: Seq<char>)
    requires
        begins_with(msg, frame_marker()),
    ensures
        ({
            let after = v.after_message(msg);
            let logs = v.install_logs;
            &&& after.install_logs.len() > 0
            &&& after.install_logs.last() == remove_all(msg, frame_marker())
            &&& after.install_logs.drop_last() == if logs.len() > 0 && begins_with(
                logs.last(),
                frame_line_marker(),
            ) {
                logs.drop_last()
            } else {
                logs
            }
            &&& after == (AppView { install_logs: after.install_logs, ..v })
        }),
{
    reveal_strlit("CLRLINE_ILOVECANDY");
    reveal_strlit("Starting installation for");
    assert(msg.subrange(0, 18) == frame_marker());
    assert(msg[0] == frame_marker()[0]);
    assert(msg[0] != install_start_marker()[0]);
    let logs = v.install_logs;
    let frame = remove_all(msg, frame_marker());
    let after = v.after_message(msg);
    if logs.len() > 0 && begins_with(logs.last(), frame_line_marker()) {
        assert(after.install_logs == logs.update(logs.len() - 1, frame));
        assert(after.install_logs.drop_last() =~= logs.drop_last());
    } else {
        assert(after.install_logs == logs.push(frame));
        assert(after.install_logs.drop_last() =~= logs);
    }
    assert(after =~= (AppView { install_logs: after.install_logs, ..v }));
}

/// Only a refused password empties the installation log. Any other message keeps every
/// line of the log but the last, ends the log with the message (a frame without its
/// marker), and keeps listening to the installer as before.
pub proof fn lemma_log_keeps_history(v: AppView, msg: Seq<char>)
    requires
        !is_password_rejection(msg),
    ensures
        ({
            let after = v.after_message(msg);
            let logs = v.install_logs;
            &&& after.install_logs.len() == logs.len() || after.install_logs.len() == logs.len()
                + 1
            &&& after.install_logs.len() > 0
            &&& forall|k: int|
                0 <= k < logs.len() - 1 ==> #[trigger] after.install_logs[k] == logs[k]
            &&& after.install_logs.last() == if begins_with(msg, install_start_marker()) {
                msg
            } else if begins_with(msg, frame_marker()) {
                remove_all(msg, frame_marker())
            } else {
                msg
            }
            &&& after.install_listening == v.install_listening
            &&& after.search_results == v.search_results
            &&& after.selected == v.selected
        }),
{
}

/// Results that arrive replace the list; the first of them is selected, and nothing is
/// selected when there are none, so the selection always points into the list.
pub proof fn lemma_results_select_first(v: AppView, results: Seq<PackageView>)
    ensures
        v.with_results(results).search_results == results,
        results.len() > 0 <==> v.with_results(results).selected is Some,
        v.with_results(results).selected is Some ==> v.with_results(results).selected->0 == 0
            && 0 < results.len(),
        v.with_results(results) == (AppView {
            search_results: results,
            selected: v.with_results(results).selected,
            ..v
        }),
{
    assert(v.with_results(results) =~= (AppView {
        search_results: results,
        selected: v.with_results(results).selected,
        ..v
    }));
}

/// Starting an installation takes the selected package, removes it exactly when removing
/// was chosen, hands on the given password unchanged, clears the log and listens to the
/// installer; with no valid selection nothing happens.
pub proof fn lemma_begin_install_takes_selection(v: AppView, password: Option<Seq<char>>)
    ensures
        v.selected is Some && v.selected->0 < v.search_results.len() ==> v.begin_install(password)
            == (
            AppView {
                mode: AppMode::Authenticating,
                install_logs: Seq::empty(),
                install_listening: true,
                ..v
            },
            ActionView::StartInstall {
                package: v.search_results[v.selected->0 as int],
                password,
                uninstall: v.action == ActionType::Uninstall,
            },
        ),
        !(v.selected is Some && v.selected->0 < v.search_results.len()) ==> v.begin_install(
            password,
        ) == (v, ActionView::Idle),
{
}

/// The state after debounce checks at the given elapsed times, with no keystroke between.
pub open spec fn debounce_run(v: AppView, checks: Seq<Option<u128>>) -> AppView
    decreases checks.len(),
{
    if checks.len() == 0 {
        v
    } else {
        debounce_run(v, checks.drop_last()).debounce_step(checks.last()).0
    }
}

/// How many of those checks fire.
pub open spec fn debounce_fire_count(v: AppView, checks: Seq<Option<u128>>) -> nat
    decreases checks.len(),
{
    if checks.len() == 0 {
        0
    } else {
        debounce_fire_count(v, checks.drop_last()) + if debounce_run(
            v,
            checks.drop_last(),
        ).debounce_fires(checks.last()) {
            1nat
        } else {
            0nat
        }
    }
}

/// Between two keystrokes the debounce fires at most once; once it has fired nothing is
/// pending, and a check with nothing pending changes nothing.
pub proof fn lemma_debounce_fires_once(v: AppView, checks: Seq<Option<u128>>)
    ensures
        debounce_fire_count(v, checks) <= 1,
        debounce_fire_count(v, checks) == 1 ==> !debounce_run(v, checks).search_pending,
        !v.search_pending ==> debounce_fire_count(v, checks) == 0 && debounce_run(v, checks)
            == v,
    decreases checks.len(),
{
    if checks.len() > 0 {
        lemma_debounce_fires_once(v, checks.drop_last());
    }
}

} // verus!
