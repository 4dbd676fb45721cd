use vstd::prelude::*;

use crate::app::opt_chars;
use crate::models::{Package, PackageView};
use crate::text::{append_str, chars_of, head_word, head_word_of, string_of};

verus! {

// The text of the messages an installation sends to the log window.

/// The pacman animation shown instead of the output lines in beta mode.
pub open spec fn animation_frames() -> Seq<Seq<char>> {
    seq![
        "C o o o"@,
        "c  o o o"@,
        "C   o o"@,
        "c    o o"@,
        "C     o"@,
        "c      o"@,
        "C       "@,
        "c       "@,
    ]
}

/// The first message of an installation.
pub open spec fn starting_text(name: Seq<char>) -> Seq<char> {
    "Starting installation for "@ + name + "..."@
}

/// The message for output line `i` in beta mode.
pub open spec fn beta_progress_text(i: int) -> Seq<char> {
    "CLRLINE_ILOVECANDYInstalling... ["@ + animation_frames()[i % 8] + "]"@
}

/// The last message of a successful installation.
pub open spec fn success_text() -> Seq<char> {
    "\nInstallation Complete! [Press Esc or Enter to return]"@
}

/// The last message of a failed installation, `status` being the exit status as printed.
pub open spec fn failure_text(status: Seq<char>) -> Seq<char> {
    "\nInstallation failed with status: "@ + status + " [Press Esc to return]"@
}

/// The message sent when the password was refused.
pub open spec fn rejected_text() -> Seq<char> {
    "1 incorrect password attempt"@
}

/// The message when sudo could not be started.
pub open spec fn spawn_failure_text(error: Seq<char>) -> Seq<char> {
    "Failed to spawn sudo command: "@ + error
}

/// The message when waiting for pacman failed.
pub open spec fn wait_failure_text(error: Seq<char>) -> Seq<char> {
    "\nFailed to wait for the command: "@ + error + " [Press Esc to return]"@
}

/// The animation frame shown for the output line with index `i`.
pub fn animation_frame(i: usize) -> (r: &'static str)
    ensures
        r@ == animation_frames()[(i % 8) as int],
{
    let k = i % 8;
    if k == 0 {
        "C o o o"
    } else if k == 1 {
        "c  o o o"
    } else if k == 2 {
        "C   o o"
    } else if k == 3 {
        "c    o o"
    } else if k == 4 {
        "C     o"
    } else if k == 5 {
        "c      o"
    } else if k == 6 {
        "C       "
    } else {
        "c       "
    }
}

/// The name pacman is given for a package: the first word of its header line
/// (`repo/name`), or the whole line when it has no word.
pub fn package_id(package: &Package) -> (r: String)
    ensures
        r@ == head_word(package.name@),
{
    string_of(&head_word_of(&chars_of(package.name.as_str())))
}

/// The arguments of `sudo` that install the package: `pacman -S --noconfirm <id>`.
pub fn install_arguments(package: &Package) -> (r: Vec<String>)
    ensures
        r.deep_view() == seq!["pacman"@, "-S"@, "--noconfirm"@, head_word(package.name@)],
{
    let mut r: Vec<String> = Vec::new();
    r.push(string_of(&chars_of("pacman")));
    r.push(string_of(&chars_of("-S")));
    r.push(string_of(&chars_of("--noconfirm")));
    r.push(package_id(package));
    assert(r.deep_view() =~= seq!["pacman"@, "-S"@, "--noconfirm"@, head_word(package.name@)]);
    r
}

/// The arguments of `sudo` that remove the package: `pacman -R --noconfirm <id>`.
pub fn uninstall_arguments(package: &Package) -> (r: Vec<String>)
    ensures
        r.deep_view() == seq!["pacman"@, "-R"@, "--noconfirm"@, head_word(package.name@)],
{
    let mut r: Vec<String> = Vec::new();
    r.push(string_of(&chars_of("pacman")));
    r.push(string_of(&chars_of("-R")));
    r.push(string_of(&chars_of("--noconfirm")));
    r.push(package_id(package));
    assert(r.deep_view() =~= seq!["pacman"@, "-R"@, "--noconfirm"@, head_word(package.name@)]);
    r
}

/// The first message: `Starting installation for <header line>...`.
pub fn starting_message(package: &Package) -> (r: String)
    ensures
        r@ == starting_text(package.name@),
{
    let mut r = String::new();
    append_str(&mut r, "Starting installation for ");
    append_str(&mut r, package.name.as_str());
    append_str(&mut r, "...");
    assert(Seq::<char>::empty() + "Starting installation for "@ =~= "Starting installation for "@);
    r
}

/// The message sent when the password was refused.
pub fn password_rejected_message() -> (r: String)
    ensures
        r@ == rejected_text(),
{
    string_of(&chars_of("1 incorrect password attempt"))
}

/// The message for output line number `index` of pacman: in beta mode an animation
/// frame (`CLRLINE_ILOVECANDYInstalling... [<frame>]`), otherwise the line itself.
pub fn progress_message(beta_mode: bool, index: usize, line: String) -> (r: String)
    ensures
        beta_mode ==> r@ == beta_progress_text(index as int),
        !beta_mode ==> r@ == line@,
{
    if beta_mode {
        let mut r = String::new();
        append_str(&mut r, "CLRLINE_ILOVECANDYInstalling... [");
        append_str(&mut r, animation_frame(index));
        append_str(&mut r, "]");
        assert(Seq::<char>::empty() + "CLRLINE_ILOVECANDYInstalling... ["@
            =~= "CLRLINE_ILOVECANDYInstalling... ["@);
        r
    } else {
        line
    }
}

/// The last message, from how pacman exited (`status` is the exit status as printed).
pub fn finish_message(success: bool, status: &str) -> (r: String)
    ensures
        success ==> r@ == success_text(),
        !success ==> r@ == failure_text(status@),
{
    if success {
        string_of(&chars_of("\nInstallation Complete! [Press Esc or Enter to return]"))
    } else {
        let mut r = String::new();
        append_str(&mut r, "\nInstallation failed with status: ");
        append_str(&mut r, status);
        append_str(&mut r, " [Press Esc to return]");
        assert(Seq::<char>::empty() + "\nInstallation failed with status: "@
            =~= "\nInstallation failed with status: "@);
        r
    }
}

/// The message when sudo could not be started (`error` as printed).
pub fn spawn_failure_message(error: &str) -> (r: String)
    ensures
        r@ == spawn_failure_text(error@),
{
    let mut r = String::new();
    append_str(&mut r, "Failed to spawn sudo command: ");
    append_str(&mut r, error);
    assert(Seq::<char>::empty() + "Failed to spawn sudo command: "@
        =~= "Failed to spawn sudo command: "@);
    r
}

/// The message when waiting for pacman failed (`error` as printed).
pub fn wait_failure_message(error: &str) -> (r: String)
    ensures
        r@ == wait_failure_text(error@),
{
    let mut r = String::new();
    append_str(&mut r, "\nFailed to wait for the command: ");
    append_str(&mut r, error);
    append_str(&mut r, " [Press Esc to return]");
    assert(Seq::<char>::empty() + "\nFailed to wait for the command: "@
        =~= "\nFailed to wait for the command: "@);
    r
}

// ---------------------------------------------------------------------------
// The course of an installation
// ---------------------------------------------------------------------------

/// Where an installation stands.
#[derive(PartialEq, Eq, Structural, Clone, Copy, Debug)]
pub enum JobState {
    /// Not started.
    Ready,
    /// The given password is being checked with sudo.
    CheckingPassword,
    /// `sudo pacman ...` has been asked to run.
    Running,
    /// Finished; nothing more happens.
    Done,
}

/// What happened, as the program around the library reports it.
pub enum JobEvent {
    Start,
    PasswordChecked { accepted: bool },
    SpawnFailed { error: String },
    Exited { success: bool, status: String },
    WaitFailed { error: String },
}

/// What the program is asked to do next.
pub enum JobCommand {
    Nothing,
    /// Check the password with `sudo -S -v`.
    CheckPassword { password: String },
    /// Run `sudo` with these arguments, sending each output line through
    /// `progress_message` and reporting how it ended.
    RunSudo { arguments: Vec<String> },
}

/// One installation (or removal) of a package.
pub struct InstallJob {
    pub state: JobState,
    pub package: Package,
    pub password: Option<String>,
    pub arguments: Vec<String>,
}

pub struct JobView {
    pub state: JobState,
    pub package: PackageView,
    pub password: Option<Seq<char>>,
    pub arguments: Seq<Seq<char>>,
}

pub enum JobEventView {
    Start,
    PasswordChecked { accepted: bool },
    SpawnFailed { error: Seq<char> },
    Exited { success: bool, status: Seq<char> },
    WaitFailed { error: Seq<char> },
}

pub enum JobCommandView {
    Nothing,
    CheckPassword { password: Seq<char> },
    RunSudo { arguments: Seq<Seq<char>> },
}

impl View for InstallJob {
    type V = JobView;

    open spec fn view(&self) -> JobView {
        JobView {
            state: self.state,
            package: self.package@,
            password: opt_chars(self.password),
            arguments: self.arguments.deep_view(),
        }
    }
}

impl View for JobEvent {
    type V = JobEventView;

    open spec fn view(&self) -> JobEventView {
        match self {
            JobEvent::Start => JobEventView::Start,
            JobEvent::PasswordChecked { accepted } => JobEventView::PasswordChecked {
                accepted: *accepted,
            },
            JobEvent::SpawnFailed { error } => JobEventView::SpawnFailed { error: error@ },
            JobEvent::Exited { success, status } => JobEventView::Exited {
                success: *success,
                status: status@,
            },
            JobEvent::WaitFailed { error } => JobEventView::WaitFailed { error: error@ },
        }
    }
}

impl View for JobCommand {
    type V = JobCommandView;

    open spec fn view(&self) -> JobCommandView {
        match self {
            JobCommand::Nothing => JobCommandView::Nothing,
            JobCommand::CheckPassword { password } => JobCommandView::CheckPassword {
                password: password@,
            },
            JobCommand::RunSudo { arguments } => JobCommandView::RunSudo {
                arguments: arguments.deep_view(),
            },
        }
    }
}

/// One step of an installation: the new state, the message for the log window (if any)
/// and what to do next. Starting sends the first message and, when a password was given,
/// has it checked before anything else; a refused password ends the installation with
/// the refusal; otherwise pacman runs, and how it ends is the last message.
pub open spec fn job_step(j: JobView, e: JobEventView) -> (JobView, Option<Seq<char>>, JobCommandView) {
    match (j.state, e) {
        (JobState::Ready, JobEventView::Start) => match j.password {
            Some(p) => (
                JobView { state: JobState::CheckingPassword, ..j },
                Some(starting_text(j.package.name)),
                JobCommandView::CheckPassword { password: p },
            ),
            None => (
                JobView { state: JobState::Running, ..j },
                Some(starting_text(j.package.name)),
                JobCommandView::RunSudo { arguments: j.arguments },
            ),
        },
        (JobState::CheckingPassword, JobEventView::PasswordChecked { accepted }) => if accepted {
            (
                JobView { state: JobState::Running, ..j },
                None,
                JobCommandView::RunSudo { arguments: j.arguments },
            )
        } else {
            (JobView { state: JobState::Done, ..j }, Some(rejected_text()), JobCommandView::Nothing)
        },
        (JobState::Running, JobEventView::SpawnFailed { error }) => (
            JobView { state: JobState::Done, ..j },
            Some(spawn_failure_text(error)),
            JobCommandView::Nothing,
        ),
        (JobState::Running, JobEventView::Exited { success, status }) => (
            JobView { state: JobState::Done, ..j },
            Some(
                if success {
                    success_text()
                } else {
                    failure_text(status)
                },
            ),
            JobCommandView::Nothing,
        ),
        (JobState::Running, JobEventView::WaitFailed { error }) => (
            JobView { state: JobState::Done, ..j },
            Some(wait_failure_text(error)),
            JobCommandView::Nothing,
        ),
        _ => (j, None, JobCommandView::Nothing),
    }
}

impl InstallJob {
    /// A job that installs `package` (removes it, when `uninstall`), authenticating with
    /// `password` when there is one.
    pub fn new(package: Package, password: Option<String>, uninstall: bool) -> (r: InstallJob)
        ensures
            r.state == JobState::Ready,
            r@.package == package@,
            r@.password == opt_chars(password),
            r@.arguments == seq![
                "pacman"@,
                if uninstall {
                    "-R"@
                } else {
                    "-S"@
                },
                "--noconfirm"@,
                head_word(package.name@),
            ],
    {
        let arguments = if uninstall {
            uninstall_arguments(&package)
        } else {
            install_arguments(&package)
        };
        InstallJob { state: JobState::Ready, package, password, arguments }
    }

    /// Takes one event.
    pub fn step(&mut self, event: JobEvent) -> (r: (Option<String>, JobCommand))
        ensures
            (final(self)@, opt_chars(r.0), r.1@) == job_step(old(self)@, event@),
    {
        match (self.state, event) {
            (JobState::Ready, JobEvent::Start) => {
                let message = starting_message(&self.package);
                match &self.password {
                    Some(p) => {
                        let password = p.clone();
                        self.state = JobState::CheckingPassword;
                        (Some(message), JobCommand::CheckPassword { password })
                    },
                    None => {
                        self.state = JobState::Running;
                        (Some(message), JobCommand::RunSudo { arguments: self.arguments.clone() })
                    },
                }
            },
            (JobState::CheckingPassword, JobEvent::PasswordChecked { accepted }) => {
                if accepted {
                    self.state = JobState::Running;
                    (None, JobCommand::RunSudo { arguments: self.arguments.clone() })
                } else {
                    self.state = JobState::Done;
                    (Some(password_rejected_message()), JobCommand::Nothing)
                }
            },
            (JobState::Running, JobEvent::SpawnFailed { error }) => {
                self.state = JobState::Done;
                (Some(spawn_failure_message(error.as_str())), JobCommand::Nothing)
            },
            (JobState::Running, JobEvent::Exited { success, status }) => {
                self.state = JobState::Done;
                (Some(finish_message(success, status.as_str())), JobCommand::Nothing)
            },
            (JobState::Running, JobEvent::WaitFailed { error }) => {
                self.state = JobState::Done;
                (Some(wait_failure_message(error.as_str())), JobCommand::Nothing)
            },
            _ => (None, JobCommand::Nothing),
        }
    }
}

/// pacman is started only by starting a job without a password or by the acceptance of
/// its password; a job with a password first has it checked.
pub proof fn lemma_password_before_pacman(j: JobView, e: JobEventView)
    ensures
        job_step(j, e).2 is RunSudo ==> (j.state == JobState::Ready && j.password is None
            && e is Start) || (j.state == JobState::CheckingPassword && e
            == (JobEventView::PasswordChecked { accepted: true })),
        j.state == JobState::Ready && j.password is Some && e is Start ==> job_step(j, e).2
            == (JobCommandView::CheckPassword { password: j.password->0 }),
{
}

/// A refused password ends the job with the refusal message, and an ended job takes no
/// more events: nothing is sent and nothing runs.
pub proof fn lemma_refusal_ends_job(j: JobView, e: JobEventView)
    ensures
        j.state == JobState::CheckingPassword ==> job_step(
            j,
            JobEventView::PasswordChecked { accepted: false },
        ) == (JobView { state: JobState::Done, ..j }, Some(rejected_text()), JobCommandView::Nothing),
        j.state == JobState::Done ==> job_step(j, e) == (j, None::<Seq<char>>, JobCommandView::Nothing),
{
}

/// Starting a job always sends the starting message first, whether or not a password was
/// given: what is sent does not depend on the password, and only the command differs.
pub proof fn lemma_start_always_announces(j: JobView, password: Seq<char>)
    requires
        j.state == JobState::Ready,
    ensures
        job_step(j, JobEventView::Start).1 == Some(starting_text(j.package.name)),
        job_step(JobView { password: None, ..j }, JobEventView::Start).1 == job_step(
            JobView { password: Some(password), ..j },
            JobEventView::Start,
        ).1,
        job_step(JobView { password: None, ..j }, JobEventView::Start).2 == (
        JobCommandView::RunSudo { arguments: j.arguments }),
{
}

/// No event changes what a job installs, with which password or with which arguments;
/// only its state moves.
pub proof fn lemma_job_keeps_identity(j: JobView, e: JobEventView)
    ensures
        job_step(j, e).0.package == j.package,
        job_step(j, e).0.password == j.password,
        job_step(j, e).0.arguments == j.arguments,
{
}

/// An accepted password runs pacman with the job's own arguments and sends nothing; once
/// pacman runs, each way it can end (it exited, it could not be started, waiting for it
/// failed) ends the job with one last message.
pub proof fn lemma_running_job_ends(j: JobView, e: JobEventView)
    ensures
        j.state == JobState::CheckingPassword ==> job_step(
            j,
            JobEventView::PasswordChecked { accepted: true },
        ) == (
            JobView { state: JobState::Running, ..j },
            None::<Seq<char>>,
            JobCommandView::RunSudo { arguments: j.arguments },
        ),
        j.state == JobState::Running && !(e is Start) && !(e is PasswordChecked) ==> {
            &&& job_step(j, e).0.state == JobState::Done
            &&& job_step(j, e).1 is Some
            &&& job_step(j, e).2 == JobCommandView::Nothing
        },
        j.state == JobState::Running ==> job_step(
            j,
            JobEventView::Exited { success: true, status: Seq::empty() },
        ).1 == Some(success_text()),
{
}

} // verus!
