use pebble::backend::install::{uninstall_arguments, InstallJob, JobCommand, JobEvent, JobState};
use pebble::backend::search::{identifier_matches, listing_arguments, search_arguments};
use pebble::models::Package;

fn pkg(name: &str) -> Package {
    Package { name: name.to_string(), description: "d".to_string() }
}

#[test]
fn job_with_password_checks_it_first() {
    let mut job = InstallJob::new(pkg("extra/vim 9"), Some("pw".to_string()), false);
    let (msg, cmd) = job.step(JobEvent::Start);
    assert_eq!(msg, Some("Starting installation for extra/vim 9...".to_string()));
    match cmd {
        JobCommand::CheckPassword { password } => assert_eq!(password, "pw"),
        _ => panic!("expected a password check"),
    }
    let (msg, cmd) = job.step(JobEvent::PasswordChecked { accepted: true });
    assert_eq!(msg, None);
    match cmd {
        JobCommand::RunSudo { arguments } => {
            assert_eq!(arguments, vec!["pacman", "-S", "--noconfirm", "extra/vim"])
        }
        _ => panic!("expected pacman to run"),
    }
    let (msg, cmd) = job.step(JobEvent::Exited { success: true, status: String::new() });
    assert_eq!(msg, Some("\nInstallation Complete! [Press Esc or Enter to return]".to_string()));
    assert!(matches!(cmd, JobCommand::Nothing));
    assert!(job.state == JobState::Done);
}

#[test]
fn refused_password_never_runs_pacman() {
    let mut job = InstallJob::new(pkg("extra/vim 9"), Some("bad".to_string()), false);
    job.step(JobEvent::Start);
    let (msg, cmd) = job.step(JobEvent::PasswordChecked { accepted: false });
    assert_eq!(msg, Some("1 incorrect password attempt".to_string()));
    assert!(matches!(cmd, JobCommand::Nothing));
    for event in [
        JobEvent::Start,
        JobEvent::PasswordChecked { accepted: true },
        JobEvent::Exited { success: true, status: String::new() },
    ] {
        let (msg, cmd) = job.step(event);
        assert_eq!(msg, None);
        assert!(matches!(cmd, JobCommand::Nothing));
    }
}

#[test]
fn job_without_password_runs_at_once_and_reports_failures() {
    let mut job = InstallJob::new(pkg("extra/vim 9"), None, true);
    match job.step(JobEvent::Start).1 {
        JobCommand::RunSudo { arguments } => {
            assert_eq!(arguments, vec!["pacman", "-R", "--noconfirm", "extra/vim"])
        }
        _ => panic!("expected pacman to run"),
    }
    let (msg, _) = job.step(JobEvent::SpawnFailed { error: "no sudo".to_string() });
    assert_eq!(msg, Some("Failed to spawn sudo command: no sudo".to_string()));
    let mut other = InstallJob::new(pkg("extra/vim 9"), None, false);
    other.step(JobEvent::Start);
    let (msg, _) = other.step(JobEvent::Exited { success: false, status: "exit status: 1".to_string() });
    assert_eq!(
        msg,
        Some("\nInstallation failed with status: exit status: 1 [Press Esc to return]".to_string())
    );
    let mut third = InstallJob::new(pkg("extra/vim 9"), None, false);
    third.step(JobEvent::Start);
    let (msg, _) = third.step(JobEvent::WaitFailed { error: "gone".to_string() });
    assert_eq!(msg, Some("\nFailed to wait for the command: gone [Press Esc to return]".to_string()));
}

#[test]
fn job_ignores_events_out_of_order() {
    let mut job = InstallJob::new(pkg("extra/vim 9"), None, false);
    let (msg, cmd) = job.step(JobEvent::PasswordChecked { accepted: true });
    assert_eq!(msg, None);
    assert!(matches!(cmd, JobCommand::Nothing));
    assert!(job.state == JobState::Ready);
}

#[test]
fn search_commands() {
    assert_eq!(search_arguments(" \t", false), None);
    assert_eq!(search_arguments("VIM", false), Some(vec!["-Ss".to_string(), "vim".to_string()]));
    assert_eq!(search_arguments("Vim", true), Some(vec!["-Qs".to_string(), "vim".to_string()]));
    assert_eq!(listing_arguments("", false), vec!["-Ss".to_string(), String::new()]);
    assert_eq!(uninstall_arguments(&pkg("core/a 1")), vec!["pacman", "-R", "--noconfirm", "core/a"]);
}

#[test]
fn identifiers_match_lowered_query() {
    assert!(identifier_matches("extra/vim", "vim"));
    assert!(!identifier_matches("extra/vim", "VIM"));
}
