use vstd::prelude::*;

use crate::backend::install::{install_arguments, package_id};
use crate::models::{AppConfig, Package};
use crate::text::{chars_of, head_word, string_of};

verus! {

/// What the command-line installer does with the package that was chosen.
pub enum InstallStep {
    /// No package: print "aborted".
    Aborted,
    /// Run `sudo` with these arguments (`pacman -S --noconfirm <id>`) on the terminal.
    Normal { arguments: Vec<String> },
    /// Run the same command with its output replaced by the pacman animation.
    Beta { arguments: Vec<String> },
}

pub enum InstallStepView {
    Aborted,
    Normal { arguments: Seq<Seq<char>> },
    Beta { arguments: Seq<Seq<char>> },
}

/// The arguments of `sudo` that install the package with the given header line.
pub open spec fn install_words(name: Seq<char>) -> Seq<Seq<char>> {
    seq!["pacman"@, "-S"@, "--noconfirm"@, head_word(name)]
}

impl View for InstallStep {
    type V = InstallStepView;

    open spec fn view(&self) -> InstallStepView {
        match self {
            InstallStep::Aborted => InstallStepView::Aborted,
            InstallStep::Normal { arguments } => InstallStepView::Normal {
                arguments: arguments.deep_view(),
            },
            InstallStep::Beta { arguments } => InstallStepView::Beta {
                arguments: arguments.deep_view(),
            },
        }
    }
}

/// Decides how the chosen package is installed.
pub fn plan(package: Option<Package>, config: &AppConfig) -> (r: InstallStep)
    ensures
        package is None ==> r@ == InstallStepView::Aborted,
        package is Some && config.beta_mode ==> r@ == (InstallStepView::Beta {
            arguments: install_words(package->0.name@),
        }),
        package is Some && !config.beta_mode ==> r@ == (InstallStepView::Normal {
            arguments: install_words(package->0.name@),
        }),
{
    match package {
        Some(pkg) => {
            let arguments = install_arguments(&pkg);
            if config.beta_mode {
                InstallStep::Beta { arguments }
            } else {
                InstallStep::Normal { arguments }
            }
        },
        None => InstallStep::Aborted,
    }
}

/// The arguments of `sudo` that install a package asking pacman's own confirmation:
/// `pacman -S <id>`.
pub fn confirming_arguments(package: &Package) -> (r: Vec<String>)
    ensures
        r.deep_view() == seq!["pacman"@, "-S"@, head_word(package.name@)],
{
    let mut r: Vec<String> = Vec::new();
    r.push(string_of(&chars_of("pacman")));
    r.push(string_of(&chars_of("-S")));
    r.push(package_id(package));
    assert(r.deep_view() =~= seq!["pacman"@, "-S"@, head_word(package.name@)]);
    r
}

} // verus!
