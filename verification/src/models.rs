use vstd::prelude::*;

use crate::text::{chars_of, same_chars};

verus! {

/// One entry of a package listing: the header line (`repo/name version ...`) and the
/// description line below it.
#[derive(Clone, Debug)]
pub struct Package {
    pub name: String,
    pub description: String,
}

/// The characters of a package's two lines.
pub struct PackageView {
    pub name: Seq<char>,
    pub description: Seq<char>,
}

impl View for Package {
    type V = PackageView;

    open spec fn view(&self) -> PackageView {
        PackageView { name: self.name@, description: self.description@ }
    }
}

impl DeepView for Package {
    type V = PackageView;

    open spec fn deep_view(&self) -> PackageView {
        self@
    }
}

impl Package {
    /// A copy with the same name and description.
    pub fn copied(&self) -> (r: Package)
        ensures
            r@ == self@,
    {
        Package { name: self.name.clone(), description: self.description.clone() }
    }
}

/// Options given on the command line.
#[derive(Clone, Debug)]
pub struct AppConfig {
    pub beta_mode: bool,
}

/// Beta mode is asked for by an argument `--beta` or `beta`.
pub open spec fn asks_beta(args: Seq<Seq<char>>) -> bool {
    exists|i: int| 0 <= i < args.len() && (args[i] == "--beta"@ || args[i] == "beta"@)
}

impl AppConfig {
    /// Reads the options from the program's arguments (the program name included).
    pub fn parse_args(args: &Vec<String>) -> (r: AppConfig)
        ensures
            r.beta_mode == asks_beta(args.deep_view()),
    {
        let long_flag = chars_of("--beta");
        let short_flag = chars_of("beta");
        let mut i: usize = 0;
        while i < args.len()
            invariant
                i <= args.len(),
                long_flag@ == "--beta"@,
                short_flag@ == "beta"@,
                forall|k: int|
                    0 <= k < i ==> !(args@[k]@ == "--beta"@ || args@[k]@ == "beta"@),
            decreases args.len() - i,
        {
            let arg = chars_of(args[i].as_str());
            if same_chars(&arg, &long_flag) || same_chars(&arg, &short_flag) {
                assert(args.deep_view()[i as int] == args@[i as int]@);
                return AppConfig { beta_mode: true };
            }
            i = i + 1;
        }
        assert(!asks_beta(args.deep_view())) by {
            assert forall|k: int| 0 <= k < args.len() implies !(args.deep_view()[k] == "--beta"@
                || args.deep_view()[k] == "beta"@) by {
                assert(args.deep_view()[k] == args@[k]@);
            }
        }
        AppConfig { beta_mode: false }
    }
}

} // verus!
