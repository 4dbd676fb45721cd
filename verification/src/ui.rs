use vstd::prelude::*;

use crate::app::AppMode;
use crate::models::Package;
use crate::text::{
    append_str, chars_of, first_token, first_word, all_white, push_char, string_of, utf8_len,
    utf8_length,
};

verus! {

/// The key hints in the footer for each screen.
pub open spec fn footer_text(mode: AppMode) -> Seq<char> {
    match mode {
        AppMode::Search => "[Enter] Search   [Esc] Quit   [Up/Down] Navigate"@,
        AppMode::List => "[Enter] Install   [Esc] Search   [Down/J] Next   [Up/K] Prev"@,
        AppMode::Password => "[Enter] Submit Password   [Esc] Cancel"@,
        AppMode::Authenticating => "Verifying authentication in background..."@,
        AppMode::Installing => "Installing securely in background..."@,
        AppMode::InstallComplete => "[Enter/Esc] Return to Hub"@,
        AppMode::Home => "[Up/Down] Choose   [Enter] Select   [Esc] Quit"@,
    }
}

/// The key hints in the footer.
pub fn footer_hint(mode: AppMode) -> (r: &'static str)
    ensures
        r@ == footer_text(mode),
{
    match mode {
        AppMode::Search => "[Enter] Search   [Esc] Quit   [Up/Down] Navigate",
        AppMode::List => "[Enter] Install   [Esc] Search   [Down/J] Next   [Up/K] Prev",
        AppMode::Password => "[Enter] Submit Password   [Esc] Cancel",
        AppMode::Authenticating => "Verifying authentication in background...",
        AppMode::Installing => "Installing securely in background...",
        AppMode::InstallComplete => "[Enter/Esc] Return to Hub",
        AppMode::Home => "[Up/Down] Choose   [Enter] Select   [Esc] Quit",
    }
}

/// The content area shows the installation log instead of the search screen.
pub fn shows_install_logs(mode: AppMode) -> (r: bool)
    ensures
        r == (mode == AppMode::Installing || mode == AppMode::InstallComplete || mode
            == AppMode::Authenticating),
{
    mode == AppMode::Installing || mode == AppMode::InstallComplete || mode
        == AppMode::Authenticating
}

/// How many lines the log is scrolled so that its newest line is visible in an area
/// `area_height` rows tall (two rows are the border). The count of log lines is taken
/// modulo 2^16, as the interface's `as u16` conversion does.
pub fn log_scroll(log_count: usize, area_height: u16) -> (r: u16)
    ensures
        r == (if (log_count as u16) > (if area_height >= 2 { area_height - 2 } else { 0 }) {
            (log_count as u16) - (if area_height >= 2 { area_height - 2 } else { 0 })
        } else {
            0
        }),
{
    let count = log_count as u16;
    let view_height = if area_height >= 2 {
        area_height - 2
    } else {
        0
    };
    if count > view_height {
        count - view_height
    } else {
        0
    }
}

/// The password as shown: one `*` for each byte of its UTF-8 encoding.
pub fn masked_password(password: &str) -> (r: String)
    ensures
        r@ == Seq::new(utf8_len(password@), |i: int| '*'),
{
    let n = utf8_length(&chars_of(password));
    let mut r = String::new();
    let mut i: u128 = 0;
    while i < n
        invariant
            i <= n,
            n == utf8_len(password@),
            r@ == Seq::new(i as nat, |k: int| '*'),
        decreases n - i,
    {
        push_char(&mut r, '*');
        assert(r@ =~= Seq::new((i + 1) as nat, |k: int| '*'));
        i = i + 1;
    }
    r
}

/// The title of the password box: the last error between spaces, or the request.
pub fn password_title(error: &Option<String>) -> (r: String)
    ensures
        error is Some ==> r@ == " "@ + error->0@ + " "@,
        error is None ==> r@ == " Sudo Password Required "@,
{
    match error {
        Some(e) => {
            let mut r = String::new();
            append_str(&mut r, " ");
            append_str(&mut r, e.as_str());
            append_str(&mut r, " ");
            assert(Seq::<char>::empty() + " "@ =~= " "@);
            r
        },
        None => string_of(&chars_of(" Sudo Password Required ")),
    }
}

/// The name shown for a result: the first word of its header line, or `Unknown`.
pub fn package_label(package: &Package) -> (r: String)
    ensures
        all_white(package.name@) ==> r@ == "Unknown"@,
        !all_white(package.name@) ==> r@ == first_token(package.name@),
{
    match first_word(&chars_of(package.name.as_str())) {
        Some(w) => string_of(&w),
        None => string_of(&chars_of("Unknown")),
    }
}

} // verus!
