use vstd::prelude::*;

use crate::app::{App, AppMode};
use crate::events::{Key, MouseInput};

verus! {

/// The key a mouse event stands for: scrolling moves through the results (from the
/// search box or the list), a click on the header or search box (rows 0 to 5) leaves the
/// list, a click below them enters the list from the search box.
pub open spec fn mouse_key(mode: AppMode, has_results: bool, mouse: MouseInput) -> Option<Key> {
    match mouse {
        MouseInput::ScrollDown => if has_results && (mode == AppMode::Search || mode
            == AppMode::List) {
            Some(Key::Down)
        } else {
            None
        },
        MouseInput::ScrollUp => if has_results && (mode == AppMode::Search || mode
            == AppMode::List) {
            Some(Key::Up)
        } else {
            None
        },
        MouseInput::LeftDown { row } => if row <= 5 && mode == AppMode::List {
            Some(Key::Esc)
        } else if row >= 6 && mode == AppMode::Search && has_results {
            Some(Key::Down)
        } else {
            None
        },
        MouseInput::Other => None,
    }
}

/// Converts a mouse event into the key event the key handler processes, if any.
pub fn handle_mouse(app: &App, mouse: MouseInput) -> (r: Option<Key>)
    ensures
        r == mouse_key(app.mode, app.search_results.len() > 0, mouse),
{
    let has_results = app.search_results.len() > 0;
    let focus = app.mode == AppMode::Search || app.mode == AppMode::List;
    match mouse {
        MouseInput::ScrollDown => {
            if has_results && focus {
                return Some(Key::Down);
            }
        },
        MouseInput::ScrollUp => {
            if has_results && focus {
                return Some(Key::Up);
            }
        },
        MouseInput::LeftDown { row } => {
            if row <= 5 && app.mode == AppMode::List {
                return Some(Key::Esc);
            }
            if row >= 6 && app.mode == AppMode::Search && has_results {
                return Some(Key::Down);
            }
        },
        MouseInput::Other => {},
    }
    None
}

} // verus!
