use vstd::prelude::*;

use crate::text::{parse_usize, parsed_usize, trim_string, trimmed};

verus! {

/// The number typed at the prompt, when it is one from 1 to `max` (after trimming);
/// `None` means "invalid, ask again".
pub fn read_number(input: &str, max: usize) -> (r: Option<usize>)
    ensures
        r == (match parsed_usize(trimmed(input@)) {
            Some(n) => if 0 < n && n <= max {
                Some(n)
            } else {
                None
            },
            None => None,
        }),
{
    let t = trim_string(input);
    match parse_usize(t.as_str()) {
        Some(n) => if 0 < n && n <= max {
            Some(n)
        } else {
            None
        },
        None => None,
    }
}

} // verus!
