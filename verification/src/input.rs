use vstd::prelude::*;

use crate::text::{trim_string, trimmed};

verus! {

/// The search typed on one line: the line trimmed, or `None` when it is blank (the
/// prompt then reads another line).
pub fn process(line: &str) -> (r: Option<String>)
    ensures
        trimmed(line@).len() == 0 ==> r is None,
        trimmed(line@).len() > 0 ==> r is Some && r->0@ == trimmed(line@),
{
    let t = trim_string(line);
    if t.as_str().is_empty() {
        None
    } else {
        Some(t)
    }
}

} // verus!
