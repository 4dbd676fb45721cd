pub mod execute;

use vstd::prelude::*;

use crate::backend::search::{listing, scan_listing};
use crate::models::Package;
use crate::text::{lowercase, to_lowercase};

verus! {

/// The packages of a `pacman -Ss` listing whose name contains the query (compared
/// without regard to case); nothing when there is no query.
pub fn process(query: Option<String>, lines: &Vec<String>) -> (r: Vec<Package>)
    ensures
        query is None ==> r.len() == 0,
        query is Some ==> r.deep_view() == listing(lowercase(query->0@), lines.deep_view()),
{
    match query {
        Some(q) => {
            let lowered = to_lowercase(q.as_str());
            scan_listing(lowered.as_str(), lines)
        },
        None => Vec::new(),
    }
}

} // verus!
