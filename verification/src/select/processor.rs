use vstd::prelude::*;

use crate::models::Package;

verus! {

/// The package to install: none when there are no results, when the 1-based `number`
/// names no result, or when the user declined; otherwise result `number`.
pub fn process(results: Vec<Package>, number: usize, confirmed: bool) -> (r: Option<Package>)
    requires
        results.len() == 0 || number >= 1,
    ensures
        results.len() == 0 || number > results.len() || !confirmed ==> r is None,
        results.len() > 0 && 1 <= number <= results.len() && confirmed ==> r is Some
            && r->0@ == results@[number - 1]@,
{
    if results.len() == 0 {
        return None;
    }
    let index = number - 1;
    if index < results.len() && confirmed {
        Some(results[index].copied())
    } else {
        None
    }
}

} // verus!
