pub mod processor;
pub mod prompt;

use vstd::prelude::*;

use crate::models::Package;
use crate::text::{
    all_digits, all_white, back_white, chars_of, decimal_value, is_white_space, lowercase,
    parse_usize, parsed_usize, same_chars, skip_white, to_lowercase, trim_string, trimmed,
};

verus! {

/// What one line typed at the "Enter number to install" prompt means.
#[derive(PartialEq, Eq, Structural, Clone, Copy, Debug)]
pub enum Choice {
    /// Nothing but white space: ask again without a message.
    Blank,
    /// Not a number from 1 to the number of results: say so and ask again.
    Invalid,
    /// The 0-based index of the chosen package.
    Chosen(usize),
}

/// The meaning of `input` at a prompt for a number from 1 to `max_items`.
pub open spec fn choice_of(input: Seq<char>, max_items: usize) -> Choice {
    let t = trimmed(input);
    if t.len() == 0 {
        Choice::Blank
    } else {
        match parsed_usize(t) {
            Some(n) => if 0 < n && n <= max_items {
                Choice::Chosen((n - 1) as usize)
            } else {
                Choice::Invalid
            },
            None => Choice::Invalid,
        }
    }
}

/// Reads one line typed at the prompt for a package number.
pub fn read_choice(input: &str, max_items: usize) -> (r: Choice)
    ensures
        r == choice_of(input@, max_items),
{
    let t = trim_string(input);
    if t.as_str().is_empty() {
        return Choice::Blank;
    }
    match parse_usize(t.as_str()) {
        Some(n) => if 0 < n && n <= max_items {
            Choice::Chosen(n - 1)
        } else {
            Choice::Invalid
        },
        None => Choice::Invalid,
    }
}

/// A trimmed, lower-cased answer agrees when it is empty, `y` or `yes`.
pub open spec fn accepts(a: Seq<char>) -> bool {
    a.len() == 0 || a == "y"@ || a == "yes"@
}

/// An answer to "Do you want to install ...? [Y/n]" agrees when, trimmed and lower-cased,
/// it is empty, `y` or `yes`.
pub open spec fn agrees(answer: Seq<char>) -> bool {
    accepts(lowercase(trimmed(answer)))
}

/// Whether an answer that is already trimmed and lower-cased agrees.
pub fn accepts_lowered(answer_lower: &str) -> (r: bool)
    ensures
        r == accepts(answer_lower@),
{
    let a = chars_of(answer_lower);
    a.len() == 0 || same_chars(&a, &chars_of("y")) || same_chars(&a, &chars_of("yes"))
}

/// Whether the answer to the confirmation question agrees (the default is yes).
pub fn is_confirmation(answer: &str) -> (r: bool)
    ensures
        r == agrees(answer@),
{
    let t = trim_string(answer);
    accepts_lowered(to_lowercase(t.as_str()).as_str())
}

/// The package to install: none when there are no results or the user declined,
/// otherwise the one at the chosen 0-based `index`.
pub fn process(results: Vec<Package>, index: usize, confirmed: bool) -> (r: Option<Package>)
    requires
        results.len() == 0 || index < results.len(),
    ensures
        results.len() == 0 || !confirmed ==> r is None,
        results.len() > 0 && confirmed ==> r is Some && r->0@ == results@[index as int]@,
{
    if results.len() == 0 {
        return None;
    }
    if confirmed {
        Some(results[index].copied())
    } else {
        None
    }
}

/// A chosen number always names one of the results, so it can be handed to `process`.
pub proof fn lemma_choice_in_range(input: Seq<char>, max_items: usize)
    ensures
        choice_of(input, max_items) matches Choice::Chosen(i) ==> i < max_items,
{
}

/// Typing a number picks an item: the digits of a number from 1 to `max_items`, with or
/// without a space on each side, choose the item before it (items count from 0); any
/// other number is refused. A blank line asks again without a message.
pub proof fn lemma_number_picks_item(digits: Seq<char>, max_items: usize, blank: Seq<char>)
    requires
        digits.len() > 0,
        all_digits(digits),
        all_white(blank),
    ensures
        choice_of(digits, max_items) == if 1 <= decimal_value(digits) <= max_items {
            Choice::Chosen((decimal_value(digits) - 1) as usize)
        } else {
            Choice::Invalid
        },
        choice_of(seq![' '] + digits + seq![' '], max_items) == choice_of(digits, max_items),
        choice_of(blank, max_items) == Choice::Blank,
{
    let n = digits.len() as int;
    assert(!is_white_space(digits[0]));
    assert(!is_white_space(digits[n - 1]));
    assert(!all_white(digits));
    assert(skip_white(digits, 0) == 0);
    assert(back_white(digits, n) == n);
    assert(digits.subrange(0, n) =~= digits);
    assert(trimmed(digits) == digits);
    let padded = seq![' '] + digits + seq![' '];
    assert(padded[1] == digits[0]);
    assert(!all_white(padded));
    assert(skip_white(padded, 1) == 1);
    assert(skip_white(padded, 0) == 1);
    assert(padded[n] == digits[n - 1]);
    assert(back_white(padded, n + 1) == n + 1);
    assert(back_white(padded, n + 2) == n + 1);
    assert(padded.subrange(1, n + 1) =~= digits);
    assert(trimmed(padded) == digits);
    assert(trimmed(blank) == Seq::<char>::empty());
}

} // verus!
