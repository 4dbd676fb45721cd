use vstd::prelude::*;

use crate::models::{Package, PackageView};
use crate::text::{
    all_white, begins_with, chars_of, first_word, first_token, has_infix, has_prefix, is_blank,
    lowercase, occurs_in, string_of, to_lowercase, trim_chars, trimmed,
};

verus! {

/// Where a scan of `pacman -Ss` / `pacman -Qs` output stands: the header line of the
/// package that waits for its description, and the packages completed so far.
pub struct ScanState {
    pub current: Option<Seq<char>>,
    pub found: Seq<PackageView>,
}

/// One output line. A line that does not start with four spaces is a header line: when
/// its first word, lower-cased, contains the query the package becomes current,
/// otherwise no package is current (a header line without a word changes nothing). An
/// indented line is the description of the current package, which is then complete.
pub open spec fn scan_line(q: Seq<char>, st: ScanState, line: Seq<char>) -> ScanState {
    if !begins_with(line, "    "@) {
        if all_white(line) {
            st
        } else if occurs_in(lowercase(first_token(line)), q) {
            ScanState { current: Some(line), found: st.found }
        } else {
            ScanState { current: None, found: st.found }
        }
    } else {
        match st.current {
            Some(name) => ScanState {
                current: None,
                found: st.found.push(PackageView { name, description: trimmed(line) }),
            },
            None => st,
        }
    }
}

/// The state after scanning `lines` in order.
pub open spec fn scan_lines(q: Seq<char>, lines: Seq<Seq<char>>) -> ScanState
    decreases lines.len(),
{
    if lines.len() == 0 {
        ScanState { current: None, found: Seq::empty() }
    } else {
        scan_line(q, scan_lines(q, lines.drop_last()), lines.last())
    }
}

/// The packages of a listing whose names contain the lower-cased query `q`.
pub open spec fn listing(q: Seq<char>, lines: Seq<Seq<char>>) -> Seq<PackageView> {
    scan_lines(q, lines).found
}

/// Whether a lower-cased package identifier contains the lower-cased query.
pub fn identifier_matches(identifier_lower: &str, query_lower: &str) -> (r: bool)
    ensures
        r == occurs_in(identifier_lower@, query_lower@),
{
    has_infix(&chars_of(identifier_lower), &chars_of(query_lower))
}

/// Scans the lines of a package listing for the packages whose name contains the
/// lower-cased query.
pub fn scan_listing(query_lower: &str, lines: &Vec<String>) -> (r: Vec<Package>)
    ensures
        r.deep_view() == listing(query_lower@, lines.deep_view()),
{
    let ghost ls = lines.deep_view();
    let q = chars_of(query_lower);
    let indent = chars_of("    ");
    let mut results: Vec<Package> = Vec::new();
    let mut current: Option<String> = None;
    let mut i: usize = 0;
    while i < lines.len()
        invariant
            i <= lines.len(),
            ls == lines.deep_view(),
            q@ == query_lower@,
            indent@ == "    "@,
            scan_lines(q@, ls.take(i as int)).found == results.deep_view(),
            scan_lines(q@, ls.take(i as int)).current == match current {
                Some(s) => Some(s@),
                None => None::<Seq<char>>,
            },
        decreases lines.len() - i,
    {
        let line = chars_of(lines[i].as_str());
        proof {
            assert(ls.take(i + 1).drop_last() =~= ls.take(i as int));
            assert(ls.take(i + 1).last() == line@);
        }
        if !has_prefix(&line, &indent) {
            match first_word(&line) {
                Some(identifier) => {
                    let word = string_of(&identifier);
                    if identifier_matches(to_lowercase(word.as_str()).as_str(), query_lower) {
                        current = Some(lines[i].clone());
                    } else {
                        current = None;
                    }
                },
                None => {},
            }
        } else {
            match current {
                Some(name) => {
                    let description = string_of(&trim_chars(&line));
                    let ghost before = results.deep_view();
                    results.push(Package { name, description });
                    assert(results.deep_view() =~= before.push(results@[results.len() - 1]@));
                    current = None;
                },
                None => {},
            }
        }
        i = i + 1;
    }
    assert(ls.take(lines.len() as int) =~= ls);
    results
}

/// The arguments of pacman that list the packages matching `query`: `-Qs` for installed
/// packages only, `-Ss` otherwise, then the query lower-cased.
pub fn listing_arguments(query: &str, installed_only: bool) -> (r: Vec<String>)
    ensures
        r.deep_view() == seq![
            if installed_only {
                "-Qs"@
            } else {
                "-Ss"@
            },
            lowercase(query@),
        ],
{
    let mut r: Vec<String> = Vec::new();
    if installed_only {
        r.push(string_of(&chars_of("-Qs")));
    } else {
        r.push(string_of(&chars_of("-Ss")));
    }
    r.push(to_lowercase(query));
    assert(r.deep_view() =~= seq![
        if installed_only {
            "-Qs"@
        } else {
            "-Ss"@
        },
        lowercase(query@),
    ]);
    r
}

/// The arguments of a pacman search for `query`, or `None` when the query is blank and
/// pacman is not run at all.
pub fn search_arguments(query: &str, installed_only: bool) -> (r: Option<Vec<String>>)
    ensures
        all_white(query@) ==> r is None,
        !all_white(query@) ==> r is Some && r->0.deep_view() == seq![
            if installed_only {
                "-Qs"@
            } else {
                "-Ss"@
            },
            lowercase(query@),
        ],
{
    if is_blank(&chars_of(query)) {
        None
    } else {
        Some(listing_arguments(query, installed_only))
    }
}

/// Parses the lines a pacman search printed for `query`: the packages whose name contains
/// the query, compared without regard to case. A blank query finds nothing.
pub fn parse_search_output(query: &str, lines: &Vec<String>) -> (r: Vec<Package>)
    ensures
        all_white(query@) ==> r.len() == 0,
        !all_white(query@) ==> r.deep_view() == listing(lowercase(query@), lines.deep_view()),
{
    let q = chars_of(query);
    if is_blank(&q) {
        return Vec::new();
    }
    let lowered = to_lowercase(query);
    scan_listing(lowered.as_str(), lines)
}

/// Every package found has a name whose first word, lower-cased, contains the query.
pub proof fn lemma_listing_matches_query(q: Seq<char>, lines: Seq<Seq<char>>)
    ensures
        forall|k: int|
            0 <= k < scan_lines(q, lines).found.len() ==> {
                let name = (#[trigger] scan_lines(q, lines).found[k]).name;
                !all_white(name) && occurs_in(lowercase(first_token(name)), q)
            },
        scan_lines(q, lines).current matches Some(name) ==> !all_white(name) && occurs_in(
            lowercase(first_token(name)),
            q,
        ),
    decreases lines.len(),
{
    if lines.len() > 0 {
        lemma_listing_matches_query(q, lines.drop_last());
        let prev = scan_lines(q, lines.drop_last());
        let now = scan_lines(q, lines);
        assert(now == scan_line(q, prev, lines.last()));
        assert(now.found == prev.found || (prev.current is Some && now.found == prev.found.push(
            PackageView { name: prev.current->0, description: trimmed(lines.last()) },
        )));
        assert forall|k: int| 0 <= k < now.found.len() implies {
            let name = (#[trigger] now.found[k]).name;
            !all_white(name) && occurs_in(lowercase(first_token(name)), q)
        } by {
            if k < prev.found.len() {
                assert(now.found[k] == prev.found[k]);
            } else {
                assert(prev.current is Some);
                assert(now.found[k].name == prev.current->0);
            }
        }
    }
}

/// Completeness of a listing: a header line whose first word, lower-cased, contains the
/// query, followed by its indented description, adds exactly that package at the end,
/// however many packages the lines before it already gave.
pub proof fn lemma_listing_takes_every_match(
    q: Seq<char>,
    lines: Seq<Seq<char>>,
    header: Seq<char>,
    description: Seq<char>,
)
    requires
        !begins_with(header, "    "@),
        !all_white(header),
        occurs_in(lowercase(first_token(header)), q),
        begins_with(description, "    "@),
    ensures
        listing(q, lines + seq![header, description]) == listing(q, lines).push(
            PackageView { name: header, description: trimmed(description) },
        ),
        listing(q, lines + seq![header, description]).len() == listing(q, lines).len() + 1,
{
    let with_header = lines + seq![header];
    let all = lines + seq![header, description];
    assert(all.drop_last() =~= with_header);
    assert(all.last() == description);
    assert(with_header.drop_last() =~= lines);
    assert(with_header.last() == header);
    assert(scan_lines(q, with_header).current == Some(header));
}

/// A header line whose first word does not contain the query, with its description,
/// adds nothing to a listing.
pub proof fn lemma_listing_skips_other(
    q: Seq<char>,
    lines: Seq<Seq<char>>,
    header: Seq<char>,
    description: Seq<char>,
)
    requires
        !begins_with(header, "    "@),
        !all_white(header),
        !occurs_in(lowercase(first_token(header)), q),
        begins_with(description, "    "@),
    ensures
        listing(q, lines + seq![header, description]) == listing(q, lines),
{
    let with_header = lines + seq![header];
    let all = lines + seq![header, description];
    assert(all.drop_last() =~= with_header);
    assert(all.last() == description);
    assert(with_header.drop_last() =~= lines);
    assert(with_header.last() == header);
    assert(scan_lines(q, with_header).current == None::<Seq<char>>);
}

/// The lines of a listing made of header/description pairs, in order.
pub open spec fn pair_lines(pairs: Seq<(Seq<char>, Seq<char>)>) -> Seq<Seq<char>>
    decreases pairs.len(),
{
    if pairs.len() == 0 {
        Seq::empty()
    } else {
        pair_lines(pairs.drop_last()) + seq![pairs.last().0, pairs.last().1]
    }
}

/// A listing made only of matching header/description pairs gives one package per pair,
/// in order: as many packages as pairs, with no limit on their number.
pub proof fn lemma_listing_keeps_all_pairs(q: Seq<char>, pairs: Seq<(Seq<char>, Seq<char>)>)
    requires
        forall|k: int|
            0 <= k < pairs.len() ==> {
                let (header, description) = #[trigger] pairs[k];
                &&& !begins_with(header, "    "@)
                &&& !all_white(header)
                &&& occurs_in(lowercase(first_token(header)), q)
                &&& begins_with(description, "    "@)
            },
    ensures
        listing(q, pair_lines(pairs)).len() == pairs.len(),
        forall|k: int|
            0 <= k < pairs.len() ==> #[trigger] listing(q, pair_lines(pairs))[k] == (PackageView {
                name: pairs[k].0,
                description: trimmed(pairs[k].1),
            }),
    decreases pairs.len(),
{
    if pairs.len() > 0 {
        let init = pairs.drop_last();
        assert forall|k: int| 0 <= k < init.len() implies {
            let (header, description) = #[trigger] init[k];
            &&& !begins_with(header, "    "@)
            &&& !all_white(header)
            &&& occurs_in(lowercase(first_token(header)), q)
            &&& begins_with(description, "    "@)
        } by {
            assert(init[k] == pairs[k]);
        }
        lemma_listing_keeps_all_pairs(q, init);
        let last = pairs[pairs.len() - 1];
        assert(pairs.last() == last);
        lemma_listing_takes_every_match(q, pair_lines(init), last.0, last.1);
        assert forall|k: int| 0 <= k < pairs.len() implies #[trigger] listing(
            q,
            pair_lines(pairs),
        )[k] == (PackageView { name: pairs[k].0, description: trimmed(pairs[k].1) }) by {
            if k < init.len() {
                assert(pairs[k] == init[k]);
            }
        }
    }
}

} // verus!
