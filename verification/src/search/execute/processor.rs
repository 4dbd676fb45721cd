use vstd::prelude::*;

use crate::models::{Package, PackageView};
use crate::text::{all_white, chars_of, is_blank, trim_string, trimmed};

verus! {

/// A listing read as pairs of lines: a header line (trimmed; blank ones are skipped)
/// and the description line after it (trimmed; empty when the listing ends first).
pub open spec fn pairs(lines: Seq<Seq<char>>) -> Seq<PackageView>
    decreases lines.len(),
{
    if lines.len() == 0 {
        Seq::empty()
    } else if all_white(lines[0]) {
        pairs(lines.drop_first())
    } else if lines.len() == 1 {
        seq![PackageView { name: trimmed(lines[0]), description: Seq::empty() }]
    } else {
        seq![PackageView { name: trimmed(lines[0]), description: trimmed(lines[1]) }] + pairs(
            lines.skip(2),
        )
    }
}

/// Reads the packages of a listing as pairs of lines.
pub fn parse_pairs(lines: &Vec<String>) -> (r: Vec<Package>)
    ensures
        r.deep_view() == pairs(lines.deep_view()),
{
    let ghost ls = lines.deep_view();
    let mut out: Vec<Package> = Vec::new();
    let mut i: usize = 0;
    assert(ls.skip(0) =~= ls);
    assert(Seq::<PackageView>::empty() + pairs(ls) =~= pairs(ls));
    while i < lines.len()
        invariant
            i <= lines.len(),
            ls == lines.deep_view(),
            out.deep_view() + pairs(ls.skip(i as int)) == pairs(ls),
        decreases lines.len() - i,
    {
        let ghost rest = ls.skip(i as int);
        let ghost before = out.deep_view();
        assert(rest[0] == lines@[i as int]@);
        if is_blank(&chars_of(lines[i].as_str())) {
            assert(rest.drop_first() =~= ls.skip(i + 1));
            i = i + 1;
        } else if i + 1 == lines.len() {
            let name = trim_string(lines[i].as_str());
            out.push(Package { name, description: String::new() });
            assert(rest.len() == 1);
            assert(ls.skip(i + 1) =~= Seq::<Seq<char>>::empty());
            assert(out.deep_view() =~= before + pairs(rest));
            assert(out.deep_view() + pairs(ls.skip(i + 1)) =~= out.deep_view());
            i = i + 1;
        } else {
            let name = trim_string(lines[i].as_str());
            let description = trim_string(lines[i + 1].as_str());
            out.push(Package { name, description });
            assert(rest[1] == lines@[i + 1]@);
            assert(rest.skip(2) =~= ls.skip(i + 2));
            assert(out.deep_view() =~= before + seq![
                PackageView { name: trimmed(rest[0]), description: trimmed(rest[1]) },
            ]);
            assert(out.deep_view() + pairs(ls.skip(i + 2)) =~= before + pairs(rest));
            i = i + 2;
        }
    }
    assert(ls.skip(i as int) =~= Seq::<Seq<char>>::empty());
    assert(out.deep_view() + Seq::<PackageView>::empty() =~= out.deep_view());
    out
}

/// A listing without blank lines gives one package for every two lines, in order: line
/// `2k` is the header of package `k` and line `2k + 1` its description; a header left
/// alone at the end gets an empty description.
pub proof fn lemma_pairs_of_full_lines(lines: Seq<Seq<char>>)
    requires
        forall|k: int| 0 <= k < lines.len() ==> !all_white(#[trigger] lines[k]),
    ensures
        pairs(lines).len() == (lines.len() + 1) / 2,
        forall|k: int|
            0 <= k < pairs(lines).len() ==> (#[trigger] pairs(lines)[k]).name == trimmed(
                lines[2 * k],
            ),
        forall|k: int|
            0 <= k && 2 * k + 1 < lines.len() ==> (#[trigger] pairs(lines)[k]).description
                == trimmed(lines[2 * k + 1]),
        lines.len() % 2 == 1 ==> pairs(lines).last().description == Seq::<char>::empty(),
    decreases lines.len(),
{
    if lines.len() >= 2 {
        let rest = lines.skip(2);
        assert forall|k: int| 0 <= k < rest.len() implies !all_white(#[trigger] rest[k]) by {
            assert(rest[k] == lines[k + 2]);
        }
        lemma_pairs_of_full_lines(rest);
        let head = seq![PackageView { name: trimmed(lines[0]), description: trimmed(lines[1]) }];
        assert(!all_white(lines[0]));
        assert(pairs(lines) == head + pairs(rest));
        assert forall|k: int| 0 <= k < pairs(lines).len() implies (#[trigger] pairs(
            lines,
        )[k]).name == trimmed(lines[2 * k]) by {
            if k > 0 {
                assert(pairs(lines)[k] == pairs(rest)[k - 1]);
                assert(rest[2 * (k - 1)] == lines[2 * k]);
            }
        }
        assert forall|k: int| 0 <= k && 2 * k + 1 < lines.len() implies (#[trigger] pairs(
            lines,
        )[k]).description == trimmed(lines[2 * k + 1]) by {
            if k > 0 {
                assert(pairs(lines)[k] == pairs(rest)[k - 1]);
                assert(rest[2 * (k - 1) + 1] == lines[2 * k + 1]);
            }
        }
        if lines.len() % 2 == 1 {
            assert(rest.len() % 2 == 1);
            assert(pairs(lines).last() == pairs(rest).last());
        }
    } else if lines.len() == 1 {
        assert(!all_white(lines[0]));
    }
}

} // verus!
