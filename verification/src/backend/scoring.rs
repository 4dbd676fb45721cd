use vstd::prelude::*;

use crate::models::{Package, PackageView};
use crate::text::{
    all_ascii, ascii_lower, ascii_upper, lemma_ascii_case, all_white, begins_with, chars_of, has_infix, has_prefix, head_word, head_word_of, is_blank,
    lemma_lex_order_antisymmetric, lemma_lex_order_transitive, lex_compare, lex_order, lowercase,
    occurs_at, occurs_in, same_chars, to_lowercase, utf8_len, utf8_length,
};

verus! {

// ---------------------------------------------------------------------------
// Relevance of one package
// ---------------------------------------------------------------------------

/// Relevance of a package whose lower-cased header line is `name` and lower-cased
/// description is `desc`, for the lower-cased query `q`: an exact package name scores
/// 1000, a name that starts with the query 500, a name that contains it 100, a
/// description that contains it 10, anything else 0. The package name is the first word
/// of the header line (the whole line when it has no word).
pub open spec fn relevance(q: Seq<char>, name: Seq<char>, desc: Seq<char>) -> i32 {
    let word = head_word(name);
    if word == q {
        1000
    } else if begins_with(word, q) {
        500
    } else if occurs_in(word, q) {
        100
    } else if occurs_in(desc, q) {
        10
    } else {
        0
    }
}

/// Relevance of `p` for `query`, compared without regard to case.
pub open spec fn package_score(query: Seq<char>, p: PackageView) -> i32 {
    relevance(lowercase(query), lowercase(p.name), lowercase(p.description))
}

/// The relevance of a package from its lower-cased texts.
pub fn relevance_of(query_lower: &str, name_lower: &str, desc_lower: &str) -> (r: i32)
    ensures
        r == relevance(query_lower@, name_lower@, desc_lower@),
{
    let q = chars_of(query_lower);
    let name = chars_of(name_lower);
    let desc = chars_of(desc_lower);
    let word = head_word_of(&name);
    if same_chars(&word, &q) {
        1000
    } else if has_prefix(&word, &q) {
        500
    } else if has_infix(&word, &q) {
        100
    } else if has_infix(&desc, &q) {
        10
    } else {
        0
    }
}

/// Relevance for ASCII texts, where lower-casing is ASCII lower-casing.
pub open spec fn ascii_score(query: Seq<char>, name: Seq<char>, desc: Seq<char>) -> i32 {
    relevance(ascii_lower(query), ascii_lower(name), ascii_lower(desc))
}

/// Calculates a relevance score for a single package against the current search query.
/// Higher score means more relevant.
pub fn calculate_score(query: &str, pkg: &Package) -> (r: i32)
    ensures
        r == package_score(query@, pkg@),
        all_ascii(query@) && all_ascii(pkg.name@) && all_ascii(pkg.description@) ==> r
            == ascii_score(query@, pkg.name@, pkg.description@),
{
    let q = to_lowercase(query);
    let name = to_lowercase(pkg.name.as_str());
    let desc = to_lowercase(pkg.description.as_str());
    relevance_of(q.as_str(), name.as_str(), desc.as_str())
}

// ---------------------------------------------------------------------------
// The order of a result list
// ---------------------------------------------------------------------------

/// What packages are ordered by: relevance, the UTF-8 length of the package name, the
/// package name itself.
pub struct RankView {
    pub score: i32,
    pub width: nat,
    pub word: Seq<char>,
}

/// The ordering key of package `p` that has relevance `score`.
pub open spec fn rank_of(p: PackageView, score: i32) -> RankView {
    let word = head_word(p.name);
    RankView { score, width: utf8_len(word), word }
}

/// `a` comes strictly before `b`: higher relevance first, then the shorter name, then
/// the name that is smaller by code point.
pub open spec fn ranks_before(a: RankView, b: RankView) -> bool {
    ||| a.score > b.score
    ||| a.score == b.score && a.width < b.width
    ||| a.score == b.score && a.width == b.width && lex_order(a.word, b.word) < 0
}

/// In the result of a stable sort, the package at index `i` of `ps` comes before the one
/// at index `j`: it ranks strictly before it, or ranks equal and came first.
pub open spec fn precedes(ps: Seq<PackageView>, scores: Seq<i32>, i: int, j: int) -> bool {
    let a = rank_of(ps[i], scores[i]);
    let b = rank_of(ps[j], scores[j]);
    ranks_before(a, b) || (!ranks_before(b, a) && i < j)
}

/// `p` lists each of `0..n` exactly once.
pub open spec fn is_permutation(p: Seq<int>, n: nat) -> bool {
    &&& p.len() == n
    &&& forall|k: int| 0 <= k < n ==> 0 <= #[trigger] p[k] < n
    &&& forall|k: int, l: int| 0 <= k < l < n ==> p[k] != p[l]
}

/// `p` lists the indices of `ps` in the order of a stable sort by rank.
pub open spec fn stable_order(ps: Seq<PackageView>, scores: Seq<i32>, p: Seq<int>) -> bool {
    &&& is_permutation(p, ps.len())
    &&& forall|k: int, l: int| 0 <= k < l < ps.len() ==> precedes(ps, scores, p[k], p[l])
}

/// `out` is the first `limit` packages (or all, when there are fewer) of `ps` sorted
/// stably by rank, where `scores[i]` is the relevance of `ps[i]`.
pub open spec fn ranked(ps: Seq<PackageView>, scores: Seq<i32>, out: Seq<PackageView>, limit: nat) -> bool {
    exists|p: Seq<int>|
        {
            &&& stable_order(ps, scores, p)
            &&& out.len() == if ps.len() < limit { ps.len() } else { limit }
            &&& forall|k: int| 0 <= k < out.len() ==> out[k] == ps[#[trigger] p[k]]
        }
}

/// Relevances of `ps` for `query`, in order.
pub open spec fn scores_for(query: Seq<char>, ps: Seq<PackageView>) -> Seq<i32> {
    Seq::new(ps.len(), |i: int| package_score(query, ps[i]))
}

/// At most this many results are kept.
pub const RESULT_LIMIT: usize = 10;

/// `ranks_before` is a strict order whose incomparable keys are equal.
pub proof fn lemma_rank_order(a: RankView, b: RankView, c: RankView)
    ensures
        !ranks_before(a, a),
        ranks_before(a, b) && ranks_before(b, c) ==> ranks_before(a, c),
        !ranks_before(a, b) && !ranks_before(b, a) ==> a == b,
        ranks_before(a, b) ==> !ranks_before(b, a),
{
    lemma_lex_order_antisymmetric(a.word, a.word);
    lemma_lex_order_antisymmetric(a.word, b.word);
    lemma_lex_order_antisymmetric(b.word, c.word);
    lemma_lex_order_antisymmetric(a.word, c.word);
    if lex_order(a.word, b.word) < 0 && lex_order(b.word, c.word) < 0 {
        lemma_lex_order_transitive(a.word, b.word, c.word);
    }
}

/// Executable form of a rank.
struct Rank {
    score: i32,
    width: u128,
    word: Vec<char>,
}

impl Rank {
    spec fn rv(&self) -> RankView {
        RankView { score: self.score, width: self.width as nat, word: self.word@ }
    }
}

fn rank_for(p: &Package, score: i32) -> (r: Rank)
    ensures
        r.rv() == rank_of(p@, score),
{
    let name = chars_of(p.name.as_str());
    let word = head_word_of(&name);
    let width = utf8_length(&word);
    Rank { score, width, word }
}

fn before(a: &Rank, b: &Rank) -> (r: bool)
    ensures
        r == ranks_before(a.rv(), b.rv()),
{
    if a.score != b.score {
        a.score > b.score
    } else if a.width != b.width {
        a.width < b.width
    } else {
        lex_compare(&a.word, &b.word) < 0
    }
}

/// Sorts `packages` stably by rank, `scores[i]` being the relevance of `packages[i]`.
pub fn rank_by_scores(packages: Vec<Package>, scores: &Vec<i32>) -> (r: Vec<Package>)
    requires
        scores.len() == packages.len(),
    ensures
        ranked(packages.deep_view(), scores@, r.deep_view(), packages.len() as nat),
{
    let ghost ps = packages.deep_view();
    let ghost n = packages.len() as int;
    let mut ranks: Vec<Rank> = Vec::new();
    let mut i: usize = 0;
    while i < packages.len()
        invariant
            i <= packages.len(),
            scores.len() == packages.len(),
            ps == packages.deep_view(),
            ranks.len() == i,
            forall|k: int| 0 <= k < i ==> (#[trigger] ranks@[k]).rv() == rank_of(ps[k], scores@[k]),
        decreases packages.len() - i,
    {
        let r = rank_for(&packages[i], scores[i]);
        ranks.push(r);
        i = i + 1;
    }
    let mut rest = packages;
    let mut out: Vec<Package> = Vec::new();
    let mut out_ranks: Vec<Rank> = Vec::new();
    let ghost mut perm: Seq<int> = Seq::empty();
    while rest.len() > 0
        invariant
            ps.len() == n,
            scores@.len() == n,
            rest.len() <= n,
            ranks.len() == rest.len(),
            forall|k: int| 0 <= k < rest.len() ==> (#[trigger] rest@[k])@ == ps[k],
            forall|k: int|
                0 <= k < rest.len() ==> (#[trigger] ranks@[k]).rv() == rank_of(ps[k], scores@[k]),
            out.len() == n - rest.len(),
            out_ranks.len() == out.len(),
            perm.len() == out.len(),
            forall|k: int| 0 <= k < out.len() ==> rest.len() <= #[trigger] perm[k] < n,
            forall|k: int, l: int| 0 <= k < l < out.len() ==> perm[k] != perm[l],
            forall|k: int| 0 <= k < out.len() ==> (#[trigger] out@[k])@ == ps[perm[k]],
            forall|k: int|
                0 <= k < out.len() ==> (#[trigger] out_ranks@[k]).rv() == rank_of(
                    ps[perm[k]],
                    scores@[perm[k]],
                ),
            forall|k: int, l: int|
                0 <= k < l < out.len() ==> precedes(ps, scores@, perm[k], perm[l]),
        decreases rest.len(),
    {
        let ghost x = rest.len() - 1;
        let pkg = rest.pop().unwrap();
        let rk = ranks.pop().unwrap();
        let mut j: usize = 0;
        while j < out_ranks.len() && before(&out_ranks[j], &rk)
            invariant
                j <= out_ranks.len(),
                forall|t: int| 0 <= t < j ==> ranks_before((#[trigger] out_ranks@[t]).rv(), rk.rv()),
            decreases out_ranks.len() - j,
        {
            j = j + 1;
        }
        let ghost old_perm = perm;
        let ghost old_ranks = out_ranks@;
        proof {
            assert forall|t: int| j <= t < old_perm.len() implies !ranks_before(
                #[trigger] old_ranks[t].rv(),
                rk.rv(),
            ) by {
                if t > j {
                    let kj = old_ranks[j as int].rv();
                    let kt = old_ranks[t].rv();
                    lemma_rank_order(kj, kt, rk.rv());
                    lemma_rank_order(kt, kj, rk.rv());
                    assert(precedes(ps, scores@, old_perm[j as int], old_perm[t]));
                }
            }
        }
        out.insert(j, pkg);
        out_ranks.insert(j, rk);
        proof {
            perm = old_perm.insert(j as int, x);
            assert forall|k: int, l: int| 0 <= k < l < out.len() implies precedes(
                ps,
                scores@,
                perm[k],
                perm[l],
            ) by {
                if k < j && l == j {
                    assert(ranks_before(old_ranks[k].rv(), rk.rv()));
                } else if k == j {
                    assert(!ranks_before(old_ranks[l - 1].rv(), rk.rv()));
                } else if k < j && l < j {
                    assert(perm[k] == old_perm[k] && perm[l] == old_perm[l]);
                } else if k < j && l > j {
                    assert(perm[k] == old_perm[k] && perm[l] == old_perm[l - 1]);
                } else {
                    assert(perm[k] == old_perm[k - 1] && perm[l] == old_perm[l - 1]);
                }
            }
            assert forall|k: int, l: int| 0 <= k < l < out.len() implies perm[k] != perm[l] by {
                if k != j && l != j {
                    let ok = if k < j { k } else { k - 1 };
                    let ol = if l < j { l } else { l - 1 };
                    assert(perm[k] == old_perm[ok] && perm[l] == old_perm[ol]);
                }
            }
        }
    }
    proof {
        let dv = out.deep_view();
        assert(stable_order(ps, scores@, perm));
        assert forall|k: int| 0 <= k < dv.len() implies dv[k] == ps[#[trigger] perm[k]] by {
            assert(dv[k] == out@[k]@);
        }
    }
    out
}

/// Consumes a raw list of packages from pacman, scores them against the query,
/// and returns them sorted by relevance -> length -> alphabetical, keeping the first ten.
/// A blank query returns the list untouched.
pub fn sort_packages(query: &str, packages: Vec<Package>) -> (r: Vec<Package>)
    ensures
        all_white(query@) ==> r.deep_view() == packages.deep_view(),
        !all_white(query@) ==> ranked(
            packages.deep_view(),
            scores_for(query@, packages.deep_view()),
            r.deep_view(),
            RESULT_LIMIT as nat,
        ),
{
    let q = chars_of(query);
    if is_blank(&q) {
        return packages;
    }
    let ghost ps = packages.deep_view();
    let mut scores: Vec<i32> = Vec::new();
    let mut i: usize = 0;
    while i < packages.len()
        invariant
            i <= packages.len(),
            ps == packages.deep_view(),
            scores.len() == i,
            forall|k: int| 0 <= k < i ==> scores@[k] == package_score(query@, ps[k]),
        decreases packages.len() - i,
    {
        scores.push(calculate_score(query, &packages[i]));
        i = i + 1;
    }
    assert(scores@ =~= scores_for(query@, ps));
    let n = packages.len();
    let mut sorted = rank_by_scores(packages, &scores);
    let ghost full = sorted.deep_view();
    sorted.truncate(RESULT_LIMIT);
    proof {
        let p = choose|p: Seq<int>|
            {
                &&& stable_order(ps, scores@, p)
                &&& full.len() == ps.len()
                &&& forall|k: int| 0 <= k < full.len() ==> full[k] == ps[#[trigger] p[k]]
            };
        let dv = sorted.deep_view();
        assert forall|k: int| 0 <= k < dv.len() implies dv[k] == ps[#[trigger] p[k]] by {
            assert(dv[k] == full[k]);
        }
    }
    sorted
}

/// Results come in order of non-increasing relevance, and there are at most `limit`.
pub proof fn lemma_results_by_relevance(
    query: Seq<char>,
    ps: Seq<PackageView>,
    out: Seq<PackageView>,
    limit: nat,
)
    requires
        ranked(ps, scores_for(query, ps), out, limit),
    ensures
        out.len() <= limit,
        out.len() <= ps.len(),
        forall|k: int, l: int|
            0 <= k < l < out.len() ==> package_score(query, #[trigger] out[k]) >= package_score(
                query,
                #[trigger] out[l],
            ),
{
    let scores = scores_for(query, ps);
    let p = choose|p: Seq<int>|
        {
            &&& stable_order(ps, scores, p)
            &&& out.len() == if ps.len() < limit { ps.len() } else { limit }
            &&& forall|k: int| 0 <= k < out.len() ==> out[k] == ps[#[trigger] p[k]]
        };
    assert forall|k: int, l: int| 0 <= k < l < out.len() implies package_score(
        query,
        #[trigger] out[k],
    ) >= package_score(query, #[trigger] out[l]) by {
        assert(precedes(ps, scores, p[k], p[l]));
        assert(out[k] == ps[p[k]] && out[l] == ps[p[l]]);
        assert(scores[p[k]] == package_score(query, ps[p[k]]));
        assert(scores[p[l]] == package_score(query, ps[p[l]]));
    }
}

/// On ASCII text the score does not depend on case: upper-casing the query, the name
/// and the description gives the same score.
pub proof fn lemma_score_ignores_ascii_case(query: Seq<char>, name: Seq<char>, desc: Seq<char>)
    requires
        all_ascii(query),
        all_ascii(name),
        all_ascii(desc),
    ensures
        all_ascii(ascii_upper(query)),
        all_ascii(ascii_upper(name)),
        all_ascii(ascii_upper(desc)),
        ascii_score(ascii_upper(query), ascii_upper(name), ascii_upper(desc)) == ascii_score(
            query,
            name,
            desc,
        ),
{
    lemma_ascii_case(query);
    lemma_ascii_case(name);
    lemma_ascii_case(desc);
}

/// When the package name contains the query, the description does not count.
pub proof fn lemma_name_match_ignores_description(
    q: Seq<char>,
    name: Seq<char>,
    desc: Seq<char>,
    other: Seq<char>,
)
    requires
        occurs_in(head_word(name), q),
    ensures
        relevance(q, name, desc) == relevance(q, name, other),
        relevance(q, name, desc) >= 100,
{
}

/// Sorting the result of a sort again, for the same query, changes nothing.
pub proof fn lemma_sort_idempotent(
    query: Seq<char>,
    ps: Seq<PackageView>,
    out: Seq<PackageView>,
    again: Seq<PackageView>,
)
    requires
        ranked(ps, scores_for(query, ps), out, RESULT_LIMIT as nat),
        ranked(out, scores_for(query, out), again, RESULT_LIMIT as nat),
    ensures
        again == out,
{
    let s1 = scores_for(query, ps);
    let s2 = scores_for(query, out);
    let p = choose|p: Seq<int>|
        {
            &&& stable_order(ps, s1, p)
            &&& out.len() == if ps.len() < RESULT_LIMIT as nat { ps.len() } else { RESULT_LIMIT as nat }
            &&& forall|k: int| 0 <= k < out.len() ==> out[k] == ps[#[trigger] p[k]]
        };
    let q = choose|q: Seq<int>|
        {
            &&& stable_order(out, s2, q)
            &&& again.len() == if out.len() < RESULT_LIMIT as nat { out.len() } else { RESULT_LIMIT as nat }
            &&& forall|k: int| 0 <= k < again.len() ==> again[k] == out[#[trigger] q[k]]
        };
    // `out` is already in order: a later package never ranks before an earlier one.
    assert forall|k: int, l: int| 0 <= k < l < out.len() implies !ranks_before(
        rank_of(out[l], s2[l]),
        rank_of(out[k], s2[k]),
    ) by {
        assert(precedes(ps, s1, p[k], p[l]));
        assert(s2[k] == s1[p[k]] && s2[l] == s1[p[l]]);
        lemma_rank_order(rank_of(out[k], s2[k]), rank_of(out[l], s2[l]), rank_of(out[k], s2[k]));
    }
    // So the stable order of `out` is the identity.
    assert forall|k: int, l: int| 0 <= k < l < out.len() implies q[k] < q[l] by {
        assert(precedes(out, s2, q[k], q[l]));
        if q[k] > q[l] {
            assert(!ranks_before(rank_of(out[q[k]], s2[q[k]]), rank_of(out[q[l]], s2[q[l]])));
        }
    }
    lemma_increasing_is_identity(q, out.len());
    assert(out.len() <= RESULT_LIMIT as nat);
    assert(again.len() == out.len());
    assert forall|k: int| 0 <= k < again.len() implies again[k] == out[k] by {
        assert(again[k] == out[q[k]]);
    }
    assert(again =~= out);
}

/// A strictly increasing sequence of `n` indices below `n` lists `0..n` in order.
proof fn lemma_increasing_is_identity(q: Seq<int>, n: nat)
    requires
        q.len() == n,
        forall|k: int| 0 <= k < n ==> 0 <= #[trigger] q[k] < n,
        forall|k: int, l: int| 0 <= k < l < n ==> q[k] < q[l],
    ensures
        forall|k: int| 0 <= k < n ==> #[trigger] q[k] == k,
{
    assert forall|k: int| 0 <= k < n implies #[trigger] q[k] == k by {
        lemma_increasing_lower(q, n, k);
        lemma_top_from_end(q, n, k);
    }
}

proof fn lemma_increasing_lower(q: Seq<int>, n: nat, k: int)
    requires
        q.len() == n,
        0 <= k < n,
        forall|i: int| 0 <= i < n ==> 0 <= #[trigger] q[i] < n,
        forall|i: int, j: int| 0 <= i < j < n ==> q[i] < q[j],
    ensures
        q[k] >= k,
    decreases k,
{
    if k > 0 {
        lemma_increasing_lower(q, n, k - 1);
        assert(q[k - 1] < q[k]);
    }
}

proof fn lemma_top_from_end(q: Seq<int>, n: nat, k: int)
    requires
        q.len() == n,
        0 <= k < n,
        forall|i: int| 0 <= i < n ==> 0 <= #[trigger] q[i] < n,
        forall|i: int, j: int| 0 <= i < j < n ==> q[i] < q[j],
    ensures
        q[k] <= k,
    decreases n - k,
{
    if k < n - 1 {
        lemma_top_from_end(q, n, k + 1);
        assert(q[k] < q[k + 1]);
    }
}

/// The tie-breaks of a result list: among packages of equal relevance the shorter name
/// comes first, and among names of equal length too the one smaller by code point. The
/// list holds `limit` packages, or all of them when there are fewer.
pub proof fn lemma_results_tie_breaks(
    query: Seq<char>,
    ps: Seq<PackageView>,
    out: Seq<PackageView>,
    limit: nat,
)
    requires
        ranked(ps, scores_for(query, ps), out, limit),
    ensures
        out.len() == if ps.len() < limit { ps.len() } else { limit },
        forall|k: int, l: int|
            0 <= k < l < out.len() && package_score(query, #[trigger] out[k]) == package_score(
                query,
                #[trigger] out[l],
            ) ==> utf8_len(head_word(out[k].name)) <= utf8_len(head_word(out[l].name)),
        forall|k: int, l: int|
            0 <= k < l < out.len() && package_score(query, #[trigger] out[k]) == package_score(
                query,
                #[trigger] out[l],
            ) && utf8_len(head_word(out[k].name)) == utf8_len(head_word(out[l].name))
                ==> lex_order(head_word(out[k].name), head_word(out[l].name)) <= 0,
{
    let scores = scores_for(query, ps);
    let p = choose|p: Seq<int>|
        {
            &&& stable_order(ps, scores, p)
            &&& out.len() == if ps.len() < limit { ps.len() } else { limit }
            &&& forall|k: int| 0 <= k < out.len() ==> out[k] == ps[#[trigger] p[k]]
        };
    assert forall|k: int, l: int|
        0 <= k < l < out.len() && package_score(query, #[trigger] out[k]) == package_score(
            query,
            #[trigger] out[l],
        ) implies utf8_len(head_word(out[k].name)) <= utf8_len(head_word(out[l].name)) && (
        utf8_len(head_word(out[k].name)) == utf8_len(head_word(out[l].name)) ==> lex_order(
            head_word(out[k].name),
            head_word(out[l].name),
        ) <= 0) by {
        assert(precedes(ps, scores, p[k], p[l]));
        assert(out[k] == ps[p[k]] && out[l] == ps[p[l]]);
        assert(scores[p[k]] == package_score(query, ps[p[k]]));
        assert(scores[p[l]] == package_score(query, ps[p[l]]));
        let a = rank_of(ps[p[k]], scores[p[k]]);
        let b = rank_of(ps[p[l]], scores[p[l]]);
        lemma_lex_order_antisymmetric(a.word, b.word);
        lemma_rank_order(a, b, b);
    }
}

/// Where the query is found decides the order of relevance: an exact name beats a name
/// that only starts with the query, which beats a name that only contains it, which
/// beats a match in the description alone, which beats no match at all. A package
/// scores above zero exactly when its name or its description contains the query.
pub proof fn lemma_relevance_ladder(
    q: Seq<char>,
    name: Seq<char>,
    desc: Seq<char>,
    other_name: Seq<char>,
    other_desc: Seq<char>,
)
    ensures
        relevance(q, name, desc) > 0 <==> occurs_in(head_word(name), q) || occurs_in(desc, q),
        head_word(name) == q && head_word(other_name) != q ==> relevance(q, name, desc)
            > relevance(q, other_name, other_desc),
        begins_with(head_word(name), q) && !begins_with(head_word(other_name), q) ==> relevance(
            q,
            name,
            desc,
        ) > relevance(q, other_name, other_desc),
        occurs_in(head_word(name), q) && !occurs_in(head_word(other_name), q) ==> relevance(
            q,
            name,
            desc,
        ) > relevance(q, other_name, other_desc),
        occurs_in(desc, q) && !occurs_in(head_word(other_name), q) && !occurs_in(other_desc, q)
            ==> relevance(q, name, desc) > relevance(q, other_name, other_desc),
{
    let w = head_word(name);
    let o = head_word(other_name);
    if w == q {
        assert(q.subrange(0, q.len() as int) =~= q);
        assert(occurs_at(w, q, 0));
    }
    if o == q {
        assert(q.subrange(0, q.len() as int) =~= q);
        assert(occurs_at(o, q, 0));
    }
    if begins_with(w, q) {
        assert(occurs_at(w, q, 0));
    }
    if begins_with(o, q) {
        assert(occurs_at(o, q, 0));
    }
}

} // verus!
