use vstd::prelude::*;

verus! {

// ---------------------------------------------------------------------------
// Characters
// ---------------------------------------------------------------------------

/// The Unicode `White_Space` property: the characters that `char::is_whitespace`,
/// `str::trim` and `str::split_whitespace` treat as white space.
pub open spec fn is_white_space(c: char) -> bool {
    ||| '\u{9}' <= c <= '\u{d}'
    ||| c == ' '
    ||| c == '\u{85}'
    ||| c == '\u{a0}'
    ||| c == '\u{1680}'
    ||| '\u{2000}' <= c <= '\u{200a}'
    ||| c == '\u{2028}'
    ||| c == '\u{2029}'
    ||| c == '\u{202f}'
    ||| c == '\u{205f}'
    ||| c == '\u{3000}'
}

/// Whether `c` is white space (`char::is_whitespace`).
pub fn char_is_whitespace(c: char) -> (r: bool)
    ensures
        r == is_white_space(c),
{
    ('\u{9}' <= c && '\u{d}' >= c) || c == ' ' || c == '\u{85}' || c == '\u{a0}' || c
        == '\u{1680}' || ('\u{2000}' <= c && '\u{200a}' >= c) || c == '\u{2028}' || c
        == '\u{2029}' || c == '\u{202f}' || c == '\u{205f}' || c == '\u{3000}'
}

/// Every character is ASCII.
pub open spec fn all_ascii(s: Seq<char>) -> bool {
    forall|i: int| 0 <= i < s.len() ==> '\u{7f}' >= #[trigger] s[i]
}

/// `char::to_ascii_lowercase`: `A` to `Z` become `a` to `z`, every other character
/// stays.
pub open spec fn ascii_lower_char(c: char) -> char {
    if 'A' <= c && 'Z' >= c {
        ((c as u32) + 32) as char
    } else {
        c
    }
}

/// `char::to_ascii_uppercase`: `a` to `z` become `A` to `Z`, every other character
/// stays.
pub open spec fn ascii_upper_char(c: char) -> char {
    if 'a' <= c && 'z' >= c {
        ((c as u32) - 32) as char
    } else {
        c
    }
}

/// `str::to_ascii_lowercase`.
pub open spec fn ascii_lower(s: Seq<char>) -> Seq<char> {
    s.map_values(|c: char| ascii_lower_char(c))
}

/// `str::to_ascii_uppercase`.
pub open spec fn ascii_upper(s: Seq<char>) -> Seq<char> {
    s.map_values(|c: char| ascii_upper_char(c))
}

/// What `str::to_lowercase` returns for a string with the given characters
/// (Unicode full lower-case mapping, context-sensitive for the final sigma).
pub uninterp spec fn lowercase(s: Seq<char>) -> Seq<char>;

/// Calls `str::to_lowercase`. The result is tied to the argument through the name
/// `lowercase`; the Unicode case tables are not stated. Of them the contract states
/// only the ASCII part: on an ASCII string the result is the ASCII lower case
/// (`A`-`Z` to `a`-`z`), which is what the documentation of `str::to_ascii_lowercase`
/// describes as the part `to_lowercase` has in common with it.
#[verifier::external_body]
pub(crate) fn to_lowercase(s: &str) -> (r: String)
    ensures
        r@ == lowercase(s@),
        all_ascii(s@) ==> r@ == ascii_lower(s@),
{
    s.to_lowercase()
}

/// Upper-casing ASCII text keeps it ASCII and does not change its lower case.
pub proof fn lemma_ascii_case(s: Seq<char>)
    requires
        all_ascii(s),
    ensures
        all_ascii(ascii_upper(s)),
        ascii_lower(ascii_upper(s)) == ascii_lower(s),
{
    assert forall|i: int| 0 <= i < s.len() implies ascii_lower_char(ascii_upper_char(s[i]))
        == ascii_lower_char(s[i]) && '\u{7f}' >= ascii_upper_char(s[i]) by {
        let c = s[i];
        if 'a' <= c && 'z' >= c {
            assert((((c as u32) - 32) as char) as u32 == (c as u32) - 32);
        }
    }
    assert(ascii_lower(ascii_upper(s)) =~= ascii_lower(s));
}

/// Calls `String::push`: appends one character.
#[verifier::external_body]
pub(crate) fn push_char(s: &mut String, c: char)
    ensures
        final(s)@ == old(s)@.push(c),
{
    s.push(c)
}

/// Calls `String::pop`: removes and returns the last character, `None` on an empty string.
#[verifier::external_body]
pub(crate) fn pop_char(s: &mut String) -> (r: Option<char>)
    ensures
        old(s)@.len() == 0 ==> r is None && final(s)@ == old(s)@,
        old(s)@.len() > 0 ==> r == Some(old(s)@.last()) && final(s)@ == old(s)@.drop_last(),
{
    s.pop()
}

/// Every character is an ASCII digit.
pub open spec fn all_digits(s: Seq<char>) -> bool {
    forall|i: int| 0 <= i < s.len() ==> '0' <= #[trigger] s[i] <= '9'
}

/// The number that a string of ASCII digits writes in decimal.
pub open spec fn decimal_value(s: Seq<char>) -> nat
    decreases s.len(),
{
    if s.len() == 0 {
        0
    } else {
        decimal_value(s.drop_last()) * 10 + ((s.last() as int) - ('0' as int)) as nat
    }
}

/// What `str::parse::<usize>` accepts: an optional `+` followed by one or more ASCII
/// digits whose value fits in `usize`; nothing else (no white space, no `-`).
pub open spec fn parsed_usize(s: Seq<char>) -> Option<usize> {
    let d = if s.len() > 0 && s[0] == '+' {
        s.drop_first()
    } else {
        s
    };
    if d.len() > 0 && all_digits(d) && decimal_value(d) <= usize::MAX {
        Some(decimal_value(d) as usize)
    } else {
        None
    }
}

/// Calls `str::parse::<usize>` (`usize::from_str`), whose documentation states the
/// accepted form: an optional `+` sign followed by decimal digits, in range.
#[verifier::external_body]
pub(crate) fn parse_usize(s: &str) -> (r: Option<usize>)
    ensures
        r == parsed_usize(s@),
{
    s.parse::<usize>().ok()
}

// ---------------------------------------------------------------------------
// Specifications of the string operations the library uses
// ---------------------------------------------------------------------------

/// Every character is white space (what `str::trim(..).is_empty()` tests).
pub open spec fn all_white(s: Seq<char>) -> bool {
    forall|i: int| 0 <= i < s.len() ==> is_white_space(#[trigger] s[i])
}

/// The first index at or after `i` that holds no white space, or the length.
pub open spec fn skip_white(s: Seq<char>, i: int) -> int
    decreases s.len() - i,
{
    if i >= s.len() || !is_white_space(s[i]) {
        i
    } else {
        skip_white(s, i + 1)
    }
}

/// The first index at or after `i` that holds white space, or the length.
pub open spec fn skip_word(s: Seq<char>, i: int) -> int
    decreases s.len() - i,
{
    if i >= s.len() || is_white_space(s[i]) {
        i
    } else {
        skip_word(s, i + 1)
    }
}

/// The end of `s[..j]` once trailing white space is removed.
pub open spec fn back_white(s: Seq<char>, j: int) -> int
    decreases j,
{
    if j <= 0 || !is_white_space(s[j - 1]) {
        j
    } else {
        back_white(s, j - 1)
    }
}

/// The first white-space-separated word: what `split_whitespace().next()` yields
/// when `s` is not all white space.
pub open spec fn first_token(s: Seq<char>) -> Seq<char> {
    let a = skip_white(s, 0);
    s.subrange(a, skip_word(s, a))
}

/// `split_whitespace().next().unwrap_or(s)`: the first word, or `s` itself when it has none.
pub open spec fn head_word(s: Seq<char>) -> Seq<char> {
    if all_white(s) {
        s
    } else {
        first_token(s)
    }
}

/// `str::trim`: `s` without leading and trailing white space.
pub open spec fn trimmed(s: Seq<char>) -> Seq<char> {
    if all_white(s) {
        Seq::empty()
    } else {
        s.subrange(skip_white(s, 0), back_white(s, s.len() as int))
    }
}

/// `p` occurs in `s` at index `i`.
pub open spec fn occurs_at(s: Seq<char>, p: Seq<char>, i: int) -> bool {
    0 <= i && i + p.len() <= s.len() && s.subrange(i, i + p.len()) == p
}

/// `str::starts_with`.
pub open spec fn begins_with(s: Seq<char>, p: Seq<char>) -> bool {
    occurs_at(s, p, 0)
}

/// `str::contains`.
pub open spec fn occurs_in(s: Seq<char>, p: Seq<char>) -> bool {
    exists|i: int| occurs_at(s, p, i)
}

/// `str::replace(p, "")` for a non-empty pattern: every occurrence of `p`, taken left to
/// right without overlap, removed.
pub open spec fn remove_all(s: Seq<char>, p: Seq<char>) -> Seq<char>
    decreases s.len(),
{
    if p.len() == 0 || s.len() < p.len() {
        s
    } else if s.take(p.len() as int) == p {
        remove_all(s.skip(p.len() as int), p)
    } else {
        seq![s[0]] + remove_all(s.drop_first(), p)
    }
}

/// Number of bytes of `c` in UTF-8 (`char::len_utf8`).
pub open spec fn utf8_width(c: char) -> nat {
    if '\u{80}' > c {
        1
    } else if '\u{800}' > c {
        2
    } else if '\u{10000}' > c {
        3
    } else {
        4
    }
}

/// Number of bytes of `s` in UTF-8 (`str::len`).
pub open spec fn utf8_len(s: Seq<char>) -> nat
    decreases s.len(),
{
    if s.len() == 0 {
        0
    } else {
        utf8_len(s.drop_last()) + utf8_width(s.last())
    }
}

/// Lexicographic comparison by code point: -1, 0 or 1. UTF-8 keeps code-point order,
/// so this is also the order of `str::cmp`, which compares bytes.
pub open spec fn lex_order(a: Seq<char>, b: Seq<char>) -> int
    decreases a.len(),
{
    if a.len() == 0 {
        if b.len() == 0 {
            0
        } else {
            -1
        }
    } else if b.len() == 0 {
        1
    } else if a[0] < b[0] {
        -1
    } else if a[0] > b[0] {
        1
    } else {
        lex_order(a.drop_first(), b.drop_first())
    }
}

// ---------------------------------------------------------------------------
// Lemmas
// ---------------------------------------------------------------------------

pub proof fn lemma_skip_white(s: Seq<char>, i: int)
    requires
        0 <= i <= s.len(),
    ensures
        i <= skip_white(s, i) <= s.len(),
        forall|k: int| i <= k < skip_white(s, i) ==> is_white_space(#[trigger] s[k]),
        skip_white(s, i) < s.len() ==> !is_white_space(s[skip_white(s, i)]),
    decreases s.len() - i,
{
    if i < s.len() && is_white_space(s[i]) {
        lemma_skip_white(s, i + 1);
    }
}

pub proof fn lemma_skip_word(s: Seq<char>, i: int)
    requires
        0 <= i <= s.len(),
    ensures
        i <= skip_word(s, i) <= s.len(),
        forall|k: int| i <= k < skip_word(s, i) ==> !is_white_space(#[trigger] s[k]),
        skip_word(s, i) < s.len() ==> is_white_space(s[skip_word(s, i)]),
    decreases s.len() - i,
{
    if i < s.len() && !is_white_space(s[i]) {
        lemma_skip_word(s, i + 1);
    }
}

pub proof fn lemma_back_white(s: Seq<char>, j: int)
    requires
        0 <= j <= s.len(),
    ensures
        0 <= back_white(s, j) <= j,
        forall|k: int| back_white(s, j) <= k < j ==> is_white_space(#[trigger] s[k]),
        back_white(s, j) > 0 ==> !is_white_space(s[back_white(s, j) - 1]),
    decreases j,
{
    if j > 0 && is_white_space(s[j - 1]) {
        lemma_back_white(s, j - 1);
    }
}

/// `all_white` holds exactly when the scan for a non-white character reaches the end.
pub proof fn lemma_all_white_skip(s: Seq<char>)
    ensures
        all_white(s) <==> skip_white(s, 0) == s.len(),
{
    lemma_skip_white(s, 0);
    if skip_white(s, 0) < s.len() {
        assert(!is_white_space(s[skip_white(s, 0)]));
    }
}

proof fn lemma_lex_order_basic(a: Seq<char>, b: Seq<char>)
    ensures
        lex_order(a, b) == -lex_order(b, a),
        -1 <= lex_order(a, b) <= 1,
        lex_order(a, b) == 0 ==> a == b,
    decreases a.len(),
{
    if a.len() > 0 && b.len() > 0 && a[0] == b[0] {
        lemma_lex_order_basic(a.drop_first(), b.drop_first());
        if lex_order(a, b) == 0 {
            assert(a =~= seq![a[0]] + a.drop_first());
            assert(b =~= seq![b[0]] + b.drop_first());
        }
    }
}

/// `lex_order` is antisymmetric and separates distinct sequences.
pub proof fn lemma_lex_order_antisymmetric(a: Seq<char>, b: Seq<char>)
    ensures
        lex_order(a, b) == -lex_order(b, a),
        -1 <= lex_order(a, b) <= 1,
        lex_order(a, b) == 0 <==> a == b,
{
    lemma_lex_order_basic(a, b);
    if a == b {
        lemma_lex_order_reflexive(a);
    }
}

proof fn lemma_lex_order_reflexive(a: Seq<char>)
    ensures
        lex_order(a, a) == 0,
    decreases a.len(),
{
    if a.len() > 0 {
        lemma_lex_order_reflexive(a.drop_first());
    }
}

/// `lex_order` orders transitively.
pub proof fn lemma_lex_order_transitive(a: Seq<char>, b: Seq<char>, c: Seq<char>)
    requires
        lex_order(a, b) < 0,
        lex_order(b, c) < 0,
    ensures
        lex_order(a, c) < 0,
    decreases a.len(),
{
    if a.len() > 0 && b.len() > 0 && c.len() > 0 && a[0] == b[0] && b[0] == c[0] {
        lemma_lex_order_transitive(a.drop_first(), b.drop_first(), c.drop_first());
    }
}

/// No character of `s` from index `i` on is `c` (checked one index at a time, which
/// lets a proof evaluate it on a literal).
pub open spec fn lacks_from(s: Seq<char>, c: char, i: int) -> bool
    decreases s.len() - i,
{
    i >= s.len() || (s[i] != c && lacks_from(s, c, i + 1))
}

pub proof fn lemma_lacks_from(s: Seq<char>, c: char, i: int)
    requires
        0 <= i,
        lacks_from(s, c, i),
    ensures
        forall|k: int| i <= k < s.len() ==> s[k] != c,
    decreases s.len() - i,
{
    if i < s.len() {
        lemma_lacks_from(s, c, i + 1);
    }
}

/// A pattern whose character at index `j` does not occur in `s` does not occur in `s`.
pub proof fn lemma_absent_char(s: Seq<char>, p: Seq<char>, j: int)
    requires
        0 <= j < p.len(),
        forall|k: int| 0 <= k < s.len() ==> s[k] != p[j],
    ensures
        forall|i: int| !occurs_at(s, p, i),
        !occurs_in(s, p),
{
    assert forall|i: int| !occurs_at(s, p, i) by {
        if occurs_at(s, p, i) {
            assert(s.subrange(i, i + p.len())[j] == s[i + j]);
        }
    }
}

/// Removing a pattern that does not occur leaves the sequence as it is.
pub proof fn lemma_remove_absent(s: Seq<char>, p: Seq<char>)
    requires
        forall|i: int| !occurs_at(s, p, i),
    ensures
        remove_all(s, p) == s,
    decreases s.len(),
{
    if p.len() > 0 && s.len() >= p.len() {
        assert(s.take(p.len() as int) =~= s.subrange(0, p.len() as int));
        assert(!occurs_at(s, p, 0));
        assert(s.take(p.len() as int) != p);
        assert forall|i: int| !occurs_at(s.drop_first(), p, i) by {
            if occurs_at(s.drop_first(), p, i) {
                assert(s.drop_first().subrange(i, i + p.len()) =~= s.subrange(i + 1, i + 1 + p.len()));
                assert(occurs_at(s, p, i + 1));
            }
        }
        lemma_remove_absent(s.drop_first(), p);
        assert(s =~= seq![s[0]] + s.drop_first());
    }
}

/// Removing a pattern from a sequence that starts with it drops that occurrence first.
pub proof fn lemma_remove_leading(p: Seq<char>, t: Seq<char>)
    requires
        p.len() > 0,
    ensures
        remove_all(p + t, p) == remove_all(t, p),
{
    assert((p + t).take(p.len() as int) =~= p);
    assert((p + t).skip(p.len() as int) =~= t);
}

// ---------------------------------------------------------------------------
// Executable operations
// ---------------------------------------------------------------------------

/// The characters of a string slice, in order.
pub fn chars_of(s: &str) -> (r: Vec<char>)
    ensures
        r@ == s@,
{
    let mut r: Vec<char> = Vec::new();
    for c in it: s.chars()
        invariant
            r@ == it.seq().take(it.index() as int),
            it.seq() == s@,
    {
        r.push(c);
    }
    r
}

/// A string made of the given characters.
pub fn string_of(v: &Vec<char>) -> (r: String)
    ensures
        r@ == v@,
{
    let mut r = String::new();
    let mut i: usize = 0;
    while i < v.len()
        invariant
            i <= v.len(),
            r@ == v@.take(i as int),
        decreases v.len() - i,
    {
        push_char(&mut r, v[i]);
        assert(v@.take(i + 1) =~= v@.take(i as int).push(v@[i as int]));
        i = i + 1;
    }
    assert(v@.take(v.len() as int) =~= v@);
    r
}

/// Index of the first non-white character at or after `i`, or the length.
fn skip_white_from(v: &Vec<char>, i: usize) -> (r: usize)
    requires
        i <= v.len(),
    ensures
        r == skip_white(v@, i as int),
{
    let mut k = i;
    while k < v.len() && char_is_whitespace(v[k])
        invariant
            i <= k <= v.len(),
            skip_white(v@, i as int) == skip_white(v@, k as int),
        decreases v.len() - k,
    {
        k = k + 1;
    }
    k
}

/// Index of the first white character at or after `i`, or the length.
fn skip_word_from(v: &Vec<char>, i: usize) -> (r: usize)
    requires
        i <= v.len(),
    ensures
        r == skip_word(v@, i as int),
{
    let mut k = i;
    while k < v.len() && !char_is_whitespace(v[k])
        invariant
            i <= k <= v.len(),
            skip_word(v@, i as int) == skip_word(v@, k as int),
        decreases v.len() - k,
    {
        k = k + 1;
    }
    k
}

/// Appends the characters of `t` to `s`.
pub fn append_str(s: &mut String, t: &str)
    ensures
        final(s)@ == old(s)@ + t@,
{
    let v = chars_of(t);
    let mut i: usize = 0;
    while i < v.len()
        invariant
            i <= v.len(),
            v@ == t@,
            s@ == old(s)@ + v@.take(i as int),
        decreases v.len() - i,
    {
        push_char(s, v[i]);
        assert(v@.take(i + 1) =~= v@.take(i as int).push(v@[i as int]));
        i = i + 1;
    }
    assert(v@.take(v.len() as int) =~= v@);
}

/// A new string holding `a` followed by `b`.
pub fn concat_str(a: &str, b: &str) -> (r: String)
    ensures
        r@ == a@ + b@,
{
    let mut r = String::new();
    append_str(&mut r, a);
    append_str(&mut r, b);
    assert(Seq::<char>::empty() + a@ =~= a@);
    r
}

/// Whether every character is white space.
pub fn is_blank(v: &Vec<char>) -> (r: bool)
    ensures
        r == all_white(v@),
{
    proof {
        lemma_all_white_skip(v@);
    }
    skip_white_from(v, 0) == v.len()
}

/// `split_whitespace().next()`: the first word, `None` when there is none.
pub fn first_word(v: &Vec<char>) -> (r: Option<Vec<char>>)
    ensures
        all_white(v@) ==> r is None,
        !all_white(v@) ==> r is Some && r->0@ == first_token(v@),
{
    proof {
        lemma_all_white_skip(v@);
        lemma_skip_white(v@, 0);
    }
    let a = skip_white_from(v, 0);
    if a == v.len() {
        return None;
    }
    proof {
        lemma_skip_word(v@, a as int);
    }
    let b = skip_word_from(v, a);
    let mut w: Vec<char> = Vec::new();
    let mut k = a;
    while k < b
        invariant
            a <= k <= b <= v.len(),
            w@ == v@.subrange(a as int, k as int),
        decreases b - k,
    {
        w.push(v[k]);
        assert(v@.subrange(a as int, k + 1) =~= v@.subrange(a as int, k as int).push(v@[k as int]));
        k = k + 1;
    }
    Some(w)
}

/// `split_whitespace().next().unwrap_or(s)`.
pub fn head_word_of(v: &Vec<char>) -> (r: Vec<char>)
    ensures
        r@ == head_word(v@),
{
    match first_word(v) {
        Some(w) => w,
        None => v.clone(),
    }
}

/// `str::trim`.
pub fn trim_chars(v: &Vec<char>) -> (r: Vec<char>)
    ensures
        r@ == trimmed(v@),
{
    proof {
        lemma_all_white_skip(v@);
        lemma_skip_white(v@, 0);
    }
    let a = skip_white_from(v, 0);
    if a == v.len() {
        return Vec::new();
    }
    let mut e = v.len();
    while e > 0 && char_is_whitespace(v[e - 1])
        invariant
            a < e <= v.len(),
            !is_white_space(v@[a as int]),
            back_white(v@, v.len() as int) == back_white(v@, e as int),
        decreases e,
    {
        e = e - 1;
    }
    let mut w: Vec<char> = Vec::new();
    let mut k = a;
    while k < e
        invariant
            a <= k <= e <= v.len(),
            w@ == v@.subrange(a as int, k as int),
        decreases e - k,
    {
        w.push(v[k]);
        assert(v@.subrange(a as int, k + 1) =~= v@.subrange(a as int, k as int).push(v@[k as int]));
        k = k + 1;
    }
    w
}

/// Whether `p` occurs in `s` at index `i`.
pub fn matches_at(s: &Vec<char>, p: &Vec<char>, i: usize) -> (r: bool)
    ensures
        r == occurs_at(s@, p@, i as int),
{
    if i > s.len() || p.len() > s.len() - i {
        return false;
    }
    let mut k: usize = 0;
    while k < p.len()
        invariant
            i + p.len() <= s.len(),
            k <= p.len(),
            s@.subrange(i as int, i + k) =~= p@.take(k as int),
        decreases p.len() - k,
    {
        if s[i + k] != p[k] {
            assert(s@.subrange(i as int, i + p.len())[k as int] != p@[k as int]);
            return false;
        }
        k = k + 1;
    }
    assert(p@.take(p.len() as int) =~= p@);
    true
}

/// `str::starts_with`.
pub fn has_prefix(s: &Vec<char>, p: &Vec<char>) -> (r: bool)
    ensures
        r == begins_with(s@, p@),
{
    matches_at(s, p, 0)
}

/// `str::contains`.
pub fn has_infix(s: &Vec<char>, p: &Vec<char>) -> (r: bool)
    ensures
        r == occurs_in(s@, p@),
{
    if p.len() > s.len() {
        assert(!occurs_in(s@, p@));
        return false;
    }
    let last = s.len() - p.len();
    let mut i: usize = 0;
    loop
        invariant
            last == s.len() - p.len(),
            i <= last,
            forall|j: int| 0 <= j < i ==> !occurs_at(s@, p@, j),
        ensures
            forall|j: int| 0 <= j <= last ==> !occurs_at(s@, p@, j),
        decreases last - i,
    {
        if matches_at(s, p, i) {
            return true;
        }
        if i == last {
            break;
        }
        i = i + 1;
    }
    assert forall|j: int| !occurs_at(s@, p@, j) by {
        if 0 <= j <= last {
        }
    }
    false
}

/// `str::trim` on a string slice, as a new string.
pub fn trim_string(s: &str) -> (r: String)
    ensures
        r@ == trimmed(s@),
{
    string_of(&trim_chars(&chars_of(s)))
}

/// Whether two character sequences are equal.
pub fn same_chars(a: &Vec<char>, b: &Vec<char>) -> (r: bool)
    ensures
        r == (a@ == b@),
{
    if a.len() != b.len() {
        return false;
    }
    let r = matches_at(a, b, 0);
    proof {
        if r {
            assert(a@.subrange(0, b@.len() as int) =~= a@);
        } else {
            assert(a@.subrange(0, a@.len() as int) =~= a@);
        }
    }
    r
}

/// `str::replace(p, "")`: every occurrence of the non-empty pattern `p` removed.
pub fn remove_occurrences(s: &Vec<char>, p: &Vec<char>) -> (r: Vec<char>)
    requires
        p.len() > 0,
    ensures
        r@ == remove_all(s@, p@),
{
    let mut out: Vec<char> = Vec::new();
    let mut i: usize = 0;
    assert(s@.skip(0) =~= s@);
    assert(out@ + s@ =~= s@);
    while i < s.len()
        invariant
            p.len() > 0,
            i <= s.len(),
            out@ + remove_all(s@.skip(i as int), p@) == remove_all(s@, p@),
        decreases s.len() - i,
    {
        let ghost rest = s@.skip(i as int);
        if matches_at(s, p, i) {
            assert(rest.take(p.len() as int) =~= s@.subrange(i as int, i + p.len()));
            assert(rest.skip(p.len() as int) =~= s@.skip(i + p.len()));
            i = i + p.len();
        } else {
            proof {
                if rest.len() >= p.len() {
                    assert(rest.take(p.len() as int) =~= s@.subrange(i as int, i + p.len()));
                    assert(rest.drop_first() =~= s@.skip(i + 1));
                    assert(out@.push(s@[i as int]) + remove_all(s@.skip(i + 1), p@) =~= out@ + (
                    seq![rest[0]] + remove_all(rest.drop_first(), p@)));
                } else {
                    assert(rest.drop_first() =~= s@.skip(i + 1));
                    assert(remove_all(s@.skip(i + 1), p@) == s@.skip(i + 1));
                    assert(out@.push(s@[i as int]) + s@.skip(i + 1) =~= out@ + rest);
                }
            }
            out.push(s[i]);
            i = i + 1;
        }
    }
    assert(s@.skip(i as int) =~= Seq::<char>::empty());
    assert(out@ + Seq::<char>::empty() =~= out@);
    out
}

/// Number of bytes of one character in UTF-8.
fn char_width(c: char) -> (r: u128)
    ensures
        r == utf8_width(c),
{
    if '\u{80}' > c {
        1
    } else if '\u{800}' > c {
        2
    } else if '\u{10000}' > c {
        3
    } else {
        4
    }
}

/// Number of bytes of the characters in UTF-8 (what `str::len` returns).
pub fn utf8_length(v: &Vec<char>) -> (r: u128)
    ensures
        r == utf8_len(v@),
{
    let mut total: u128 = 0;
    let mut i: usize = 0;
    while i < v.len()
        invariant
            i <= v.len(),
            total == utf8_len(v@.take(i as int)),
            total <= 4 * i,
        decreases v.len() - i,
    {
        assert(v@.take(i + 1).drop_last() =~= v@.take(i as int));
        total = total + char_width(v[i]);
        i = i + 1;
    }
    assert(v@.take(v.len() as int) =~= v@);
    total
}

/// Lexicographic comparison by code point: -1, 0 or 1.
pub fn lex_compare(a: &Vec<char>, b: &Vec<char>) -> (r: i8)
    ensures
        r == lex_order(a@, b@),
{
    let mut i: usize = 0;
    assert(a@.skip(0) =~= a@);
    assert(b@.skip(0) =~= b@);
    loop
        invariant
            i <= a.len(),
            i <= b.len(),
            lex_order(a@, b@) == lex_order(a@.skip(i as int), b@.skip(i as int)),
        decreases a.len() - i,
    {
        if i == a.len() {
            return if i == b.len() {
                0
            } else {
                -1
            };
        }
        if i == b.len() {
            return 1;
        }
        if a[i] < b[i] {
            return -1;
        }
        if a[i] > b[i] {
            return 1;
        }
        assert(a@.skip(i as int).drop_first() =~= a@.skip(i + 1));
        assert(b@.skip(i as int).drop_first() =~= b@.skip(i + 1));
        i = i + 1;
    }
}

} // verus!
