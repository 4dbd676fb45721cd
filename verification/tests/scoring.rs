use pebble::backend::scoring::{calculate_score, relevance_of, sort_packages};
use pebble::models::Package;

fn pkg(name: &str, description: &str) -> Package {
    Package { name: name.to_string(), description: description.to_string() }
}

fn names(ps: &[Package]) -> Vec<String> {
    ps.iter().map(|p| p.name.clone()).collect()
}

#[test]
fn exact_name_scores_highest() {
    assert_eq!(calculate_score("linux", &pkg("core/linux 6.1.1-1", "The kernel")), 100);
    assert_eq!(calculate_score("core/linux", &pkg("core/linux 6.1.1-1", "The kernel")), 1000);
}

#[test]
fn score_levels() {
    let p = pkg("extra/firefox 120.0-1 [installed]", "Standalone web browser from mozilla.org");
    assert_eq!(calculate_score("extra/firefox", &p), 1000);
    assert_eq!(calculate_score("extra/fire", &p), 500);
    assert_eq!(calculate_score("fox", &p), 100);
    assert_eq!(calculate_score("mozilla", &p), 10);
    assert_eq!(calculate_score("chromium", &p), 0);
}

#[test]
fn score_ignores_case() {
    let p = pkg("Extra/FireFox 120.0-1", "Standalone WEB browser");
    assert_eq!(calculate_score("EXTRA/firefox", &p), 1000);
    assert_eq!(calculate_score("web", &p), 10);
}

#[test]
fn score_of_name_without_word_uses_whole_line() {
    // A header line that is only white space is compared as a whole.
    assert_eq!(relevance_of("  ", "  ", ""), 1000);
    assert_eq!(relevance_of("", "a b", ""), 500);
}

#[test]
fn relevance_of_takes_lowered_texts_as_given() {
    assert_eq!(relevance_of("abc", "xabcx 1.0", ""), 100);
    assert_eq!(relevance_of("ABC", "xabcx 1.0", "abc"), 0);
}

#[test]
fn sort_orders_by_score_then_length_then_name() {
    let input = vec![
        pkg("extra/vim-plugins 1", "plugins"),
        pkg("extra/neovim 1", "vim fork"),
        pkg("extra/vim 9", "editor"),
        pkg("extra/gvim 9", "vim gui"),
        pkg("extra/vimb 1", "browser"),
        pkg("extra/vima 1", "browser"),
    ];
    let out = sort_packages("extra/vim", input);
    assert_eq!(
        names(&out),
        vec![
            "extra/vim 9",
            "extra/vima 1",
            "extra/vimb 1",
            "extra/vim-plugins 1",
            "extra/gvim 9",
            "extra/neovim 1",
        ]
    );
}

#[test]
fn sort_keeps_at_most_ten() {
    let input: Vec<Package> =
        (0..15).map(|i| pkg(&format!("core/pkg{:02} 1", i), "thing")).collect();
    let out = sort_packages("pkg", input);
    assert_eq!(out.len(), 10);
    assert_eq!(out[0].name, "core/pkg00 1");
    assert_eq!(out[9].name, "core/pkg09 1");
}

#[test]
fn sort_with_blank_query_returns_input_untouched() {
    let input: Vec<Package> =
        (0..12).rev().map(|i| pkg(&format!("core/p{} 1", i), "d")).collect();
    let expected = names(&input);
    let out = sort_packages(" \t", input);
    assert_eq!(names(&out), expected);
}

#[test]
fn sort_is_stable_for_equal_names() {
    let input = vec![pkg("core/abc 2", "second"), pkg("core/abc 1", "first"), pkg("core/xyz 1", "abc")];
    let out = sort_packages("abc", input);
    assert_eq!(out[0].description, "second");
    assert_eq!(out[1].description, "first");
    assert_eq!(out[2].name, "core/xyz 1");
}

#[test]
fn sort_breaks_ties_by_bytes_not_characters() {
    // Same relevance (description match); "x/abcdefg" has more characters but fewer bytes.
    let input = vec![pkg("x/\u{e9}\u{e9}\u{e9}\u{e9}", "zz"), pkg("x/abcdefg", "zz")];
    let out = sort_packages("zz", input);
    assert_eq!(out[0].name, "x/abcdefg");
    assert_eq!(out[1].name, "x/\u{e9}\u{e9}\u{e9}\u{e9}");
}

#[test]
fn sort_results_have_non_increasing_relevance() {
    let input = vec![
        pkg("a/zzz 1", "query here"),
        pkg("a/query 1", ""),
        pkg("a/xqueryx 1", ""),
        pkg("a/queryfoo 1", ""),
        pkg("a/none 1", ""),
    ];
    let out = sort_packages("a/query", input);
    let scores: Vec<i32> = out.iter().map(|p| calculate_score("a/query", p)).collect();
    for w in scores.windows(2) {
        assert!(w[0] >= w[1]);
    }
    assert_eq!(scores[0], 1000);
}

#[test]
fn score_ignores_ascii_case() {
    let p = pkg("extra/firefox 120.0-1", "Standalone web browser from mozilla.org");
    let upper = pkg(&p.name.to_ascii_uppercase(), &p.description.to_ascii_uppercase());
    for q in ["extra/firefox", "extra/fire", "fox", "mozilla", "chromium"] {
        assert_eq!(calculate_score(q, &p), calculate_score(&q.to_ascii_uppercase(), &upper));
    }
}

#[test]
fn name_match_ignores_description() {
    let p = pkg("extra/firefox 120.0-1", "fire everywhere");
    let bare = pkg("extra/firefox 120.0-1", "");
    assert_eq!(calculate_score("fire", &p), calculate_score("fire", &bare));
}

#[test]
fn sorting_twice_changes_nothing() {
    let input: Vec<Package> = (0..14)
        .rev()
        .map(|i| pkg(&format!("core/lib{} 1", i), if i % 3 == 0 { "lib tools" } else { "x" }))
        .collect();
    let once = sort_packages("lib", input);
    let twice = sort_packages("lib", once.clone());
    assert_eq!(names(&once), names(&twice));
}
