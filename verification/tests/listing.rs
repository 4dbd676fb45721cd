use pebble::backend::search::{parse_search_output, scan_listing};
use pebble::search::execute::processor::parse_pairs;
use pebble::search::process;

fn lines(v: &[&str]) -> Vec<String> {
    v.iter().map(|s| s.to_string()).collect()
}

fn sample() -> Vec<String> {
    lines(&[
        "core/linux 6.6.1.arch1-1 [installed]",
        "    The Linux kernel and modules",
        "extra/firefox 120.0-1",
        "    Standalone web browser",
        "extra/linux-firmware 2023-1",
        "    Firmware files for Linux  ",
        "",
        "core/LINUX-lts 6.1-1",
        "\tLTS kernel",
    ])
}

#[test]
fn listing_keeps_matching_packages() {
    let out = parse_search_output("Linux", &sample());
    assert_eq!(out.len(), 2);
    assert_eq!(out[0].name, "core/linux 6.6.1.arch1-1 [installed]");
    assert_eq!(out[0].description, "The Linux kernel and modules");
    assert_eq!(out[1].name, "extra/linux-firmware 2023-1");
    assert_eq!(out[1].description, "Firmware files for Linux");
}

#[test]
fn listing_line_that_is_not_indented_is_no_description() {
    // "core/LINUX-lts" matches, but its next line is not indented by four spaces.
    let out = parse_search_output("lts", &sample());
    assert_eq!(out.len(), 0);
}

#[test]
fn listing_blank_query_finds_nothing() {
    assert!(parse_search_output("  ", &sample()).is_empty());
}

#[test]
fn listing_blank_line_keeps_current_package() {
    let out = scan_listing("foo", &lines(&["core/foo 1", "", "    desc"]));
    assert_eq!(out.len(), 1);
    assert_eq!(out[0].description, "desc");
}

#[test]
fn listing_description_without_header_is_ignored() {
    let out = scan_listing("foo", &lines(&["    stray", "core/bar 1", "    bar"]));
    assert!(out.is_empty());
}

#[test]
fn listing_results_match_query() {
    let out = parse_search_output("LINUX", &sample());
    assert_eq!(out.len(), 2);
    for p in &out {
        let id = p.name.split_whitespace().next().unwrap().to_lowercase();
        assert!(id.contains("linux"));
    }
}

#[test]
fn search_process_without_query_is_empty() {
    assert!(process(None, &sample()).is_empty());
    let out = process(Some("FIREFOX".to_string()), &sample());
    assert_eq!(out.len(), 1);
    assert_eq!(out[0].description, "Standalone web browser");
}

#[test]
fn pairs_read_two_lines_at_a_time() {
    let out = parse_pairs(&lines(&["  core/a 1  ", "  desc a ", "", "core/b 1"]));
    assert_eq!(out.len(), 2);
    assert_eq!(out[0].name, "core/a 1");
    assert_eq!(out[0].description, "desc a");
    assert_eq!(out[1].name, "core/b 1");
    assert_eq!(out[1].description, "");
}
