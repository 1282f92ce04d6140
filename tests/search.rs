use minigrep::{
    find_first, mark_folded, search, search_case_insensitive, split_lines, NORMAL, RED,
};

fn strip(lines: Vec<String>) -> Vec<String> {
    lines
        .into_iter()
        .map(|l| l.replace(RED, "").replace(NORMAL, ""))
        .collect()
}

fn chars(s: &str) -> Vec<char> {
    s.chars().collect()
}

#[test]
fn case_sensitive() {
    let query = "duct";
    let contents = "\
Rust:
safe, fast, productive.
Pick three.
Duct tape.";
    assert_eq!(vec!["safe, fast, productive."], strip(search(query, contents)));
    assert_eq!(
        vec![format!("safe, fast, pro{}duct{}ive.", RED, NORMAL)],
        search(query, contents)
    );
}

#[test]
fn case_insensitive() {
    let query = "rUsT";
    let contents = "\
Rust:
safe, fast, productive.
Pick three.
Trust me.";

    assert_eq!(
        vec!["Rust:", "Trust me."],
        strip(search_case_insensitive(query, contents))
    );
    assert_eq!(
        vec![
            format!("{}Rust{}:", RED, NORMAL),
            format!("T{}rust{} me.", RED, NORMAL),
        ],
        search_case_insensitive(query, contents)
    );
}

#[test]
fn no_match_gives_empty_result() {
    let first = "Rust:\nsafe, fast, productive.\nPick three.\nDuct tape.";
    let second = "Rust:\nsafe, fast, productive.\nPick three.\nTrust me.";
    for doc in [first, second] {
        assert!(search("xyz123", doc).is_empty());
        assert!(search_case_insensitive("xyz123", doc).is_empty());
    }
}

#[test]
fn markers_have_expected_bytes() {
    assert_eq!(RED, "\x1b[1;31m");
    assert_eq!(NORMAL, "\x1b[0m");
    assert_eq!(RED.len(), 7);
    assert_eq!(NORMAL.len(), 4);
}

#[test]
fn only_first_occurrence_is_marked() {
    assert_eq!(
        search("ab", "xabyab"),
        vec![format!("x{}ab{}yab", RED, NORMAL)]
    );
}

#[test]
fn order_of_lines_is_kept() {
    let doc = "one a\ntwo\nthree a\nfour a";
    assert_eq!(strip(search("a", doc)), vec!["one a", "three a", "four a"]);
}

#[test]
fn empty_document_has_no_lines() {
    assert!(search("a", "").is_empty());
    assert!(search("", "").is_empty());
}

#[test]
fn empty_query_marks_start_of_every_line() {
    assert_eq!(
        search("", "a\n\nb"),
        vec![
            format!("{}{}a", RED, NORMAL),
            format!("{}{}", RED, NORMAL),
            format!("{}{}b", RED, NORMAL),
        ]
    );
}

#[test]
fn line_endings_follow_std_lines() {
    let doc = "foo\nbar\n\r\nbaz\r";
    let expected: Vec<String> = doc.lines().map(String::from).collect();
    assert_eq!(strip(search("", doc)), expected);
    assert_eq!(strip(search("", "x\n")), vec!["x"]);
    assert_eq!(strip(search("a", "a\r\nb\r\na")), vec!["a", "a"]);
}

#[test]
fn unicode_text_is_matched_by_characters() {
    assert_eq!(
        search("ü", "grüße\nnein"),
        vec![format!("gr{}ü{}ße", RED, NORMAL)]
    );
}

#[test]
fn case_insensitive_lowercases_query_and_line() {
    assert_eq!(
        search_case_insensitive("DUCT", "Duct tape.\nduct\nDUCT"),
        vec![
            format!("{}Duct{} tape.", RED, NORMAL),
            format!("{}duct{}", RED, NORMAL),
            format!("{}DUCT{}", RED, NORMAL),
        ]
    );
    assert!(search("DUCT", "Duct tape.\nduct").is_empty());
}

#[test]
fn mark_folded_uses_folded_position() {
    assert_eq!(
        mark_folded("Trust me.", "trust me.", "rust"),
        Some(format!("T{}rust{} me.", RED, NORMAL))
    );
    assert_eq!(mark_folded("Trust me.", "trust me.", "rUsT"), None);
}

#[test]
fn mark_folded_cuts_marks_at_line_end() {
    assert_eq!(
        mark_folded("ab", "xxab", "ab"),
        Some(format!("ab{}{}", RED, NORMAL))
    );
    assert_eq!(
        mark_folded("abc", "xabc", "bc"),
        Some(format!("ab{}c{}", RED, NORMAL))
    );
}

#[test]
fn find_first_gives_first_position() {
    assert_eq!(find_first(&chars("abcabc"), &chars("bc")), Some(1));
    assert_eq!(find_first(&chars("abc"), &chars("")), Some(0));
    assert_eq!(find_first(&chars("abc"), &chars("abcd")), None);
    assert_eq!(find_first(&chars("abc"), &chars("x")), None);
}

#[test]
fn split_lines_matches_std() {
    for doc in ["", "a", "a\n", "\n", "a\nb", "a\r\nb\r\n", "a\rb", "\n\n"] {
        let expected: Vec<Vec<char>> = doc.lines().map(chars).collect();
        assert_eq!(split_lines(&chars(doc)), expected, "document {:?}", doc);
    }
}
