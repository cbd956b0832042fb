use diff_analyzer::estimator::estimate_tokens;
use diff_analyzer::truncator::smart_summarize_diff;

const MARKER: &str = "... (remainder omitted due to budget)\n";

#[test]
fn estimate_of_empty_text_is_zero() {
    assert_eq!(estimate_tokens(""), 0);
}

#[test]
fn estimate_counts_four_plain_characters_per_token() {
    assert_eq!(estimate_tokens("abc"), 0);
    assert_eq!(estimate_tokens("abcd"), 1);
    assert_eq!(estimate_tokens("abcdefg"), 1);
    assert_eq!(estimate_tokens("abcdefgh"), 2);
}

#[test]
fn estimate_counts_each_dense_script_character_as_one_token() {
    assert_eq!(estimate_tokens("가"), 1);
    assert_eq!(estimate_tokens("가나다"), 3);
    // The block boundaries count; neighbours outside it do not.
    assert_eq!(estimate_tokens("힣"), 1);
    assert_eq!(estimate_tokens("\u{ABFF}\u{ABFF}\u{ABFF}\u{ABFF}"), 1);
}

#[test]
fn estimate_of_mixed_text_adds_the_two_counts() {
    // Three dense characters plus eight plain ones.
    assert_eq!(estimate_tokens("가나다abcdefgh"), 5);
}

#[test]
fn empty_input_yields_a_zeroed_header_and_nothing_else() {
    // Scenario: the diff is empty; the core still produces a valid,
    // empty-bodied statistics header without error.
    let out = smart_summarize_diff("", 1000);
    assert_eq!(out, "=== stats ===\nfiles 0, +0 -0 lines\n\n");
}

#[test]
fn header_counts_files_additions_and_removals() {
    let diff = "diff --git a/x b/x\n+++ b/x\n+added one\n+added two\n-removed one\ncontext\n";
    let out = smart_summarize_diff(diff, 100000);
    // Any line opening with + or - counts, the +++ header form included.
    assert!(out.starts_with("=== stats ===\nfiles 1, +3 -1 lines\n\n"));
    // Everything fit, so no marker was appended.
    assert!(!out.contains(MARKER));
    assert!(out.contains("+added one\n"));
    assert!(out.contains("context\n"));
}

#[test]
fn zero_budget_yields_header_plus_marker_alone() {
    let out = smart_summarize_diff("some line\nanother line\n", 0);
    assert_eq!(
        out,
        format!("=== stats ===\nfiles 0, +0 -0 lines\n\n{}", MARKER)
    );
}

#[test]
fn one_token_budget_yields_header_plus_marker_alone() {
    let out = smart_summarize_diff("some line\nanother line\n", 1);
    assert_eq!(
        out,
        format!("=== stats ===\nfiles 0, +0 -0 lines\n\n{}", MARKER)
    );
}

#[test]
fn zero_budget_on_empty_input_yields_header_alone() {
    let out = smart_summarize_diff("", 0);
    assert_eq!(out, "=== stats ===\nfiles 0, +0 -0 lines\n\n");
}

#[test]
fn huge_diff_is_cut_to_the_budget_and_ends_with_the_marker() {
    // Scenario: a 500,000-character diff against a budget of 1,000 tokens.
    let mut diff = String::new();
    let mut lines = 0usize;
    while diff.len() < 500_000 {
        diff.push_str("+this added line carries fifty characters of text\n");
        lines += 1;
    }
    assert!(diff.len() >= 500_000);
    let out = smart_summarize_diff(&diff, 1000);
    assert!(out.ends_with(MARKER));
    let header = format!("=== stats ===\nfiles 0, +{} -0 lines\n\n", lines);
    assert!(out.starts_with(&header));
    // The estimate of the whole output stays within the budget plus the
    // cost of the header and marker lines.
    let bound = 1000 + estimate_tokens(&header) + estimate_tokens(MARKER) + 1;
    assert!(estimate_tokens(&out) <= bound);
}

#[test]
fn truncation_keeps_whole_leading_lines_in_order() {
    let diff = "first\nsecond\nthird\n";
    // A budget that covers the header and roughly one short line.
    let header = "=== stats ===\nfiles 0, +0 -0 lines\n\n";
    let budget = estimate_tokens(header) + 2;
    let out = smart_summarize_diff(diff, budget);
    assert!(out.starts_with(header));
    assert!(out.ends_with(MARKER));
    // Whatever made it in is a prefix of the input, in original order.
    let body = &out[header.len()..out.len() - MARKER.len()];
    assert!(diff.starts_with(body));
}

#[test]
fn identical_input_and_budget_give_identical_output() {
    let diff = "+a\n-b\ncontext\n".repeat(100);
    let a = smart_summarize_diff(&diff, 50);
    let b = smart_summarize_diff(&diff, 50);
    assert_eq!(a, b);
}

#[test]
fn dense_script_truncation_counts_characters_one_to_one() {
    // One hundred dense-script characters per line, forty lines: the text
    // estimates at over 4,000 tokens against a budget of 200.
    let line = "가".repeat(100);
    let mut diff = String::new();
    for _ in 0..40 {
        diff.push_str(&line);
        diff.push('\n');
    }
    let out = smart_summarize_diff(&diff, 200);
    assert!(out.ends_with(MARKER));
    let header = "=== stats ===\nfiles 0, +0 -0 lines\n\n";
    let bound = 200 + estimate_tokens(header) + estimate_tokens(MARKER) + 1;
    assert!(estimate_tokens(&out) <= bound);
}
