use meow_coverage::coverage::{CoverageRatio, LcovFileCoverage};
use meow_coverage::helpers::{path_split, line_changed_in_hunk, lines_in_same_hunk, DiffHunk,
    DiffLine};
use meow_coverage::pull::pull_untested_changes;
use sha2::{Digest, Sha256};

fn sample_hunk() -> DiffHunk {
    // new-file positions: 10 context, 11 added, 12 added, 13 context
    DiffHunk {
        new_start: 10,
        new_count: 4,
        lines: vec![DiffLine::Context, DiffLine::Added, DiffLine::Added, DiffLine::Context],
    }
}

#[test]
fn added_lines_are_attributed_and_context_lines_are_not() {
    let hunk = sample_hunk();
    assert!(line_changed_in_hunk(&hunk, 11));
    assert!(line_changed_in_hunk(&hunk, 12));
    assert!(!line_changed_in_hunk(&hunk, 10));
    assert!(!line_changed_in_hunk(&hunk, 13));
}

#[test]
fn lines_just_outside_the_range_are_never_attributed() {
    let hunk = sample_hunk();
    assert!(!line_changed_in_hunk(&hunk, 9));
    assert!(!line_changed_in_hunk(&hunk, 14));
}

#[test]
fn removed_lines_have_no_position_in_the_new_file() {
    let hunk = DiffHunk {
        new_start: 1,
        new_count: 2,
        lines: vec![DiffLine::Removed, DiffLine::Added, DiffLine::Context],
    };
    // the removed line does not advance the cursor: the added line sits at 1
    assert!(line_changed_in_hunk(&hunk, 1));
    assert!(!line_changed_in_hunk(&hunk, 2));
}

#[test]
fn lines_in_same_hunk_needs_one_hunk_for_both() {
    let hunks = vec![
        DiffHunk { new_start: 1, new_count: 5, lines: vec![] },
        DiffHunk { new_start: 100, new_count: 5, lines: vec![] },
    ];
    assert!(lines_in_same_hunk(&hunks, 2, 4));
    assert!(lines_in_same_hunk(&hunks, 101, 104));
    assert!(!lines_in_same_hunk(&hunks, 2, 101));
    assert!(!lines_in_same_hunk(&hunks, 2, 50));
}

#[test]
fn path_split_keeps_the_prefix_on_the_right() {
    assert_eq!(path_split("/build/x/src/lib.rs", "src/"), "src/lib.rs");
    assert_eq!(path_split("src/lib.rs", "src/"), "src/lib.rs");
    assert_eq!(path_split("no/match/here.rs", "lib/"), "no/match/here.rs");
}

#[test]
fn pull_untested_changes_attributes_through_a_real_diff() {
    let patch_text = String::from(
        "--- a/src/lib.rs\n+++ b/src/lib.rs\n@@ -1,3 +1,4 @@\n context1\n+added line\n context2\n context3\n",
    );
    let grouped = vec![LcovFileCoverage {
        filename: String::from("src/lib.rs"),
        percentage: Some(CoverageRatio { hit: 1, found: 3 }),
        lines: vec![2, 3],
    }];
    let diffs = vec![(String::from("src/lib.rs"), patch_text)];
    let (changes, skipped) = pull_untested_changes(&grouped, &diffs, "src/");
    assert!(skipped.is_empty());
    assert_eq!(changes.len(), 1);
    // line 2 was added by the diff; line 3 is only context
    assert_eq!(changes[0].raw_lines, vec![2]);
    assert_eq!(changes[0].hunked_lines, vec![(2, 2)]);
    assert_eq!(changes[0].realpath, "src/lib.rs");
    let expected_sha = hex::encode(Sha256::digest("src/lib.rs"));
    assert_eq!(changes[0].sha, expected_sha);
}

#[test]
fn pull_untested_changes_skips_files_without_diff_or_attribution() {
    let grouped = vec![
        LcovFileCoverage {
            filename: String::from("src/only_context.rs"),
            percentage: None,
            lines: vec![1],
        },
        LcovFileCoverage {
            filename: String::from("src/no_diff.rs"),
            percentage: None,
            lines: vec![1],
        },
    ];
    let patch_text = String::from(
        "--- a/src/only_context.rs\n+++ b/src/only_context.rs\n@@ -1,2 +1,2 @@\n context\n+added\n",
    );
    let diffs = vec![(String::from("src/only_context.rs"), patch_text)];
    // line 1 is context in the diff, so nothing is attributed; the other
    // file has no diff at all
    let (changes, skipped) = pull_untested_changes(&grouped, &diffs, "src/");
    assert!(changes.is_empty());
    assert!(skipped.is_empty());
}

#[test]
fn pull_untested_changes_skips_malformed_diffs() {
    let grouped = vec![LcovFileCoverage {
        filename: String::from("src/lib.rs"),
        percentage: None,
        lines: vec![1],
    }];
    let diffs = vec![(String::from("src/lib.rs"), String::from("this is not a diff"))];
    let (changes, skipped) = pull_untested_changes(&grouped, &diffs, "src/");
    assert!(changes.is_empty());
    // the skipped file's path comes back so the caller can log it
    assert_eq!(skipped, vec![String::from("src/lib.rs")]);
}

#[test]
fn pull_untested_changes_skips_diffs_with_header_like_body_lines() {
    // deleting a line that begins `-- ` (an SQL comment) renders as a
    // body line starting `--- `, which the diff parser refuses mid-hunk;
    // the file is skipped instead of handed over
    let patch_text = String::from(
        "--- a/src/q.sql\n+++ b/src/q.sql\n@@ -1,2 +1,1 @@\n--- drop\n context\n",
    );
    let grouped = vec![LcovFileCoverage {
        filename: String::from("src/q.sql"),
        percentage: None,
        lines: vec![1],
    }];
    let diffs = vec![(String::from("src/q.sql"), patch_text)];
    let (changes, skipped) = pull_untested_changes(&grouped, &diffs, "src/");
    assert!(changes.is_empty());
    assert_eq!(skipped, vec![String::from("src/q.sql")]);
}

#[test]
fn pull_untested_changes_skips_diffs_with_trailing_garbage() {
    // non-diff text after the last hunk is not something the parser
    // consumes; the file is skipped instead of handed over
    let patch_text =
        String::from("--- a/src/lib.rs\n+++ b/src/lib.rs\n@@ -1 +1 @@\n+x\nzzz\n");
    let grouped = vec![LcovFileCoverage {
        filename: String::from("src/lib.rs"),
        percentage: None,
        lines: vec![1],
    }];
    let diffs = vec![(String::from("src/lib.rs"), patch_text)];
    let (changes, skipped) = pull_untested_changes(&grouped, &diffs, "src/");
    assert!(changes.is_empty());
    assert_eq!(skipped, vec![String::from("src/lib.rs")]);
}

#[test]
fn pull_untested_changes_accepts_missing_newline_marker() {
    let patch_text = String::from(
        "--- a/src/lib.rs\n+++ b/src/lib.rs\n@@ -1 +1 @@\n+x\n\\ No newline at end of file\n",
    );
    let grouped = vec![LcovFileCoverage {
        filename: String::from("src/lib.rs"),
        percentage: None,
        lines: vec![1],
    }];
    let diffs = vec![(String::from("src/lib.rs"), patch_text)];
    let (changes, skipped) = pull_untested_changes(&grouped, &diffs, "src/");
    assert!(skipped.is_empty());
    assert_eq!(changes.len(), 1);
    assert_eq!(changes[0].raw_lines, vec![1]);
    assert_eq!(changes[0].hunked_lines, vec![(1, 1)]);
}

#[test]
fn pull_untested_changes_accepts_trailing_blank_lines() {
    let patch_text =
        String::from("--- a/src/lib.rs\n+++ b/src/lib.rs\n@@ -1 +1 @@\n+x\n\n\n");
    let grouped = vec![LcovFileCoverage {
        filename: String::from("src/lib.rs"),
        percentage: None,
        lines: vec![1],
    }];
    let diffs = vec![(String::from("src/lib.rs"), patch_text)];
    let (changes, skipped) = pull_untested_changes(&grouped, &diffs, "src/");
    assert!(skipped.is_empty());
    assert_eq!(changes.len(), 1);
    assert_eq!(changes[0].raw_lines, vec![1]);
}

#[test]
fn pull_untested_changes_skips_diffs_with_oversized_numbers() {
    // the hunk header carries a twenty-digit number that does not fit the
    // diff parser's integers; the file is skipped instead of handed over
    let patch_text = String::from(
        "--- a/src/lib.rs\n+++ b/src/lib.rs\n@@ -1,1 +18446744073709551616,1 @@\n+added\n",
    );
    let grouped = vec![LcovFileCoverage {
        filename: String::from("src/lib.rs"),
        percentage: None,
        lines: vec![1],
    }];
    let diffs = vec![(String::from("src/lib.rs"), patch_text)];
    let (changes, skipped) = pull_untested_changes(&grouped, &diffs, "src/");
    assert!(changes.is_empty());
    assert_eq!(skipped, vec![String::from("src/lib.rs")]);
}
