use meow_coverage::coverage::CoverageRatio;
use sha2::Digest;
use meow_coverage::html::{build_pull_summary, build_push_summary, make_commit_link,
    make_pull_link};
use meow_coverage::local::{digit_count, local_coverage};
use meow_coverage::pull::PullFileCoverageWrapper;
use meow_coverage::push::{build_file_records, push_untested_changes, PushFileCoverageWrapper};
use meow_coverage::text::{i16_to_string, percent_string, u64_to_string};
use meow_coverage::tracking::{BranchCoverageRecord, BranchCoverageRecordCollection,
    FileCoverageRecord, Team};
use meow_coverage::visualisation::{build_coverage_report, build_lines, build_readme,
    ReadmeCoverageEntry, TrackedBranch};
use meow_coverage::coverage::LcovFileCoverage;

#[test]
fn number_rendering() {
    assert_eq!(u64_to_string(0), "0");
    assert_eq!(u64_to_string(57), "57");
    assert_eq!(u64_to_string(1234567890), "1234567890");
    assert_eq!(i16_to_string(-123), "-123");
    assert_eq!(i16_to_string(0), "0");
    assert_eq!(percent_string(5734), "57.34");
    assert_eq!(percent_string(-50), "-0.50");
    assert_eq!(percent_string(0), "0.00");
    assert_eq!(percent_string(10000), "100.00");
    assert_eq!(digit_count(0), 0);
    assert_eq!(digit_count(7), 1);
    assert_eq!(digit_count(4294967295), 10);
}

#[test]
fn pull_and_commit_links() {
    assert_eq!(
        make_pull_link("o", "r", 5, "abc", None),
        "https://github.com/o/r/pull/5/files#diff-abc"
    );
    assert_eq!(
        make_pull_link("o", "r", 5, "abc", Some((3, None))),
        "https://github.com/o/r/pull/5/files#diff-abcR3"
    );
    assert_eq!(
        make_pull_link("o", "r", 5, "abc", Some((3, Some(7)))),
        "https://github.com/o/r/pull/5/files#diff-abcR3-R7"
    );
    assert_eq!(
        make_commit_link("o", "r", "deadbeef", "abc", Some((12, Some(14)))),
        "https://github.com/o/r/commit/deadbeef#diff-abcR12-R14"
    );
}

#[test]
fn push_summary_builds_the_expected_table() {
    let report = vec![PushFileCoverageWrapper {
        sha: String::from("s"),
        raw_lines: vec![1, 2],
        percentage: Some(CoverageRatio { hit: 1, found: 3 }),
        realpath: String::from("p"),
    }];
    let html = build_push_summary("o", "r", "c", &report);
    let expected = String::from("<details><summary>\u{1f408}\u{200d}\u{2b1b} Untested Lines \u{1f408}\u{200d}\u{2b1b}</summary><table><tbody><tr><th>File Path</th><th>Lines</th></tr>")
        + "<tr><td><a href=\"https://github.com/o/r/commit/c#diff-s\">p</a></td><td>"
        + "<a href=\"https://github.com/o/r/commit/c#diff-sR1-R2\">1-2</a>"
        + "</td></tr></tbody></table></details>";
    assert_eq!(html, expected);
}

#[test]
fn pull_summary_builds_the_expected_table() {
    let report = vec![PullFileCoverageWrapper {
        sha: String::from("s"),
        hunked_lines: vec![(4, 9)],
        raw_lines: vec![4, 9],
        realpath: String::from("p"),
    }];
    let html = build_pull_summary("o", "r", 7, &report);
    let expected = String::from("<details><summary>\u{1f408}\u{200d}\u{2b1b} Untested Changes \u{1f408}\u{200d}\u{2b1b}</summary><table><tbody><tr><th>File Path</th><th>Lines</th></tr>")
        + "<tr><td><a href=\"https://github.com/o/r/pull/7/files#diff-s\">p</a></td><td>"
        + "<a href=\"https://github.com/o/r/pull/7/files#diff-sR4\">4</a>, "
        + "<a href=\"https://github.com/o/r/pull/7/files#diff-sR9\">9</a>"
        + "</td></tr></tbody></table></details>";
    assert_eq!(html, expected);
}

#[test]
fn push_untested_changes_splits_tested_and_untested() {
    let grouped = vec![
        LcovFileCoverage {
            filename: String::from("src/full.rs"),
            percentage: Some(CoverageRatio { hit: 3, found: 3 }),
            lines: vec![],
        },
        LcovFileCoverage {
            filename: String::from("src/partial.rs"),
            percentage: Some(CoverageRatio { hit: 1, found: 2 }),
            lines: vec![8],
        },
    ];
    let (tested, untested) = push_untested_changes(&grouped, "src/");
    assert_eq!(tested, vec![String::from("src/full.rs")]);
    assert_eq!(untested.len(), 1);
    assert_eq!(untested[0].realpath, "src/partial.rs");
    assert_eq!(untested[0].raw_lines, vec![8]);
    assert_eq!(
        untested[0].sha,
        hex::encode(sha2::Sha256::digest("src/partial.rs"))
    );
}

#[test]
fn file_records_store_untested_then_tested() {
    let untested = vec![PushFileCoverageWrapper {
        sha: String::from("s"),
        raw_lines: vec![2],
        percentage: Some(CoverageRatio { hit: 1, found: 2 }),
        realpath: String::from("src/partial.rs"),
    }];
    let tested = vec![String::from("src/full.rs")];
    let records = build_file_records(&untested, &tested);
    assert_eq!(records.len(), 2);
    assert_eq!(records[0].0, "src/partial.rs");
    assert_eq!(records[0].1, FileCoverageRecord { percentage: 5000, untested_lines: vec![2] });
    assert_eq!(records[1].0, "src/full.rs");
    assert_eq!(records[1].1, FileCoverageRecord { percentage: 10000, untested_lines: vec![] });
}

#[test]
fn local_coverage_summarises_a_report() {
    let text = b"SF:/work/src/a.rs\nDA:1,1\nDA:2,0\nLF:2\nLH:1\nend_of_record\nSF:/work/src/b.rs\nDA:1,4\nLF:1\nLH:1\nend_of_record\n";
    let report = local_coverage(text, "src/").expect("report parses");
    assert_eq!(report.file_count, 2);
    assert_eq!(report.percentage, CoverageRatio { hit: 2, found: 3 });
    assert_eq!(report.tested_files, vec![String::from("src/b.rs")]);
    assert_eq!(report.untested_files.len(), 1);
    assert_eq!(report.untested_files[0].path, "src/a.rs");
    assert_eq!(report.untested_files[0].raw_lines, vec![2]);
    assert_eq!(
        report.untested_files[0].percentage,
        Some(CoverageRatio { hit: 1, found: 2 })
    );
    assert!(local_coverage(b"DA:zzz\n", "src/").is_err());
}

#[test]
fn build_lines_links_coalesced_ranges() {
    let text = build_lines("o", "r", "main", "f.rs", &vec![3, 4, 7]);
    assert_eq!(
        text,
        "[3-4](https://github.com/o/r/blob/main/f.rs#L3-L4), [7](https://github.com/o/r/blob/main/f.rs#L7)"
    );
}

fn one_snapshot_collection() -> BranchCoverageRecordCollection {
    BranchCoverageRecordCollection {
        team: Team::Other,
        records: vec![BranchCoverageRecord {
            timestamp: 0,
            percentage: 5000,
            files: Some(vec![(
                String::from("f.rs"),
                FileCoverageRecord { percentage: 2500, untested_lines: vec![3, 4, 7] },
            )]),
        }],
    }
}

#[test]
fn coverage_report_renders_the_newest_snapshot() {
    let col = one_snapshot_collection();
    let report = build_coverage_report("o", "r", "main", &col).expect("report builds");
    let date = time::OffsetDateTime::from_unix_timestamp(0).unwrap().to_string();
    let expected = format!(
        "# [o/r](https://github.com/o/r/)\n\n### Branch: `main`\n### Responsible Team: Other\n\n#### Last Updated: {date}\n#### Coverage: 50.00%\n#### Last Delta: 5000%\n#### 7 Day Delta: 5000%\n#### 30 Day Delta: 5000%\n#### 90 Day Delta: 5000%\n\n| File Name | Coverage  | Untested Lines  |\n|-----------|-----------|-----------------|\n| [f.rs](https://github.com/o/r/blob/main/f.rs) | 25.00% | [3-4](https://github.com/o/r/blob/main/f.rs#L3-L4), [7](https://github.com/o/r/blob/main/f.rs#L7) |\n",
        date = date
    );
    assert_eq!(report, expected);
}

#[test]
fn coverage_report_of_an_empty_collection_is_none() {
    let col = BranchCoverageRecordCollection { team: Team::Other, records: Vec::new() };
    assert!(build_coverage_report("o", "r", "main", &col).is_none());
}

#[test]
fn readme_entry_from_collection() {
    let col = one_snapshot_collection();
    let entry = ReadmeCoverageEntry::from_collection("o", "r", "main", &col).expect("entry");
    assert_eq!(entry.owner, "o");
    assert_eq!(entry.repo, "r");
    assert_eq!(entry.branch, "main");
    assert_eq!(entry.coverage, 5000);
    assert_eq!(entry.last_delta, 5000);
    assert_eq!(entry.delta_7_days, 5000);
    assert_eq!(entry.delta_30_days, 5000);
    assert_eq!(entry.delta_90_days, 5000);
    let empty = BranchCoverageRecordCollection { team: Team::Other, records: Vec::new() };
    assert!(ReadmeCoverageEntry::from_collection("o", "r", "main", &empty).is_none());
}

#[test]
fn readme_groups_branches_by_team() {
    let branch_list = vec![TrackedBranch {
        owner: String::from("o"),
        repo: String::from("r"),
        branch: String::from("main"),
        collection: one_snapshot_collection(),
    }];
    let readme = build_readme(&branch_list, "cov-owner", "cov-repo");
    assert!(readme.starts_with("# Coverage Reports\n"));
    assert!(readme.contains("Tracking coverage of 1 branches of repositories\n"));
    // the one branch sits in the Other section
    assert!(readme.contains("## Other\n\nTracking coverage of 1 branches"));
    assert!(readme.contains("## Workflow\n\nTracking coverage of 0 branches"));
    assert!(readme.contains(
        "| [o/r (main)](https://github.com/o/r/tree/main) | 50.00% | [Report](https://github.com/cov-owner/cov-repo/blob/main/reports/o/r/main.md) |"
    ));
}
