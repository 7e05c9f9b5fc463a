use meow_coverage::coverage::{CoverageRatio, CoverageRecord, LcovWrapper};
use meow_coverage::MeowCoverageError;

fn sample_records() -> Vec<CoverageRecord> {
    vec![
        CoverageRecord::SourceFile { path: String::from("src/a.rs") },
        CoverageRecord::LineData { line: 5, count: 0 },
        CoverageRecord::LineData { line: 3, count: 0 },
        CoverageRecord::LineData { line: 4, count: 7 },
        CoverageRecord::LinesFound { found: 3 },
        CoverageRecord::LinesHit { hit: 1 },
        CoverageRecord::SourceFile { path: String::from("src/b.rs") },
        CoverageRecord::LinesHit { hit: 2 },
        CoverageRecord::LinesFound { found: 0 },
    ]
}

#[test]
fn group_data_groups_per_file() {
    let wrapper = LcovWrapper::new(sample_records());
    let grouped = wrapper.group_data();
    assert_eq!(grouped.len(), 2);
    assert_eq!(grouped[0].filename, "src/a.rs");
    assert_eq!(grouped[0].percentage, Some(CoverageRatio { hit: 1, found: 3 }));
    assert_eq!(grouped[0].lines, vec![3, 5]);
    assert_eq!(grouped[1].filename, "src/b.rs");
    // zero lines found: the ratio is carried, its percentage is undefined
    assert_eq!(grouped[1].percentage, Some(CoverageRatio { hit: 2, found: 0 }));
    assert!(grouped[1].lines.is_empty());
}

#[test]
fn grouping_is_independent_of_total_order() {
    let mut swapped = sample_records();
    // swap the LinesFound/LinesHit pair of the first file
    swapped.swap(4, 5);
    let a = LcovWrapper::new(sample_records()).group_data();
    let b = LcovWrapper::new(swapped).group_data();
    assert_eq!(a.len(), b.len());
    for (x, y) in a.iter().zip(b.iter()) {
        assert_eq!(x.filename, y.filename);
        assert_eq!(x.percentage, y.percentage);
        assert_eq!(x.lines, y.lines);
    }
}

#[test]
fn group_data_deduplicates_repeated_untested_lines() {
    let records = vec![
        CoverageRecord::SourceFile { path: String::from("src/a.rs") },
        CoverageRecord::LineData { line: 7, count: 0 },
        CoverageRecord::LineData { line: 3, count: 0 },
        CoverageRecord::LineData { line: 7, count: 0 },
        CoverageRecord::LineData { line: 3, count: 0 },
    ];
    let grouped = LcovWrapper::new(records).group_data();
    assert_eq!(grouped.len(), 1);
    assert_eq!(grouped[0].lines, vec![3, 7]);
}

#[test]
fn file_count_counts_source_files() {
    assert_eq!(LcovWrapper::new(sample_records()).file_count(), 2);
    assert_eq!(LcovWrapper::new(Vec::new()).file_count(), 0);
}

#[test]
fn percentage_sums_all_totals() {
    let ratio = LcovWrapper::new(sample_records()).percentage();
    assert_eq!(ratio, CoverageRatio { hit: 3, found: 3 });
}

#[test]
fn percentage_of_empty_report_is_undefined() {
    let ratio = LcovWrapper::new(Vec::new()).percentage();
    assert_eq!(ratio, CoverageRatio { hit: 0, found: 0 });
    assert_eq!(ratio.basis_points(), 0);
}

#[test]
fn with_report_parses_lcov_text() {
    let text = b"TN:\nSF:src/a.rs\nDA:5,0\nDA:3,0\nDA:4,7\nLF:3\nLH:1\nend_of_record\n";
    let wrapper = LcovWrapper::with_report(text).expect("report parses");
    let grouped = wrapper.group_data();
    assert_eq!(grouped.len(), 1);
    assert_eq!(grouped[0].filename, "src/a.rs");
    assert_eq!(grouped[0].percentage, Some(CoverageRatio { hit: 1, found: 3 }));
    assert_eq!(grouped[0].lines, vec![3, 5]);
    let ratio = wrapper.percentage();
    assert_eq!(ratio, CoverageRatio { hit: 1, found: 3 });
    assert_eq!(wrapper.file_count(), 1);
}

#[test]
fn with_report_rejects_malformed_text() {
    let text = b"SF:src/a.rs\nDA:not-a-number\nend_of_record\n";
    match LcovWrapper::with_report(text) {
        Err(MeowCoverageError::LcovParse(_)) => {},
        other => panic!("expected a parse failure, got {:?}", other.map(|_| ())),
    }
}

#[test]
fn ratio_basis_points_rounds_to_nearest() {
    assert_eq!(CoverageRatio { hit: 1, found: 3 }.basis_points(), 3333);
    assert_eq!(CoverageRatio { hit: 2, found: 3 }.basis_points(), 6667);
    assert_eq!(CoverageRatio { hit: 1, found: 1 }.basis_points(), 10000);
    assert_eq!(CoverageRatio { hit: 0, found: 5 }.basis_points(), 0);
    // undefined ratios encode by policy: nothing hit is 0, anything else 100%
    assert_eq!(CoverageRatio { hit: 0, found: 0 }.basis_points(), 0);
    assert_eq!(CoverageRatio { hit: 3, found: 0 }.basis_points(), 10000);
}
