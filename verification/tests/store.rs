use meow_coverage::coverage::{make_percent, CoverageRatio};
use meow_coverage::tracking::{
    make_report_path, split_repo_name, BranchCoverageRecord, BranchCoverageRecordCollection,
    FileCoverageRecord, Team, RETENTION_SECONDS,
};
use meow_coverage::MeowCoverageError;

const DAY: i64 = 86400;

fn empty_collection() -> BranchCoverageRecordCollection {
    BranchCoverageRecordCollection { team: Team::Other, records: Vec::new() }
}

fn snapshot(timestamp: i64, percentage: i16) -> BranchCoverageRecord {
    BranchCoverageRecord { timestamp, percentage, files: None }
}

fn file_detail() -> Vec<(String, FileCoverageRecord)> {
    vec![(String::from("src/a.rs"), FileCoverageRecord { percentage: 2500, untested_lines: vec![3] })]
}

#[test]
fn retention_keeps_only_the_second_snapshot() {
    let mut col = empty_collection();
    let t0: i64 = 1000000000;
    col.add_new_record(CoverageRatio { hit: 1, found: 2 }, file_detail(), t0);
    assert_eq!(col.records.len(), 1);
    col.add_new_record(CoverageRatio { hit: 3, found: 4 }, file_detail(), t0 + 91 * DAY);
    assert_eq!(col.records.len(), 1);
    assert_eq!(col.records[0].timestamp, t0 + 91 * DAY);
    assert_eq!(col.records[0].percentage, 7500);
}

#[test]
fn detail_stays_only_on_the_newest_snapshot() {
    let mut col = empty_collection();
    let t0: i64 = 1000000000;
    col.add_new_record(CoverageRatio { hit: 1, found: 2 }, file_detail(), t0);
    col.add_new_record(CoverageRatio { hit: 3, found: 4 }, file_detail(), t0 + 100);
    assert_eq!(col.records.len(), 2);
    assert!(col.records[0].files.is_none());
    assert!(col.records[1].files.is_some());
    assert_eq!(col.records[1].timestamp, t0 + 100);
}

#[test]
fn make_percent_rounds_deterministically_and_round_trips() {
    // 57.335% in thousandths of a percent
    let bp = make_percent(57335);
    assert_eq!(bp, 5734);
    // decode back to thousandths and encode again: stable
    let again = make_percent(bp as i64 * 10);
    assert_eq!(again, bp);
    assert_eq!(make_percent(-57335), -5734);
    assert_eq!(make_percent(250000), 10000);
    assert_eq!(make_percent(-250000), -10000);
    assert_eq!(make_percent(0), 0);
}

#[test]
fn deltas_over_three_snapshots() {
    let col = BranchCoverageRecordCollection {
        team: Team::Other,
        records: vec![
            snapshot(0, 6000),
            snapshot(7 * DAY, 7000),
            snapshot(40 * DAY, 8000),
        ],
    };
    // newest minus second newest
    assert_eq!(col.last_delta(), Some(1000));
    // the 30-day window ending at t=40d holds only the newest snapshot,
    // so its raw percentage comes back
    assert_eq!(col.delta_last_30_days(), Some(8000));
    // the 90-day window holds all three: newest minus oldest
    assert_eq!(col.delta_last_90_days(), Some(2000));
    assert_eq!(col.delta_last_7_days(), Some(8000));
    assert_eq!(col.latest_timestamp(), Some(40 * DAY));
    assert_eq!(col.latest().unwrap().percentage, 8000);
}

#[test]
fn last_delta_on_small_collections() {
    assert_eq!(empty_collection().last_delta(), None);
    let one = BranchCoverageRecordCollection {
        team: Team::Other,
        records: vec![snapshot(5, 4200)],
    };
    assert_eq!(one.last_delta(), Some(4200));
    let two = BranchCoverageRecordCollection {
        team: Team::Other,
        records: vec![snapshot(5, 4200), snapshot(9, 4300)],
    };
    assert_eq!(two.last_delta(), Some(100));
}

#[test]
fn delta_windows() {
    let col = BranchCoverageRecordCollection {
        team: Team::Other,
        records: vec![snapshot(100, 1000), snapshot(200, 3000), snapshot(300, 2000)],
    };
    assert_eq!(col.delta(0, 400), Some(1000));
    assert_eq!(col.delta(150, 400), Some(-1000));
    assert_eq!(col.delta(150, 250), Some(3000));
    assert_eq!(col.delta(400, 500), None);
}

#[test]
fn remove_old_records_evicts_by_cutoff() {
    let mut col = BranchCoverageRecordCollection {
        team: Team::Other,
        records: vec![snapshot(0, 1000), snapshot(RETENTION_SECONDS + 5, 2000)],
    };
    col.remove_old_records(RETENTION_SECONDS + 10);
    assert_eq!(col.records.len(), 1);
    assert_eq!(col.records[0].percentage, 2000);
}

#[test]
fn tied_timestamps_resolve_deterministically() {
    let col = BranchCoverageRecordCollection {
        team: Team::Other,
        records: vec![snapshot(100, 1000), snapshot(100, 3000)],
    };
    // among equal timestamps the snapshot stored first is the newest
    assert_eq!(col.latest().unwrap().percentage, 1000);
    assert_eq!(col.latest_timestamp(), Some(100));
    assert_eq!(col.last_delta(), Some(-2000));
}

#[test]
fn at_most_one_snapshot_keeps_detail_even_on_tied_timestamps() {
    let mut col = empty_collection();
    let t0: i64 = 1000000000;
    col.add_new_record(CoverageRatio { hit: 1, found: 2 }, file_detail(), t0);
    col.add_new_record(CoverageRatio { hit: 3, found: 4 }, file_detail(), t0);
    // both snapshots carry the maximal timestamp; only the one `latest`
    // returns (first stored among equals) keeps its detail
    assert_eq!(col.records.len(), 2);
    assert!(col.records[0].files.is_some());
    assert!(col.records[1].files.is_none());
    assert_eq!(col.latest().unwrap().timestamp, t0);
    assert!(col.latest().unwrap().files.is_some());
}

#[test]
fn team_parsing_and_display() {
    assert_eq!(Team::from_str("InstantMessaging"), Ok(Team::InstantMessaging));
    assert_eq!(Team::from_str("Workflow"), Ok(Team::Workflow));
    assert_eq!(Team::from_str("Other"), Ok(Team::Other));
    assert!(Team::from_str("workflow").is_err());
    assert!(Team::from_str("").is_err());
    assert_eq!(Team::InstantMessaging.display_name(), "Instant Messaging");
    assert_eq!(Team::Security.display_name(), "Security");
    let err = Team::from_str("nope").unwrap_err();
    assert!(err.message().starts_with("Invalid Team"));
}

#[test]
fn report_paths_and_repo_names() {
    assert_eq!(make_report_path("owner", "repo", "main"), "owner/repo/main.meowcov.json");
    assert_eq!(
        split_repo_name("owner/repo").unwrap(),
        (String::from("owner"), String::from("repo"))
    );
    // the first slash splits
    assert_eq!(
        split_repo_name("a/b/c").unwrap(),
        (String::from("a"), String::from("b/c"))
    );
    assert_eq!(split_repo_name("noslash"), Err(MeowCoverageError::RepoNameMissingSlash));
}

#[test]
fn file_coverage_record_encodes_ratio() {
    let rec = FileCoverageRecord::new(CoverageRatio { hit: 1, found: 2 }, vec![4, 9]);
    assert_eq!(rec.percentage, 5000);
    assert_eq!(rec.untested_lines, vec![4, 9]);
}
