use meow_coverage::helpers::{DiffHunk, DiffLine};
use meow_coverage::ranges::{coalesce_by_hunk, gather_lines, sort_lines};

#[test]
fn test_gather_lines() {
    assert_eq!(gather_lines(&vec![0, 1, 2, 3, 5, 6, 8, 10]), vec![(0, 3), (5, 6), (8, 8), (10, 10)]);
    assert_eq!(gather_lines(&vec![3, 1, 4, 5, 6, 8, 10]), vec![(1, 1), (3, 6), (8, 8), (10, 10)]);
    assert_eq!(gather_lines(&vec![]), vec![]);
    assert_eq!(gather_lines(&vec![0, 0, 1, 0]), vec![(0, 1)]);
}

#[test]
fn gather_lines_is_idempotent_on_flattened_output() {
    let input: Vec<u32> = vec![3, 1, 4, 5, 6, 8, 10, 10, 1];
    let first = gather_lines(&input);
    let mut flattened: Vec<u32> = Vec::new();
    for &(start, end) in &first {
        for v in start..=end {
            flattened.push(v);
        }
    }
    assert_eq!(gather_lines(&flattened), first);
}

#[test]
fn gather_lines_covers_exactly_the_input_values() {
    let input: Vec<u32> = vec![7, 2, 2, 9, 8, 0];
    let ranges = gather_lines(&input);
    let mut covered: Vec<u32> = Vec::new();
    for &(start, end) in &ranges {
        for v in start..=end {
            covered.push(v);
        }
    }
    let mut expected = input.clone();
    expected.sort();
    expected.dedup();
    assert_eq!(covered, expected);
}

#[test]
fn sort_lines_sorts_and_keeps_duplicates() {
    assert_eq!(sort_lines(&vec![5, 1, 5, 0, 2]), vec![0, 1, 2, 5, 5]);
}

fn hunk(start: u64, count: u64) -> DiffHunk {
    let mut lines = Vec::new();
    for _ in 0..count {
        lines.push(DiffLine::Added);
    }
    DiffHunk { new_start: start, new_count: count, lines }
}

#[test]
fn coalesce_by_hunk_merges_far_apart_lines_of_one_hunk() {
    // numeric adjacency plays no part: lines 40 apart share a hunk
    let hunks = vec![hunk(10, 60)];
    assert_eq!(coalesce_by_hunk(&hunks, &vec![12, 52]), vec![(12, 52)]);
}

#[test]
fn coalesce_by_hunk_splits_lines_of_different_hunks() {
    let hunks = vec![hunk(1, 5), hunk(100, 5)];
    assert_eq!(coalesce_by_hunk(&hunks, &vec![2, 3, 101]), vec![(2, 3), (101, 101)]);
}

#[test]
fn coalesce_by_hunk_on_empty_input() {
    let hunks = vec![hunk(1, 5)];
    assert_eq!(coalesce_by_hunk(&hunks, &vec![]), vec![]);
}
