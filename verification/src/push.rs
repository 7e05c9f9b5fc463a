//! Coverage of a single commit, file by file: splitting a grouped report
//! into fully tested files and files with untested lines, and turning the
//! latter into the records the snapshot store keeps.

use vstd::prelude::*;
use crate::coverage::{CoverageRatio, LcovFileCoverage, ratio_basis_points};
use crate::digest::{path_sha, path_sha_chars};
use crate::helpers::{spec_path_split, path_split};
use crate::tracking::FileCoverageRecord;

verus! {

/// Per-file coverage of a commit: the file's link identifier, its
/// uncovered lines, its coverage ratio, and its path.
#[derive(Debug)]
pub struct PushFileCoverageWrapper {
    /// Identifier carried by the file's diff links.
    pub sha: String,
    /// Uncovered lines, ascending.
    pub raw_lines: Vec<u32>,
    /// Coverage ratio of the file, if the report carried its totals.
    pub percentage: Option<CoverageRatio>,
    /// File path.
    pub realpath: String,
}

/// Mathematical image of one commit file entry.
pub ghost struct GPushEntry {
    pub sha: Seq<char>,
    pub raw_lines: Seq<u32>,
    pub percentage: Option<CoverageRatio>,
    pub realpath: Seq<char>,
}

impl View for PushFileCoverageWrapper {
    type V = GPushEntry;

    open spec fn view(&self) -> GPushEntry {
        GPushEntry {
            sha: self.sha@,
            raw_lines: self.raw_lines@,
            percentage: self.percentage,
            realpath: self.realpath@,
        }
    }
}

/// The paths of the fully tested files of a grouped report (those with no
/// uncovered line), with the source prefix applied.
pub open spec fn tested_paths_of(grouped: Seq<LcovFileCoverage>, prefix: Seq<char>) -> Seq<
    Seq<char>,
>
    decreases grouped.len(),
{
    if grouped.len() == 0 {
        Seq::empty()
    } else {
        let pre = tested_paths_of(grouped.drop_last(), prefix);
        if grouped.last().lines@.len() == 0 {
            pre.push(spec_path_split(grouped.last().filename@, prefix))
        } else {
            pre
        }
    }
}

/// The commit entry of one grouped file with uncovered lines.
pub open spec fn push_entry_of(cov: LcovFileCoverage, prefix: Seq<char>) -> GPushEntry {
    let path = spec_path_split(cov.filename@, prefix);
    GPushEntry {
        sha: path_sha_chars(path),
        raw_lines: cov.lines@,
        percentage: cov.percentage,
        realpath: path,
    }
}

/// The commit entries of a grouped report: one per file with uncovered
/// lines, in report order.
pub open spec fn push_entries_of(grouped: Seq<LcovFileCoverage>, prefix: Seq<char>) -> Seq<
    GPushEntry,
>
    decreases grouped.len(),
{
    if grouped.len() == 0 {
        Seq::empty()
    } else {
        let pre = push_entries_of(grouped.drop_last(), prefix);
        if grouped.last().lines@.len() > 0 {
            pre.push(push_entry_of(grouped.last(), prefix))
        } else {
            pre
        }
    }
}

/// The views of a list of commit entries.
pub open spec fn push_entry_views(entries: Seq<PushFileCoverageWrapper>) -> Seq<GPushEntry> {
    Seq::new(entries.len(), |i: int| entries[i]@)
}

/// The views of a list of paths.
pub open spec fn path_views(paths: Seq<String>) -> Seq<Seq<char>> {
    Seq::new(paths.len(), |i: int| paths[i]@)
}

/// Split a grouped report for a commit: the paths of the fully tested
/// files, and one entry per file with uncovered lines, carrying its
/// path's link identifier, its lines and its ratio.
pub fn push_untested_changes(grouped: &Vec<LcovFileCoverage>, source_prefix: &str) -> (r: (
    Vec<String>,
    Vec<PushFileCoverageWrapper>,
))
    ensures
        path_views(r.0@) == tested_paths_of(grouped@, source_prefix@),
        push_entry_views(r.1@) == push_entries_of(grouped@, source_prefix@),
{
    let mut tested: Vec<String> = Vec::new();
    let mut untested: Vec<PushFileCoverageWrapper> = Vec::new();
    for i in 0..grouped.len()
        invariant
            path_views(tested@) == tested_paths_of(grouped@.subrange(0, i as int), source_prefix@),
            push_entry_views(untested@) == push_entries_of(
                grouped@.subrange(0, i as int),
                source_prefix@,
            ),
    {
        let cov = &grouped[i];
        let path: String = path_split(cov.filename.as_str(), source_prefix);
        if cov.lines.len() == 0 {
            tested.push(path);
        } else {
            let sha: String = path_sha(path.as_str());
            let raw_lines: Vec<u32> = cov.lines.clone();
            untested.push(
                PushFileCoverageWrapper {
                    sha,
                    raw_lines,
                    percentage: cov.percentage,
                    realpath: path,
                },
            );
        }
        proof {
            let sub1 = grouped@.subrange(0, i + 1 as int);
            assert(sub1.drop_last() =~= grouped@.subrange(0, i as int));
            assert(sub1.last() == grouped@[i as int]);
            assert(path_views(tested@) =~= tested_paths_of(sub1, source_prefix@));
            assert(push_entry_views(untested@) =~= push_entries_of(sub1, source_prefix@));
        }
    }
    proof {
        assert(grouped@.subrange(0, grouped@.len() as int) =~= grouped@);
    }
    (tested, untested)
}

/// The basis points a commit entry's ratio is stored as; a file whose
/// totals never arrived is stored as zero.
pub open spec fn entry_basis_points(percentage: Option<CoverageRatio>) -> int {
    match percentage {
        Some(ratio) => ratio_basis_points(ratio),
        None => 0,
    }
}

/// Build the per-file records a push run stores: one per file with
/// untested lines, carrying its basis points and lines, then one fully
/// covered record per tested file.
pub fn build_file_records(
    untested: &Vec<PushFileCoverageWrapper>,
    tested: &Vec<String>,
) -> (r: Vec<(String, FileCoverageRecord)>)
    requires
        forall|i: int|
            0 <= i < untested@.len() ==> ((#[trigger] untested@[i]).percentage matches Some(c)
                ==> c.hit <= u128::MAX / 20000),
    ensures
        r@.len() == untested@.len() + tested@.len(),
        forall|i: int|
            0 <= i < untested@.len() ==> {
                &&& (#[trigger] r@[i]).0@ == untested@[i].realpath@
                &&& r@[i].1.untested_lines@ == untested@[i].raw_lines@
                &&& r@[i].1.percentage == entry_basis_points(untested@[i].percentage)
            },
        forall|j: int|
            0 <= j < tested@.len() ==> {
                &&& (#[trigger] r@[untested@.len() + j]).0@ == tested@[j]@
                &&& r@[untested@.len() + j].1.untested_lines@.len() == 0
                &&& r@[untested@.len() + j].1.percentage == 10000
            },
{
    let mut r: Vec<(String, FileCoverageRecord)> = Vec::new();
    for i in 0..untested.len()
        invariant
            forall|k: int|
                0 <= k < untested@.len() ==> ((#[trigger] untested@[k]).percentage matches Some(c)
                    ==> c.hit <= u128::MAX / 20000),
            r@.len() == i,
            forall|k: int|
                0 <= k < i ==> {
                    &&& (#[trigger] r@[k]).0@ == untested@[k].realpath@
                    &&& r@[k].1.untested_lines@ == untested@[k].raw_lines@
                    &&& r@[k].1.percentage == entry_basis_points(untested@[k].percentage)
                },
    {
        let w = &untested[i];
        let bp: i16 = match w.percentage {
            Some(ratio) => ratio.basis_points(),
            None => 0,
        };
        r.push(
            (
                w.realpath.clone(),
                FileCoverageRecord { percentage: bp, untested_lines: w.raw_lines.clone() },
            ),
        );
    }
    let base: usize = r.len();
    for j in 0..tested.len()
        invariant
            base == untested@.len(),
            r@.len() == base + j,
            forall|k: int|
                0 <= k < base ==> {
                    &&& (#[trigger] r@[k]).0@ == untested@[k].realpath@
                    &&& r@[k].1.untested_lines@ == untested@[k].raw_lines@
                    &&& r@[k].1.percentage == entry_basis_points(untested@[k].percentage)
                },
            forall|k: int|
                0 <= k < j ==> {
                    &&& (#[trigger] r@[base + k]).0@ == tested@[k]@
                    &&& r@[base + k].1.untested_lines@.len() == 0
                    &&& r@[base + k].1.percentage == 10000
                },
    {
        r.push(
            (tested[j].clone(), FileCoverageRecord { percentage: 10000, untested_lines: Vec::new() }),
        );
    }
    r
}

} // verus!
