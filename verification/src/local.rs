//! Coverage of a local project: the whole-report summary shown on the
//! terminal, split into fully tested and partially tested files.

use vstd::prelude::*;
use crate::coverage::{CoverageRatio, GroupFile, LcovWrapper, group_run, lcov_records_of,
    spec_file_count, spec_hit_sum, spec_found_sum};
use crate::helpers::{spec_path_split, path_split};
use crate::ranges::{sort_dedup, lemma_sort_dedup_empty};
use crate::MeowCoverageError;

verus! {

/// File coverage of one file of a local project.
#[derive(Debug)]
pub struct LocalFileCoverage {
    /// Untested lines, ascending and duplicate-free.
    pub raw_lines: Vec<u32>,
    /// Coverage ratio of the file, if the report carried its totals.
    pub percentage: Option<CoverageRatio>,
    /// File path.
    pub path: String,
}

/// Mathematical image of one local file entry.
pub ghost struct GLocalEntry {
    pub raw_lines: Seq<u32>,
    pub percentage: Option<CoverageRatio>,
    pub path: Seq<char>,
}

impl View for LocalFileCoverage {
    type V = GLocalEntry;

    open spec fn view(&self) -> GLocalEntry {
        GLocalEntry {
            raw_lines: self.raw_lines@,
            percentage: self.percentage,
            path: self.path@,
        }
    }
}

/// Report of a whole local coverage run.
#[derive(Debug)]
pub struct LocalCoverageReport {
    /// Paths of all files with no untested line.
    pub tested_files: Vec<String>,
    /// Entries of the files with untested lines.
    pub untested_files: Vec<LocalFileCoverage>,
    /// Overall coverage ratio.
    pub percentage: CoverageRatio,
    /// Total file count.
    pub file_count: usize,
}

/// The paths of the grouped files with no untested line, prefix applied.
pub open spec fn local_tested_of(files: Seq<GroupFile>, prefix: Seq<char>) -> Seq<Seq<char>>
    decreases files.len(),
{
    if files.len() == 0 {
        Seq::empty()
    } else {
        let pre = local_tested_of(files.drop_last(), prefix);
        if files.last().lines.len() == 0 {
            pre.push(spec_path_split(files.last().name, prefix))
        } else {
            pre
        }
    }
}

/// The entries of the grouped files with untested lines, prefix applied,
/// lines sorted ascending with duplicates removed.
pub open spec fn local_untested_of(files: Seq<GroupFile>, prefix: Seq<char>) -> Seq<GLocalEntry>
    decreases files.len(),
{
    if files.len() == 0 {
        Seq::empty()
    } else {
        let pre = local_untested_of(files.drop_last(), prefix);
        if files.last().lines.len() > 0 {
            pre.push(
                GLocalEntry {
                    raw_lines: sort_dedup(files.last().lines),
                    percentage: files.last().percentage,
                    path: spec_path_split(files.last().name, prefix),
                },
            )
        } else {
            pre
        }
    }
}

/// The views of a list of paths.
pub open spec fn local_path_views(paths: Seq<String>) -> Seq<Seq<char>> {
    Seq::new(paths.len(), |i: int| paths[i]@)
}

/// The views of a list of local file entries.
pub open spec fn local_entry_views(entries: Seq<LocalFileCoverage>) -> Seq<GLocalEntry> {
    Seq::new(entries.len(), |i: int| entries[i]@)
}

/// Build the local coverage report of raw LCOV bytes: the overall ratio
/// and file count, and the grouped files split into fully tested paths
/// and entries with untested lines. Fails exactly when the report is too
/// large for the reader's line counter or some line does not parse.
pub fn local_coverage(report: &[u8], source_prefix: &str) -> (r: Result<
    LocalCoverageReport,
    MeowCoverageError,
>)
    ensures
        r is Ok <==> report@.len() < 0xffff_ffff && lcov_records_of(report@) is Some,
        r matches Ok(rep) ==> lcov_records_of(report@) matches Some(recs) && {
            &&& rep.file_count == spec_file_count(recs)
            &&& rep.percentage.hit == spec_hit_sum(recs)
            &&& rep.percentage.found == spec_found_sum(recs)
            &&& local_path_views(rep.tested_files@) == local_tested_of(
                group_run(recs).files,
                source_prefix@,
            )
            &&& local_entry_views(rep.untested_files@) == local_untested_of(
                group_run(recs).files,
                source_prefix@,
            )
        },
        r matches Err(e) ==> e is LcovParse,
{
    let lcov: LcovWrapper = match LcovWrapper::with_report(report) {
        Ok(l) => l,
        Err(e) => {
            return Err(e);
        },
    };
    let file_count: usize = lcov.file_count();
    let percentage: CoverageRatio = lcov.percentage();
    let grouped = lcov.group_data();
    let ghost files = group_run(lcov@).files;
    let mut tested_files: Vec<String> = Vec::new();
    let mut untested_files: Vec<LocalFileCoverage> = Vec::new();
    for i in 0..grouped.len()
        invariant
            grouped@.len() == files.len(),
            forall|k: int|
                0 <= k < grouped@.len() ==> crate::coverage::file_matches(
                    #[trigger] grouped@[k],
                    files[k],
                ),
            local_path_views(tested_files@) == local_tested_of(
                files.subrange(0, i as int),
                source_prefix@,
            ),
            local_entry_views(untested_files@) == local_untested_of(
                files.subrange(0, i as int),
                source_prefix@,
            ),
    {
        let cov = &grouped[i];
        let path: String = path_split(cov.filename.as_str(), source_prefix);
        proof {
            lemma_sort_dedup_empty(files[i as int].lines);
        }
        if cov.lines.len() == 0 {
            tested_files.push(path);
        } else {
            untested_files.push(
                LocalFileCoverage {
                    raw_lines: cov.lines.clone(),
                    percentage: cov.percentage,
                    path,
                },
            );
        }
        proof {
            let sub1 = files.subrange(0, i + 1 as int);
            assert(sub1.drop_last() =~= files.subrange(0, i as int));
            assert(sub1.last() == files[i as int]);
            assert(local_path_views(tested_files@) =~= local_tested_of(sub1, source_prefix@));
            assert(local_entry_views(untested_files@) =~= local_untested_of(sub1, source_prefix@));
        }
    }
    proof {
        assert(files.subrange(0, files.len() as int) =~= files);
    }
    Ok(LocalCoverageReport { tested_files, untested_files, percentage, file_count })
}

/// Number of digits of the number in decimal notation, zero for zero.
pub open spec fn spec_digit_count(v: int) -> int
    decreases v,
{
    if v <= 0 {
        0
    } else {
        1 + spec_digit_count(v / 10)
    }
}

/// A number is at least as large as its digit count.
proof fn lemma_digit_count_le_self(v: int)
    requires
        v >= 0,
    ensures
        0 <= spec_digit_count(v) <= v,
    decreases v,
{
    if v > 0 {
        lemma_digit_count_le_self(v / 10);
    }
}

/// Count the digits of the number's decimal notation; zero has none.
pub fn digit_count(line: u32) -> (digits: u32)
    ensures
        digits == spec_digit_count(line as int),
{
    let ghost orig = line as int;
    let mut line: u32 = line;
    let mut digits: u32 = 0;
    proof {
        lemma_digit_count_le_self(orig);
    }
    while line != 0
        invariant
            0 <= line as int <= orig,
            spec_digit_count(line as int) + digits == spec_digit_count(orig),
            spec_digit_count(orig) <= orig <= u32::MAX,
        decreases line,
    {
        proof {
            lemma_digit_count_le_self(line as int / 10);
        }
        digits += 1;
        line /= 10;
    }
    digits
}

} // verus!
