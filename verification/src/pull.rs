//! Coverage of the lines a pull request changed: attributing a file's
//! uncovered lines to its diff and coalescing them for review comments.

use vstd::prelude::*;
use vstd::string::StringExecFns;
use crate::coverage::LcovFileCoverage;
use crate::digest::{path_sha, path_sha_chars};
use crate::helpers::{DiffHunk, line_changed_in_hunk, parse_patch_hunks, patch_hunks_of,
    spec_line_changed_in_hunk, spec_path_split, path_split, ends_with_newline,
    diff_parseable, diff_text_parseable, str_chars};
use crate::ranges::{coalesce_by_hunk, hunk_runs};
use crate::text::str_eq;

verus! {

/// Per-file coverage of a pull request: the file's link identifier, its
/// uncovered lines that the diff added, both raw and coalesced by hunk
/// membership, and its path.
#[derive(Debug)]
pub struct PullFileCoverageWrapper {
    /// Identifier carried by the file's diff links.
    pub sha: String,
    /// Lines coalesced into ranges by hunk membership; a code-hosting
    /// review API takes one contiguous hunk reference per comment.
    pub hunked_lines: Vec<(u32, u32)>,
    /// The attributed uncovered lines, ascending.
    pub raw_lines: Vec<u32>,
    /// File path.
    pub realpath: String,
}

/// Mathematical image of one pull-request file entry.
pub ghost struct GPullEntry {
    pub sha: Seq<char>,
    pub hunked_lines: Seq<(u32, u32)>,
    pub raw_lines: Seq<u32>,
    pub realpath: Seq<char>,
}

impl View for PullFileCoverageWrapper {
    type V = GPullEntry;

    open spec fn view(&self) -> GPullEntry {
        GPullEntry {
            sha: self.sha@,
            hunked_lines: self.hunked_lines@,
            raw_lines: self.raw_lines@,
            realpath: self.realpath@,
        }
    }
}

/// The diff text stored under the first matching file path, if any.
pub open spec fn diff_lookup(diffs: Seq<(String, String)>, path: Seq<char>) -> Option<Seq<char>>
    decreases diffs.len(),
{
    if diffs.len() == 0 {
        None
    } else if diffs.first().0@ == path {
        Some(diffs.first().1@)
    } else {
        diff_lookup(diffs.drop_first(), path)
    }
}

/// A diff text with a trailing newline guaranteed.
pub open spec fn with_newline(s: Seq<char>) -> Seq<char> {
    if s.len() > 0 && s.last() == '\n' {
        s
    } else {
        s + "\n"@
    }
}

/// Whether some hunk of the diff added the line.
pub open spec fn attr_pred(hunks: Seq<DiffHunk>) -> spec_fn(u32) -> bool {
    |l: u32|
        exists|h: int| 0 <= h < hunks.len() && spec_line_changed_in_hunk(#[trigger] hunks[h], l as u64)
}

/// The uncovered lines that the diff added.
pub open spec fn attributed_lines(lines: Seq<u32>, hunks: Seq<DiffHunk>) -> Seq<u32> {
    lines.filter(attr_pred(hunks))
}

/// A stored diff text the run cannot use: it is outside the shape the
/// parser consumes in full, or the parser rejects it.
pub open spec fn diff_unparsable(text: Seq<char>) -> bool {
    ||| !diff_parseable(with_newline(text))
    ||| patch_hunks_of(with_newline(text)) is None
}

/// The pull-request entry of one grouped file: present exactly when a
/// parsable diff is on file for its path and at least one of the file's
/// uncovered lines was added by it.
pub open spec fn pull_entry_of(
    cov: LcovFileCoverage,
    diffs: Seq<(String, String)>,
    prefix: Seq<char>,
) -> Option<GPullEntry> {
    let path = spec_path_split(cov.filename@, prefix);
    match diff_lookup(diffs, path) {
        None => None,
        Some(text) => {
            if !diff_parseable(with_newline(text)) {
                None
            } else {
                match patch_hunks_of(with_newline(text)) {
                    None => None,
                    Some(hunks) => {
                        let raw = attributed_lines(cov.lines@, hunks);
                        if raw.len() == 0 {
                            None
                        } else {
                            Some(
                                GPullEntry {
                                    sha: path_sha_chars(path),
                                    hunked_lines: hunk_runs(hunks, raw),
                                    raw_lines: raw,
                                    realpath: path,
                                },
                            )
                        }
                    },
                }
            }
        },
    }
}

/// The paths of the grouped files whose diff was on record but could not
/// be parsed, in report order; the run skips these files and goes on.
pub open spec fn pull_skipped_of(
    grouped: Seq<LcovFileCoverage>,
    diffs: Seq<(String, String)>,
    prefix: Seq<char>,
) -> Seq<Seq<char>>
    decreases grouped.len(),
{
    if grouped.len() == 0 {
        Seq::empty()
    } else {
        let pre = pull_skipped_of(grouped.drop_last(), diffs, prefix);
        let path = spec_path_split(grouped.last().filename@, prefix);
        match diff_lookup(diffs, path) {
            Some(text) => if diff_unparsable(text) {
                pre.push(path)
            } else {
                pre
            },
            None => pre,
        }
    }
}

/// The views of a list of skipped paths.
pub open spec fn pull_skipped_views(paths: Seq<String>) -> Seq<Seq<char>> {
    Seq::new(paths.len(), |i: int| paths[i]@)
}

/// The pull-request entries of a grouped report, in report order.
pub open spec fn pull_entries_of(
    grouped: Seq<LcovFileCoverage>,
    diffs: Seq<(String, String)>,
    prefix: Seq<char>,
) -> Seq<GPullEntry>
    decreases grouped.len(),
{
    if grouped.len() == 0 {
        Seq::empty()
    } else {
        let pre = pull_entries_of(grouped.drop_last(), diffs, prefix);
        match pull_entry_of(grouped.last(), diffs, prefix) {
            Some(g) => pre.push(g),
            None => pre,
        }
    }
}

/// The views of a list of pull-request entries.
pub open spec fn pull_entry_views(entries: Seq<PullFileCoverageWrapper>) -> Seq<GPullEntry> {
    Seq::new(entries.len(), |i: int| entries[i]@)
}

/// Find the diff text stored under a file path, if any.
fn lookup_diff<'a>(diffs: &'a Vec<(String, String)>, path: &str) -> (r: Option<&'a String>)
    ensures
        r is Some <==> diff_lookup(diffs@, path@) is Some,
        r matches Some(text) ==> diff_lookup(diffs@, path@) matches Some(t) && text@ == t,
{
    let n: usize = diffs.len();
    proof {
        assert(diffs@.skip(0) =~= diffs@);
    }
    for i in 0..n
        invariant
            n == diffs@.len(),
            diff_lookup(diffs@.skip(i as int), path@) == diff_lookup(diffs@, path@),
    {
        let ghost tail = diffs@.skip(i as int);
        proof {
            assert(tail.first() == diffs@[i as int]);
            assert(tail.drop_first() =~= diffs@.skip(i + 1 as int));
        }
        if str_eq(diffs[i].0.as_str(), path) {
            return Some(&diffs[i].1);
        }
    }
    proof {
        assert(diffs@.skip(n as int) =~= Seq::<(String, String)>::empty());
    }
    None
}

/// Keep the uncovered lines that some hunk of the diff added.
fn filter_attributed(lines: &Vec<u32>, hunks: &Vec<DiffHunk>) -> (r: Vec<u32>)
    ensures
        r@ == attributed_lines(lines@, hunks@),
{
    let ghost pred = attr_pred(hunks@);
    let mut r: Vec<u32> = Vec::new();
    proof {
        reveal(Seq::filter);
        assert(lines@.subrange(0, 0).filter(pred) =~= Seq::<u32>::empty());
    }
    for i in 0..lines.len()
        invariant
            pred == attr_pred(hunks@),
            r@ == lines@.subrange(0, i as int).filter(pred),
    {
        let ghost fpre = lines@.subrange(0, i as int).filter(pred);
        let line: u32 = lines[i];
        let mut hit: bool = false;
        for h in 0..hunks.len()
            invariant
                hit == exists|k: int|
                    0 <= k < h && spec_line_changed_in_hunk(#[trigger] hunks@[k], line as u64),
        {
            if !hit && line_changed_in_hunk(&hunks[h], line as u64) {
                hit = true;
            }
        }
        if hit {
            r.push(line);
        }
        proof {
            reveal(Seq::filter);
            assert(hit == pred(line));
            let sub1 = lines@.subrange(0, i + 1 as int);
            assert(sub1.drop_last() =~= lines@.subrange(0, i as int));
            assert(sub1.last() == lines@[i as int]);
        }
    }
    proof {
        assert(lines@.subrange(0, lines@.len() as int) =~= lines@);
    }
    r
}

/// Build the pull-request entries of a grouped report: for each file with
/// a parsable diff on record, the uncovered lines the diff added, raw and
/// coalesced by hunk membership, with the path's link identifier. Files
/// without a diff or with no attributed line are left out; a file whose
/// diff cannot be parsed is skipped, its path returned so the caller can
/// log it, and the run goes on.
pub fn pull_untested_changes(
    grouped: &Vec<LcovFileCoverage>,
    diffs: &Vec<(String, String)>,
    source_prefix: &str,
) -> (r: (Vec<PullFileCoverageWrapper>, Vec<String>))
    ensures
        pull_entry_views(r.0@) == pull_entries_of(grouped@, diffs@, source_prefix@),
        pull_skipped_views(r.1@) == pull_skipped_of(grouped@, diffs@, source_prefix@),
{
    let mut r: Vec<PullFileCoverageWrapper> = Vec::new();
    let mut skipped: Vec<String> = Vec::new();
    for i in 0..grouped.len()
        invariant
            pull_entry_views(r@) == pull_entries_of(
                grouped@.subrange(0, i as int),
                diffs@,
                source_prefix@,
            ),
            pull_skipped_views(skipped@) == pull_skipped_of(
                grouped@.subrange(0, i as int),
                diffs@,
                source_prefix@,
            ),
    {
        let cov = &grouped[i];
        let path: String = path_split(cov.filename.as_str(), source_prefix);
        match lookup_diff(diffs, path.as_str()) {
            Some(text) => {
                let mut patch_text: String = text.clone();
                if !ends_with_newline(patch_text.as_str()) {
                    patch_text.append("\n");
                }
                let chars: Vec<char> = str_chars(patch_text.as_str());
                if !diff_text_parseable(&chars) {
                    // the text is outside the shape the parser consumes
                    // in full; skip it like any other unparsable diff
                    skipped.push(path);
                } else {
                    match parse_patch_hunks(patch_text.as_str()) {
                        Ok(hunks) => {
                            let raw_lines: Vec<u32> = filter_attributed(&cov.lines, &hunks);
                            if raw_lines.len() > 0 {
                                let hunked_lines: Vec<(u32, u32)> = coalesce_by_hunk(
                                    &hunks,
                                    &raw_lines,
                                );
                                let sha: String = path_sha(path.as_str());
                                r.push(
                                    PullFileCoverageWrapper {
                                        sha,
                                        hunked_lines,
                                        raw_lines,
                                        realpath: path,
                                    },
                                );
                            }
                        },
                        Err(_) => {
                            skipped.push(path);
                        },
                    }
                }
            },
            None => {},
        }
        proof {
            let sub1 = grouped@.subrange(0, i + 1 as int);
            assert(sub1.drop_last() =~= grouped@.subrange(0, i as int));
            assert(sub1.last() == grouped@[i as int]);
            assert(pull_entry_views(r@) =~= pull_entries_of(sub1, diffs@, source_prefix@));
            assert(pull_skipped_views(skipped@) =~= pull_skipped_of(sub1, diffs@, source_prefix@));
        }
    }
    proof {
        assert(grouped@.subrange(0, grouped@.len() as int) =~= grouped@);
    }
    (r, skipped)
}

} // verus!
