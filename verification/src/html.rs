//! Building the HTML comment summaries and the diff links they carry.

use vstd::prelude::*;
use vstd::string::StringExecFns;
use crate::text::{dec_chars, join_chars, u32_to_string, u64_to_string};
use crate::ranges::{gather_lines, gather_spec};
use crate::pull::PullFileCoverageWrapper;
use crate::push::PushFileCoverageWrapper;

verus! {

/// The line fragment of a diff link: nothing, one line, or a line range.
pub open spec fn line_ref_chars(line: Option<(u32, Option<u32>)>) -> Seq<char> {
    match line {
        None => Seq::empty(),
        Some((start, None)) => "R"@ + dec_chars(start as int),
        Some((start, Some(end))) => "R"@ + dec_chars(start as int) + "-R"@ + dec_chars(end as int),
    }
}

/// A link to a file, and optionally a line or line range, of a pull
/// request's diff.
pub open spec fn pull_link_chars(
    owner: Seq<char>,
    repo: Seq<char>,
    pull_id: u64,
    sha: Seq<char>,
    line: Option<(u32, Option<u32>)>,
) -> Seq<char> {
    "https://github.com/"@ + owner + "/"@ + repo + "/pull/"@ + dec_chars(pull_id as int)
        + "/files#diff-"@ + sha + line_ref_chars(line)
}

/// A link to a file, and optionally a line or line range, of a commit's
/// diff.
pub open spec fn commit_link_chars(
    owner: Seq<char>,
    repo: Seq<char>,
    commit_sha: Seq<char>,
    file_name_sha: Seq<char>,
    line: Option<(u32, Option<u32>)>,
) -> Seq<char> {
    "https://github.com/"@ + owner + "/"@ + repo + "/commit/"@ + commit_sha + "#diff-"@
        + file_name_sha + line_ref_chars(line)
}

/// Append the line fragment of a diff link.
fn append_line_ref(r: &mut String, line: Option<(u32, Option<u32>)>)
    ensures
        final(r)@ == old(r)@ + line_ref_chars(line),
{
    match line {
        Some((start, Some(end))) => {
            r.append("R");
            let s: String = u32_to_string(start);
            r.append(s.as_str());
            r.append("-R");
            let e: String = u32_to_string(end);
            r.append(e.as_str());
        },
        Some((start, None)) => {
            r.append("R");
            let s: String = u32_to_string(start);
            r.append(s.as_str());
        },
        None => {},
    }
    proof {
        assert(final(r)@ =~= old(r)@ + line_ref_chars(line));
    }
}

/// Make a file, and optionally line, specific link to a diff in a pull
/// request.
pub fn make_pull_link(
    owner: &str,
    repo: &str,
    pull_id: u64,
    sha: &str,
    line: Option<(u32, Option<u32>)>,
) -> (r: String)
    ensures
        r@ == pull_link_chars(owner@, repo@, pull_id, sha@, line),
{
    let mut r: String = "https://github.com/".to_owned();
    r.append(owner);
    r.append("/");
    r.append(repo);
    r.append("/pull/");
    let id: String = u64_to_string(pull_id);
    r.append(id.as_str());
    r.append("/files#diff-");
    r.append(sha);
    append_line_ref(&mut r, line);
    proof {
        assert(r@ =~= pull_link_chars(owner@, repo@, pull_id, sha@, line));
    }
    r
}

/// Make a file, and optionally line, specific link for a commit diff.
pub fn make_commit_link(
    owner: &str,
    repo: &str,
    commit_sha: &str,
    file_name_sha: &str,
    line: Option<(u32, Option<u32>)>,
) -> (r: String)
    ensures
        r@ == commit_link_chars(owner@, repo@, commit_sha@, file_name_sha@, line),
{
    let mut r: String = "https://github.com/".to_owned();
    r.append(owner);
    r.append("/");
    r.append(repo);
    r.append("/commit/");
    r.append(commit_sha);
    r.append("#diff-");
    r.append(file_name_sha);
    append_line_ref(&mut r, line);
    proof {
        assert(r@ =~= commit_link_chars(owner@, repo@, commit_sha@, file_name_sha@, line));
    }
    r
}

/// One coalesced range of a commit summary's lines cell: a link to the
/// line or line range, its text the line number or `start-end`.
pub open spec fn push_range_chars(
    owner: Seq<char>,
    repo: Seq<char>,
    commit_sha: Seq<char>,
    file_sha: Seq<char>,
    rg: (u32, u32),
) -> Seq<char> {
    if rg.0 == rg.1 {
        "<a href=\""@ + commit_link_chars(owner, repo, commit_sha, file_sha, Some((rg.0, None)))
            + "\">"@ + dec_chars(rg.0 as int) + "</a>"@
    } else {
        "<a href=\""@ + commit_link_chars(
            owner,
            repo,
            commit_sha,
            file_sha,
            Some((rg.0, Some(rg.1))),
        ) + "\">"@ + dec_chars(rg.0 as int) + "-"@ + dec_chars(rg.1 as int) + "</a>"@
    }
}

/// One coalesced range of a pull summary's lines cell.
pub open spec fn pull_range_chars(
    owner: Seq<char>,
    repo: Seq<char>,
    pull_id: u64,
    file_sha: Seq<char>,
    rg: (u32, u32),
) -> Seq<char> {
    if rg.0 == rg.1 {
        "<a href=\""@ + pull_link_chars(owner, repo, pull_id, file_sha, Some((rg.0, None)))
            + "\">"@ + dec_chars(rg.0 as int) + "</a>"@
    } else {
        "<a href=\""@ + pull_link_chars(owner, repo, pull_id, file_sha, Some((rg.0, Some(rg.1))))
            + "\">"@ + dec_chars(rg.0 as int) + "-"@ + dec_chars(rg.1 as int) + "</a>"@
    }
}

/// The lines cell of one commit summary row: the file's uncovered lines
/// coalesced into ranges, each linked, joined with commas.
pub open spec fn push_lines_chars(
    owner: Seq<char>,
    repo: Seq<char>,
    commit_sha: Seq<char>,
    file_sha: Seq<char>,
    raw_lines: Seq<u32>,
) -> Seq<char> {
    join_chars(
        Seq::new(
            gather_spec(raw_lines).len(),
            |i: int| push_range_chars(owner, repo, commit_sha, file_sha, gather_spec(raw_lines)[i]),
        ),
        ", "@,
    )
}

/// The lines cell of one pull summary row.
pub open spec fn pull_lines_chars(
    owner: Seq<char>,
    repo: Seq<char>,
    pull_id: u64,
    file_sha: Seq<char>,
    raw_lines: Seq<u32>,
) -> Seq<char> {
    join_chars(
        Seq::new(
            gather_spec(raw_lines).len(),
            |i: int| pull_range_chars(owner, repo, pull_id, file_sha, gather_spec(raw_lines)[i]),
        ),
        ", "@,
    )
}

/// One row of a commit summary: the linked file path, then the lines cell.
pub open spec fn push_row_chars(
    owner: Seq<char>,
    repo: Seq<char>,
    commit_sha: Seq<char>,
    w: PushFileCoverageWrapper,
) -> Seq<char> {
    "<tr><td><a href=\""@ + commit_link_chars(owner, repo, commit_sha, w.sha@, None) + "\">"@
        + w.realpath@ + "</a></td><td>"@ + push_lines_chars(
        owner,
        repo,
        commit_sha,
        w.sha@,
        w.raw_lines@,
    ) + "</td></tr>"@
}

/// One row of a pull summary.
pub open spec fn pull_row_chars(
    owner: Seq<char>,
    repo: Seq<char>,
    pull_id: u64,
    w: PullFileCoverageWrapper,
) -> Seq<char> {
    "<tr><td><a href=\""@ + pull_link_chars(owner, repo, pull_id, w.sha@, None) + "\">"@
        + w.realpath@ + "</a></td><td>"@ + pull_lines_chars(
        owner,
        repo,
        pull_id,
        w.sha@,
        w.raw_lines@,
    ) + "</td></tr>"@
}

/// A collapsible summary table with a title and prebuilt rows.
pub open spec fn summary_chars(title: Seq<char>, rows: Seq<char>) -> Seq<char> {
    "<details><summary>"@ + title
        + "</summary><table><tbody><tr><th>File Path</th><th>Lines</th></tr>"@ + rows
        + "</tbody></table></details>"@
}

/// Wrap prebuilt table rows into the collapsible summary table.
fn build_summary(summary: &str, table_rows: String) -> (r: String)
    ensures
        r@ == summary_chars(summary@, table_rows@),
{
    let mut r: String = "<details><summary>".to_owned();
    r.append(summary);
    r.append("</summary><table><tbody><tr><th>File Path</th><th>Lines</th></tr>");
    r.append(table_rows.as_str());
    r.append("</tbody></table></details>");
    proof {
        assert(r@ =~= summary_chars(summary@, table_rows@));
    }
    r
}

/// Build the link text of one coalesced range of a commit summary.
fn push_range_text(
    owner: &str,
    repo: &str,
    commit_sha: &str,
    file_sha: &str,
    rg: (u32, u32),
) -> (r: String)
    ensures
        r@ == push_range_chars(owner@, repo@, commit_sha@, file_sha@, rg),
{
    let mut r: String = "<a href=\"".to_owned();
    if rg.0 == rg.1 {
        let link: String = make_commit_link(owner, repo, commit_sha, file_sha, Some((rg.0, None)));
        r.append(link.as_str());
        r.append("\">");
        let s: String = u32_to_string(rg.0);
        r.append(s.as_str());
        r.append("</a>");
    } else {
        let link: String = make_commit_link(
            owner,
            repo,
            commit_sha,
            file_sha,
            Some((rg.0, Some(rg.1))),
        );
        r.append(link.as_str());
        r.append("\">");
        let s: String = u32_to_string(rg.0);
        r.append(s.as_str());
        r.append("-");
        let e: String = u32_to_string(rg.1);
        r.append(e.as_str());
        r.append("</a>");
    }
    proof {
        assert(r@ =~= push_range_chars(owner@, repo@, commit_sha@, file_sha@, rg));
    }
    r
}

/// Build the link text of one coalesced range of a pull summary.
fn pull_range_text(
    owner: &str,
    repo: &str,
    pull_id: u64,
    file_sha: &str,
    rg: (u32, u32),
) -> (r: String)
    ensures
        r@ == pull_range_chars(owner@, repo@, pull_id, file_sha@, rg),
{
    let mut r: String = "<a href=\"".to_owned();
    if rg.0 == rg.1 {
        let link: String = make_pull_link(owner, repo, pull_id, file_sha, Some((rg.0, None)));
        r.append(link.as_str());
        r.append("\">");
        let s: String = u32_to_string(rg.0);
        r.append(s.as_str());
        r.append("</a>");
    } else {
        let link: String = make_pull_link(owner, repo, pull_id, file_sha, Some((rg.0, Some(rg.1))));
        r.append(link.as_str());
        r.append("\">");
        let s: String = u32_to_string(rg.0);
        r.append(s.as_str());
        r.append("-");
        let e: String = u32_to_string(rg.1);
        r.append(e.as_str());
        r.append("</a>");
    }
    proof {
        assert(r@ =~= pull_range_chars(owner@, repo@, pull_id, file_sha@, rg));
    }
    r
}

/// Build the lines cell of one commit summary row.
fn push_lines_cell(
    owner: &str,
    repo: &str,
    commit_sha: &str,
    file_sha: &str,
    raw_lines: &Vec<u32>,
) -> (r: String)
    ensures
        r@ == push_lines_chars(owner@, repo@, commit_sha@, file_sha@, raw_lines@),
{
    let ranges: Vec<(u32, u32)> = gather_lines(raw_lines);
    let ghost parts = Seq::new(
        gather_spec(raw_lines@).len(),
        |i: int| push_range_chars(owner@, repo@, commit_sha@, file_sha@, gather_spec(raw_lines@)[i]),
    );
    let mut r: String = "".to_owned();
    proof {
        reveal_strlit("");
    }
    for i in 0..ranges.len()
        invariant
            ranges@ == gather_spec(raw_lines@),
            parts == Seq::new(
                gather_spec(raw_lines@).len(),
                |i: int|
                    push_range_chars(
                        owner@,
                        repo@,
                        commit_sha@,
                        file_sha@,
                        gather_spec(raw_lines@)[i],
                    ),
            ),
            r@ == join_chars(parts.subrange(0, i as int), ", "@),
    {
        if i > 0 {
            r.append(", ");
        }
        let piece: String = push_range_text(owner, repo, commit_sha, file_sha, ranges[i]);
        r.append(piece.as_str());
        proof {
            assert(parts.subrange(0, i + 1 as int).drop_last() =~= parts.subrange(0, i as int));
            assert(parts.subrange(0, i + 1 as int).last() == parts[i as int]);
            assert(r@ =~= join_chars(parts.subrange(0, i + 1 as int), ", "@));
        }
    }
    proof {
        assert(parts.subrange(0, parts.len() as int) =~= parts);
    }
    r
}

/// Build the lines cell of one pull summary row.
fn pull_lines_cell(
    owner: &str,
    repo: &str,
    pull_id: u64,
    file_sha: &str,
    raw_lines: &Vec<u32>,
) -> (r: String)
    ensures
        r@ == pull_lines_chars(owner@, repo@, pull_id, file_sha@, raw_lines@),
{
    let ranges: Vec<(u32, u32)> = gather_lines(raw_lines);
    let ghost parts = Seq::new(
        gather_spec(raw_lines@).len(),
        |i: int| pull_range_chars(owner@, repo@, pull_id, file_sha@, gather_spec(raw_lines@)[i]),
    );
    let mut r: String = "".to_owned();
    proof {
        reveal_strlit("");
    }
    for i in 0..ranges.len()
        invariant
            ranges@ == gather_spec(raw_lines@),
            parts == Seq::new(
                gather_spec(raw_lines@).len(),
                |i: int|
                    pull_range_chars(owner@, repo@, pull_id, file_sha@, gather_spec(raw_lines@)[i]),
            ),
            r@ == join_chars(parts.subrange(0, i as int), ", "@),
    {
        if i > 0 {
            r.append(", ");
        }
        let piece: String = pull_range_text(owner, repo, pull_id, file_sha, ranges[i]);
        r.append(piece.as_str());
        proof {
            assert(parts.subrange(0, i + 1 as int).drop_last() =~= parts.subrange(0, i as int));
            assert(parts.subrange(0, i + 1 as int).last() == parts[i as int]);
            assert(r@ =~= join_chars(parts.subrange(0, i + 1 as int), ", "@));
        }
    }
    proof {
        assert(parts.subrange(0, parts.len() as int) =~= parts);
    }
    r
}

/// All rows of a commit summary, concatenated.
pub open spec fn push_rows_chars(
    owner: Seq<char>,
    repo: Seq<char>,
    commit_sha: Seq<char>,
    report: Seq<PushFileCoverageWrapper>,
) -> Seq<char> {
    join_chars(
        Seq::new(report.len(), |i: int| push_row_chars(owner, repo, commit_sha, report[i])),
        Seq::empty(),
    )
}

/// All rows of a pull summary, concatenated.
pub open spec fn pull_rows_chars(
    owner: Seq<char>,
    repo: Seq<char>,
    pull_id: u64,
    report: Seq<PullFileCoverageWrapper>,
) -> Seq<char> {
    join_chars(
        Seq::new(report.len(), |i: int| pull_row_chars(owner, repo, pull_id, report[i])),
        Seq::empty(),
    )
}

/// Build the comment summary for a commit: a collapsible table with one
/// row per file, linking the file and each coalesced range of its
/// uncovered lines.
pub fn build_push_summary(
    owner: &str,
    repo: &str,
    commit_sha: &str,
    report: &Vec<PushFileCoverageWrapper>,
) -> (r: String)
    ensures
        r@ == summary_chars(
            "\u{1f408}\u{200d}\u{2b1b} Untested Lines \u{1f408}\u{200d}\u{2b1b}"@,
            push_rows_chars(owner@, repo@, commit_sha@, report@),
        ),
{
    let ghost parts = Seq::new(
        report@.len(),
        |i: int| push_row_chars(owner@, repo@, commit_sha@, report@[i]),
    );
    let mut rows: String = "".to_owned();
    proof {
        reveal_strlit("");
    }
    for i in 0..report.len()
        invariant
            parts == Seq::new(
                report@.len(),
                |i: int| push_row_chars(owner@, repo@, commit_sha@, report@[i]),
            ),
            rows@ == join_chars(parts.subrange(0, i as int), Seq::<char>::empty()),
    {
        let w = &report[i];
        rows.append("<tr><td><a href=\"");
        let link: String = make_commit_link(owner, repo, commit_sha, w.sha.as_str(), None);
        rows.append(link.as_str());
        rows.append("\">");
        rows.append(w.realpath.as_str());
        rows.append("</a></td><td>");
        let cell: String = push_lines_cell(owner, repo, commit_sha, w.sha.as_str(), &w.raw_lines);
        rows.append(cell.as_str());
        rows.append("</td></tr>");
        proof {
            assert(parts.subrange(0, i + 1 as int).drop_last() =~= parts.subrange(0, i as int));
            assert(parts.subrange(0, i + 1 as int).last() == parts[i as int]);
            assert(rows@ =~= join_chars(parts.subrange(0, i + 1 as int), Seq::<char>::empty()));
        }
    }
    proof {
        assert(parts.subrange(0, parts.len() as int) =~= parts);
    }
    build_summary("\u{1f408}\u{200d}\u{2b1b} Untested Lines \u{1f408}\u{200d}\u{2b1b}", rows)
}

/// Build the comment summary for a pull request.
pub fn build_pull_summary(
    owner: &str,
    repo: &str,
    pull_id: u64,
    report: &Vec<PullFileCoverageWrapper>,
) -> (r: String)
    ensures
        r@ == summary_chars(
            "\u{1f408}\u{200d}\u{2b1b} Untested Changes \u{1f408}\u{200d}\u{2b1b}"@,
            pull_rows_chars(owner@, repo@, pull_id, report@),
        ),
{
    let ghost parts = Seq::new(
        report@.len(),
        |i: int| pull_row_chars(owner@, repo@, pull_id, report@[i]),
    );
    let mut rows: String = "".to_owned();
    proof {
        reveal_strlit("");
    }
    for i in 0..report.len()
        invariant
            parts == Seq::new(
                report@.len(),
                |i: int| pull_row_chars(owner@, repo@, pull_id, report@[i]),
            ),
            rows@ == join_chars(parts.subrange(0, i as int), Seq::<char>::empty()),
    {
        let w = &report[i];
        rows.append("<tr><td><a href=\"");
        let link: String = make_pull_link(owner, repo, pull_id, w.sha.as_str(), None);
        rows.append(link.as_str());
        rows.append("\">");
        rows.append(w.realpath.as_str());
        rows.append("</a></td><td>");
        let cell: String = pull_lines_cell(owner, repo, pull_id, w.sha.as_str(), &w.raw_lines);
        rows.append(cell.as_str());
        rows.append("</td></tr>");
        proof {
            assert(parts.subrange(0, i + 1 as int).drop_last() =~= parts.subrange(0, i as int));
            assert(parts.subrange(0, i + 1 as int).last() == parts[i as int]);
            assert(rows@ =~= join_chars(parts.subrange(0, i + 1 as int), Seq::<char>::empty()));
        }
    }
    proof {
        assert(parts.subrange(0, parts.len() as int) =~= parts);
    }
    build_summary("\u{1f408}\u{200d}\u{2b1b} Untested Changes \u{1f408}\u{200d}\u{2b1b}", rows)
}

} // verus!
