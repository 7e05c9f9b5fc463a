//! Building the centralised README and the per-branch coverage reports.

use vstd::prelude::*;
use vstd::string::StringExecFns;
use crate::text::{dec_chars, int_chars, join_chars, percent_chars, i16_to_string, percent_string,
    u32_to_string, u64_to_string};
use crate::ranges::{gather_lines, gather_spec};
use crate::tracking::{BranchCoverageRecordCollection, FileCoverageRecord, Team,
    latest_idx, spec_delta_duration, spec_last_delta, spec_max_ts, team_display_name,
    lemma_delta_duration_some};

verus! {

/// The text that the `time` crate renders a Unix timestamp as, or `None`
/// when the timestamp lies outside the representable range of dates.
pub uninterp spec fn timestamp_text_of(ts: i64) -> Option<Seq<char>>;

/// Relies on the `time` crate: `OffsetDateTime::from_unix_timestamp`
/// interprets a Unix timestamp (erring outside its supported range of
/// dates) and the value's `Display` renders it; both depend on the
/// timestamp alone.
#[verifier::external_body]
fn format_timestamp(ts: i64) -> (r: Option<String>)
    ensures
        r is Some <==> timestamp_text_of(ts) is Some,
        r matches Some(s) ==> timestamp_text_of(ts) matches Some(cs) && s@ == cs,
{
    match time::OffsetDateTime::from_unix_timestamp(ts) {
        Ok(t) => Some(t.to_string()),
        Err(_) => None,
    }
}

/// Data shown for one branch in the README's tables.
#[derive(Debug, Clone, PartialEq, Eq)]
pub struct ReadmeCoverageEntry {
    /// Repo owner.
    pub owner: String,
    /// Repo name.
    pub repo: String,
    /// Repo branch.
    pub branch: String,
    /// Coverage in basis points.
    pub coverage: i16,
    /// Last delta in basis points.
    pub last_delta: i16,
    /// 7 day delta in basis points.
    pub delta_7_days: i16,
    /// 30 day delta in basis points.
    pub delta_30_days: i16,
    /// 90 day delta in basis points.
    pub delta_90_days: i16,
    /// Rendered date of the latest update.
    pub last_update: String,
}

/// Mathematical image of one README entry.
pub ghost struct GReadmeEntry {
    pub owner: Seq<char>,
    pub repo: Seq<char>,
    pub branch: Seq<char>,
    pub coverage: i16,
    pub last_delta: i16,
    pub delta_7_days: i16,
    pub delta_30_days: i16,
    pub delta_90_days: i16,
    pub last_update: Seq<char>,
}

impl View for ReadmeCoverageEntry {
    type V = GReadmeEntry;

    open spec fn view(&self) -> GReadmeEntry {
        GReadmeEntry {
            owner: self.owner@,
            repo: self.repo@,
            branch: self.branch@,
            coverage: self.coverage,
            last_delta: self.last_delta,
            delta_7_days: self.delta_7_days,
            delta_30_days: self.delta_30_days,
            delta_90_days: self.delta_90_days,
            last_update: self.last_update@,
        }
    }
}

/// The README entry of one branch's snapshot collection: present exactly
/// when the collection has snapshots and the newest one's timestamp
/// renders as a date.
pub open spec fn gentry_of(
    owner: Seq<char>,
    repo: Seq<char>,
    branch: Seq<char>,
    records: Seq<crate::tracking::BranchCoverageRecord>,
) -> Option<GReadmeEntry> {
    if records.len() > 0 && timestamp_text_of(spec_max_ts(records)) is Some {
        Some(
            GReadmeEntry {
                owner,
                repo,
                branch,
                coverage: records[latest_idx(records)].percentage,
                last_delta: spec_last_delta(records).unwrap(),
                delta_7_days: spec_delta_duration(records, 604800).unwrap(),
                delta_30_days: spec_delta_duration(records, 2592000).unwrap(),
                delta_90_days: spec_delta_duration(records, 7776000).unwrap(),
                last_update: timestamp_text_of(spec_max_ts(records)).unwrap(),
            },
        )
    } else {
        None
    }
}

impl ReadmeCoverageEntry {
    /// Build the README entry of one branch, or `None` when the collection
    /// is empty or its newest timestamp does not render as a date.
    pub fn from_collection(
        owner: &str,
        repo: &str,
        branch: &str,
        record: &BranchCoverageRecordCollection,
    ) -> (r: Option<ReadmeCoverageEntry>)
        requires
            record.wf(),
        ensures
            r is Some <==> gentry_of(owner@, repo@, branch@, record.records@) is Some,
            r matches Some(e) ==> gentry_of(owner@, repo@, branch@, record.records@) matches Some(
                g,
            ) && e@ == g,
    {
        let ts: i64 = match record.latest_timestamp() {
            Some(t) => t,
            None => {
                return None;
            },
        };
        let last_update: String = match format_timestamp(ts) {
            Some(s) => s,
            None => {
                return None;
            },
        };
        let coverage: i16 = match record.latest() {
            Some(l) => l.percentage,
            None => {
                proof {
                    assert(false);
                }
                0
            },
        };
        let last_delta: i16 = match record.last_delta() {
            Some(d) => d,
            None => {
                proof {
                    assert(false);
                }
                0
            },
        };
        let delta_7_days: i16 = match record.delta_last_7_days() {
            Some(d) => d,
            None => {
                proof {
                    lemma_delta_duration_some(record.records@, 604800);
                }
                0
            },
        };
        let delta_30_days: i16 = match record.delta_last_30_days() {
            Some(d) => d,
            None => {
                proof {
                    lemma_delta_duration_some(record.records@, 2592000);
                }
                0
            },
        };
        let delta_90_days: i16 = match record.delta_last_90_days() {
            Some(d) => d,
            None => {
                proof {
                    lemma_delta_duration_some(record.records@, 7776000);
                }
                0
            },
        };
        Some(
            ReadmeCoverageEntry {
                owner: owner.to_owned(),
                repo: repo.to_owned(),
                branch: branch.to_owned(),
                coverage,
                last_delta,
                delta_7_days,
                delta_30_days,
                delta_90_days,
                last_update,
            },
        )
    }
}

/// One branch as handed in for the README rebuild: where it lives and its
/// snapshot collection.
#[derive(Debug)]
pub struct TrackedBranch {
    /// Repo owner.
    pub owner: String,
    /// Repo name.
    pub repo: String,
    /// Repo branch.
    pub branch: String,
    /// The branch's snapshot collection.
    pub collection: BranchCoverageRecordCollection,
}

/// The README entries of one team, in input order, keeping only branches
/// whose collection yields an entry.
pub open spec fn team_gentries(branch_list: Seq<TrackedBranch>, team: Team) -> Seq<GReadmeEntry>
    decreases branch_list.len(),
{
    if branch_list.len() == 0 {
        Seq::empty()
    } else {
        let pre = team_gentries(branch_list.drop_last(), team);
        let tb = branch_list.last();
        if tb.collection.team == team && gentry_of(
            tb.owner@,
            tb.repo@,
            tb.branch@,
            tb.collection.records@,
        ) is Some {
            pre.push(
                gentry_of(tb.owner@, tb.repo@, tb.branch@, tb.collection.records@).unwrap(),
            )
        } else {
            pre
        }
    }
}

/// One row of a team's README table.
pub open spec fn readme_row_chars(
    cov_owner: Seq<char>,
    cov_repo: Seq<char>,
    e: GReadmeEntry,
) -> Seq<char> {
    "| ["@ + e.owner + "/"@ + e.repo + " ("@ + e.branch + ")](https://github.com/"@ + e.owner
        + "/"@ + e.repo + "/tree/"@ + e.branch + ") | "@ + percent_chars(e.coverage as int)
        + "% | [Report](https://github.com/"@ + cov_owner + "/"@ + cov_repo
        + "/blob/main/reports/"@ + e.owner + "/"@ + e.repo + "/"@ + e.branch + ".md) | "@
        + percent_chars(e.last_delta as int) + "%         | "@ + percent_chars(
        e.delta_7_days as int,
    ) + "%         | "@ + percent_chars(e.delta_30_days as int) + "%          | "@ + percent_chars(
        e.delta_90_days as int,
    ) + "%          | "@ + e.last_update + "   |\n"@
}

/// All rows of a team's README table, each followed by a blank line.
pub open spec fn readme_rows_chars(
    cov_owner: Seq<char>,
    cov_repo: Seq<char>,
    entries: Seq<GReadmeEntry>,
) -> Seq<char> {
    join_chars(
        Seq::new(
            entries.len(),
            |i: int| readme_row_chars(cov_owner, cov_repo, entries[i]) + "\n"@,
        ),
        Seq::empty(),
    )
}

/// The README section of one team: its heading, branch count, table
/// header, and rows.
pub open spec fn team_readme_chars(
    cov_owner: Seq<char>,
    cov_repo: Seq<char>,
    team: Team,
    entries: Seq<GReadmeEntry>,
) -> Seq<char> {
    "## "@ + team_display_name(team) + "\n\nTracking coverage of "@ + dec_chars(
        entries.len() as int,
    ) + " branches of repositories in this group\n\n"@
        + "| Repository (Branch)                | Coverage  | Report         | Delta (Last) | Delta (7 Days) | Delta (30 Days) | Delta (90 Days) | Last Updated |\n"@
        + "|------------------------------------|-----------|----------------|--------------|----------------|-----------------|-----------------|--------------|\n"@
        + readme_rows_chars(cov_owner, cov_repo, entries) + "\n"@
}

/// Build the README table of one team.
#[verifier::rlimit(80)]
pub fn build_team_readme(
    coverage_repo_owner: &str,
    coverage_repo: &str,
    team: Team,
    branches: &Vec<ReadmeCoverageEntry>,
) -> (r: String)
    ensures
        r@ == team_readme_chars(
            coverage_repo_owner@,
            coverage_repo@,
            team,
            Seq::new(branches@.len(), |i: int| branches@[i]@),
        ),
{
    let ghost gentries = Seq::new(branches@.len(), |i: int| branches@[i]@);
    let ghost parts = Seq::new(
        gentries.len(),
        |i: int| readme_row_chars(coverage_repo_owner@, coverage_repo@, gentries[i]) + "\n"@,
    );
    let mut rows: String = "".to_owned();
    proof {
        reveal_strlit("");
    }
    for i in 0..branches.len()
        invariant
            gentries == Seq::new(branches@.len(), |i: int| branches@[i]@),
            parts == Seq::new(
                gentries.len(),
                |i: int|
                    readme_row_chars(coverage_repo_owner@, coverage_repo@, gentries[i]) + "\n"@,
            ),
            rows@ == join_chars(parts.subrange(0, i as int), Seq::<char>::empty()),
    {
        let row: String = readme_row(coverage_repo_owner, coverage_repo, &branches[i]);
        rows.append(row.as_str());
        rows.append("\n");
        proof {
            assert(parts.subrange(0, i + 1 as int).drop_last() =~= parts.subrange(0, i as int));
            assert(parts.subrange(0, i + 1 as int).last() == parts[i as int]);
            assert(rows@ =~= join_chars(parts.subrange(0, i + 1 as int), Seq::<char>::empty()));
        }
    }
    proof {
        assert(parts.subrange(0, parts.len() as int) =~= parts);
    }
    let mut r: String = "## ".to_owned();
    let name: String = team.display_name();
    r.append(name.as_str());
    r.append("\n\nTracking coverage of ");
    let count: String = u64_to_string(branches.len() as u64);
    r.append(count.as_str());
    r.append(" branches of repositories in this group\n\n");
    r.append(
        "| Repository (Branch)                | Coverage  | Report         | Delta (Last) | Delta (7 Days) | Delta (30 Days) | Delta (90 Days) | Last Updated |\n",
    );
    r.append(
        "|------------------------------------|-----------|----------------|--------------|----------------|-----------------|-----------------|--------------|\n",
    );
    r.append(rows.as_str());
    r.append("\n");
    proof {
        assert(r@ =~= team_readme_chars(coverage_repo_owner@, coverage_repo@, team, gentries));
    }
    r
}

/// Build one row of a team's README table.
fn readme_row(cov_owner: &str, cov_repo: &str, e: &ReadmeCoverageEntry) -> (r: String)
    ensures
        r@ == readme_row_chars(cov_owner@, cov_repo@, e@),
{
    let mut r: String = "| [".to_owned();
    r.append(e.owner.as_str());
    r.append("/");
    r.append(e.repo.as_str());
    r.append(" (");
    r.append(e.branch.as_str());
    r.append(")](https://github.com/");
    r.append(e.owner.as_str());
    r.append("/");
    r.append(e.repo.as_str());
    r.append("/tree/");
    r.append(e.branch.as_str());
    r.append(") | ");
    let cov: String = percent_string(e.coverage);
    r.append(cov.as_str());
    r.append("% | [Report](https://github.com/");
    r.append(cov_owner);
    r.append("/");
    r.append(cov_repo);
    r.append("/blob/main/reports/");
    r.append(e.owner.as_str());
    r.append("/");
    r.append(e.repo.as_str());
    r.append("/");
    r.append(e.branch.as_str());
    r.append(".md) | ");
    let ld: String = percent_string(e.last_delta);
    r.append(ld.as_str());
    r.append("%         | ");
    let d7: String = percent_string(e.delta_7_days);
    r.append(d7.as_str());
    r.append("%         | ");
    let d30: String = percent_string(e.delta_30_days);
    r.append(d30.as_str());
    r.append("%          | ");
    let d90: String = percent_string(e.delta_90_days);
    r.append(d90.as_str());
    r.append("%          | ");
    r.append(e.last_update.as_str());
    r.append("   |\n");
    proof {
        assert(r@ =~= readme_row_chars(cov_owner@, cov_repo@, e@));
    }
    r
}

/// Each branch feeds at most one team's entry list.
proof fn lemma_team_gentries_total(branch_list: Seq<TrackedBranch>)
    ensures
        team_gentries(branch_list, Team::InstantMessaging).len() + team_gentries(
            branch_list,
            Team::Workflow,
        ).len() + team_gentries(branch_list, Team::Infrastructure).len() + team_gentries(
            branch_list,
            Team::Product,
        ).len() + team_gentries(branch_list, Team::Security).len() + team_gentries(
            branch_list,
            Team::Other,
        ).len() <= branch_list.len(),
    decreases branch_list.len(),
{
    if branch_list.len() > 0 {
        lemma_team_gentries_total(branch_list.drop_last());
    }
}

/// The whole README: the heading, the total branch count, the team index,
/// and the six team sections.
pub open spec fn readme_chars(
    cov_owner: Seq<char>,
    cov_repo: Seq<char>,
    branch_list: Seq<TrackedBranch>,
) -> Seq<char> {
    let im = team_gentries(branch_list, Team::InstantMessaging);
    let wf = team_gentries(branch_list, Team::Workflow);
    let inf = team_gentries(branch_list, Team::Infrastructure);
    let pr = team_gentries(branch_list, Team::Product);
    let sec = team_gentries(branch_list, Team::Security);
    let oth = team_gentries(branch_list, Team::Other);
    "# Coverage Reports\n\nFor a description of this repository please [read here](./Description.md).\n\nTracking coverage of "@
        + dec_chars((im.len() + wf.len() + inf.len() + pr.len() + sec.len() + oth.len()) as int)
        + " branches of repositories\n\n## Teams\n\n- [Instant Messaging](#instant-messaging)\n- [Workflow](#workflow)\n- [Infrastructure](#infrastructure)\n- [Product](#product)\n- [Security](#security)\n- [Other](#other)\n\n"@
        + team_readme_chars(cov_owner, cov_repo, Team::InstantMessaging, im) + "\n\n"@
        + team_readme_chars(cov_owner, cov_repo, Team::Workflow, wf) + "\n\n"@
        + team_readme_chars(cov_owner, cov_repo, Team::Infrastructure, inf) + "\n\n"@
        + team_readme_chars(cov_owner, cov_repo, Team::Product, pr) + "\n\n"@
        + team_readme_chars(cov_owner, cov_repo, Team::Security, sec) + "\n\n"@
        + team_readme_chars(cov_owner, cov_repo, Team::Other, oth) + "\n    "@
}

/// Build the whole README from the tracked branches, grouping their
/// entries by team.
pub fn build_readme(
    branch_list: &Vec<TrackedBranch>,
    coverage_repo_owner: &str,
    coverage_repo: &str,
) -> (r: String)
    requires
        forall|i: int| 0 <= i < branch_list@.len() ==> (#[trigger] branch_list@[i]).collection.wf(),
    ensures
        r@ == readme_chars(coverage_repo_owner@, coverage_repo@, branch_list@),
{
    let mut im: Vec<ReadmeCoverageEntry> = Vec::new();
    let mut wf: Vec<ReadmeCoverageEntry> = Vec::new();
    let mut inf: Vec<ReadmeCoverageEntry> = Vec::new();
    let mut pr: Vec<ReadmeCoverageEntry> = Vec::new();
    let mut sec: Vec<ReadmeCoverageEntry> = Vec::new();
    let mut oth: Vec<ReadmeCoverageEntry> = Vec::new();
    for i in 0..branch_list.len()
        invariant
            forall|k: int| 0 <= k < branch_list@.len() ==> (#[trigger] branch_list@[k]).collection.wf(),
            entry_views(im@) == team_gentries(branch_list@.subrange(0, i as int), Team::InstantMessaging),
            entry_views(wf@) == team_gentries(branch_list@.subrange(0, i as int), Team::Workflow),
            entry_views(inf@) == team_gentries(branch_list@.subrange(0, i as int), Team::Infrastructure),
            entry_views(pr@) == team_gentries(branch_list@.subrange(0, i as int), Team::Product),
            entry_views(sec@) == team_gentries(branch_list@.subrange(0, i as int), Team::Security),
            entry_views(oth@) == team_gentries(branch_list@.subrange(0, i as int), Team::Other),
    {
        let tb = &branch_list[i];
        let entry: Option<ReadmeCoverageEntry> = ReadmeCoverageEntry::from_collection(
            tb.owner.as_str(),
            tb.repo.as_str(),
            tb.branch.as_str(),
            &tb.collection,
        );
        match entry {
            Some(e) => {
                match tb.collection.team {
                    Team::InstantMessaging => {
                        im.push(e);
                    },
                    Team::Workflow => {
                        wf.push(e);
                    },
                    Team::Infrastructure => {
                        inf.push(e);
                    },
                    Team::Product => {
                        pr.push(e);
                    },
                    Team::Security => {
                        sec.push(e);
                    },
                    Team::Other => {
                        oth.push(e);
                    },
                }
            },
            None => {},
        }
        proof {
            let sub1 = branch_list@.subrange(0, i + 1 as int);
            assert(sub1.drop_last() =~= branch_list@.subrange(0, i as int));
            assert(sub1.last() == branch_list@[i as int]);
            assert(entry_views(im@) =~= team_gentries(sub1, Team::InstantMessaging));
            assert(entry_views(wf@) =~= team_gentries(sub1, Team::Workflow));
            assert(entry_views(inf@) =~= team_gentries(sub1, Team::Infrastructure));
            assert(entry_views(pr@) =~= team_gentries(sub1, Team::Product));
            assert(entry_views(sec@) =~= team_gentries(sub1, Team::Security));
            assert(entry_views(oth@) =~= team_gentries(sub1, Team::Other));
        }
    }
    proof {
        assert(branch_list@.subrange(0, branch_list@.len() as int) =~= branch_list@);
    }
    proof {
        lemma_team_gentries_total(branch_list@);
    }
    let total: u64 = im.len() as u64 + wf.len() as u64 + inf.len() as u64 + pr.len() as u64
        + sec.len() as u64 + oth.len() as u64;
    let mut r: String =
        "# Coverage Reports\n\nFor a description of this repository please [read here](./Description.md).\n\nTracking coverage of ".to_owned();
    let count: String = u64_to_string(total);
    r.append(count.as_str());
    r.append(
        " branches of repositories\n\n## Teams\n\n- [Instant Messaging](#instant-messaging)\n- [Workflow](#workflow)\n- [Infrastructure](#infrastructure)\n- [Product](#product)\n- [Security](#security)\n- [Other](#other)\n\n",
    );
    let s_im: String = build_team_readme(coverage_repo_owner, coverage_repo, Team::InstantMessaging, &im);
    r.append(s_im.as_str());
    r.append("\n\n");
    let s_wf: String = build_team_readme(coverage_repo_owner, coverage_repo, Team::Workflow, &wf);
    r.append(s_wf.as_str());
    r.append("\n\n");
    let s_inf: String = build_team_readme(coverage_repo_owner, coverage_repo, Team::Infrastructure, &inf);
    r.append(s_inf.as_str());
    r.append("\n\n");
    let s_pr: String = build_team_readme(coverage_repo_owner, coverage_repo, Team::Product, &pr);
    r.append(s_pr.as_str());
    r.append("\n\n");
    let s_sec: String = build_team_readme(coverage_repo_owner, coverage_repo, Team::Security, &sec);
    r.append(s_sec.as_str());
    r.append("\n\n");
    let s_oth: String = build_team_readme(coverage_repo_owner, coverage_repo, Team::Other, &oth);
    r.append(s_oth.as_str());
    r.append("\n    ");
    proof {
        assert(entry_views(im@) =~= Seq::new(im@.len(), |i: int| im@[i]@));
        assert(entry_views(wf@) =~= Seq::new(wf@.len(), |i: int| wf@[i]@));
        assert(entry_views(inf@) =~= Seq::new(inf@.len(), |i: int| inf@[i]@));
        assert(entry_views(pr@) =~= Seq::new(pr@.len(), |i: int| pr@[i]@));
        assert(entry_views(sec@) =~= Seq::new(sec@.len(), |i: int| sec@[i]@));
        assert(entry_views(oth@) =~= Seq::new(oth@.len(), |i: int| oth@[i]@));
        assert(r@ =~= readme_chars(coverage_repo_owner@, coverage_repo@, branch_list@));
    }
    r
}

/// The views of a list of README entries.
pub open spec fn entry_views(entries: Seq<ReadmeCoverageEntry>) -> Seq<GReadmeEntry> {
    Seq::new(entries.len(), |i: int| entries[i]@)
}

/// A link to a file of a branch.
pub open spec fn blob_link_chars(
    owner: Seq<char>,
    repo: Seq<char>,
    branch: Seq<char>,
    file: Seq<char>,
) -> Seq<char> {
    "https://github.com/"@ + owner + "/"@ + repo + "/blob/"@ + branch + "/"@ + file
}

/// One coalesced range of untested lines as a markdown link into the file.
pub open spec fn line_link_chars(
    owner: Seq<char>,
    repo: Seq<char>,
    branch: Seq<char>,
    file: Seq<char>,
    rg: (u32, u32),
) -> Seq<char> {
    if rg.0 == rg.1 {
        "["@ + dec_chars(rg.0 as int) + "]("@ + blob_link_chars(owner, repo, branch, file) + "#L"@
            + dec_chars(rg.0 as int) + ")"@
    } else {
        "["@ + dec_chars(rg.0 as int) + "-"@ + dec_chars(rg.1 as int) + "]("@ + blob_link_chars(
            owner,
            repo,
            branch,
            file,
        ) + "#L"@ + dec_chars(rg.0 as int) + "-L"@ + dec_chars(rg.1 as int) + ")"@
    }
}

/// A file's untested lines coalesced into ranges, each a markdown link,
/// joined with commas.
pub open spec fn lines_list_chars(
    owner: Seq<char>,
    repo: Seq<char>,
    branch: Seq<char>,
    file: Seq<char>,
    lines: Seq<u32>,
) -> Seq<char> {
    join_chars(
        Seq::new(
            gather_spec(lines).len(),
            |i: int| line_link_chars(owner, repo, branch, file, gather_spec(lines)[i]),
        ),
        ", "@,
    )
}

/// Build the markdown list of a file's untested lines, coalesced into
/// ranges and each linked into the file.
pub fn build_lines(
    repo_owner: &str,
    repo: &str,
    branch: &str,
    file_path: &str,
    lines: &Vec<u32>,
) -> (r: String)
    ensures
        r@ == lines_list_chars(repo_owner@, repo@, branch@, file_path@, lines@),
{
    let ranges: Vec<(u32, u32)> = gather_lines(lines);
    let ghost parts = Seq::new(
        gather_spec(lines@).len(),
        |i: int| line_link_chars(repo_owner@, repo@, branch@, file_path@, gather_spec(lines@)[i]),
    );
    let mut r: String = "".to_owned();
    proof {
        reveal_strlit("");
    }
    for i in 0..ranges.len()
        invariant
            ranges@ == gather_spec(lines@),
            parts == Seq::new(
                gather_spec(lines@).len(),
                |i: int|
                    line_link_chars(
                        repo_owner@,
                        repo@,
                        branch@,
                        file_path@,
                        gather_spec(lines@)[i],
                    ),
            ),
            r@ == join_chars(parts.subrange(0, i as int), ", "@),
    {
        if i > 0 {
            r.append(", ");
        }
        let piece: String = line_link_text(repo_owner, repo, branch, file_path, ranges[i]);
        r.append(piece.as_str());
        proof {
            assert(parts.subrange(0, i + 1 as int).drop_last() =~= parts.subrange(0, i as int));
            assert(parts.subrange(0, i + 1 as int).last() == parts[i as int]);
            assert(r@ =~= join_chars(parts.subrange(0, i + 1 as int), ", "@));
        }
    }
    proof {
        assert(parts.subrange(0, parts.len() as int) =~= parts);
    }
    r
}

/// Build the markdown link of one coalesced range of untested lines.
fn line_link_text(
    repo_owner: &str,
    repo: &str,
    branch: &str,
    file_path: &str,
    rg: (u32, u32),
) -> (r: String)
    ensures
        r@ == line_link_chars(repo_owner@, repo@, branch@, file_path@, rg),
{
    let mut r: String = "[".to_owned();
    let s: String = u32_to_string(rg.0);
    r.append(s.as_str());
    if rg.0 != rg.1 {
        r.append("-");
        let e: String = u32_to_string(rg.1);
        r.append(e.as_str());
    }
    r.append("](");
    r.append("https://github.com/");
    r.append(repo_owner);
    r.append("/");
    r.append(repo);
    r.append("/blob/");
    r.append(branch);
    r.append("/");
    r.append(file_path);
    r.append("#L");
    let s2: String = u32_to_string(rg.0);
    r.append(s2.as_str());
    if rg.0 != rg.1 {
        r.append("-L");
        let e2: String = u32_to_string(rg.1);
        r.append(e2.as_str());
    }
    r.append(")");
    proof {
        assert(r@ =~= line_link_chars(repo_owner@, repo@, branch@, file_path@, rg));
    }
    r
}

/// One row of a branch report's file table.
pub open spec fn report_row_chars(
    owner: Seq<char>,
    repo: Seq<char>,
    branch: Seq<char>,
    file: Seq<char>,
    rec: FileCoverageRecord,
) -> Seq<char> {
    "| ["@ + file + "]("@ + blob_link_chars(owner, repo, branch, file) + ") | "@ + percent_chars(
        rec.percentage as int,
    ) + "% | "@ + lines_list_chars(owner, repo, branch, file, rec.untested_lines@) + " |"@
}

/// All rows of a branch report's file table; a snapshot without per-file
/// detail yields none.
pub open spec fn report_rows_chars(
    owner: Seq<char>,
    repo: Seq<char>,
    branch: Seq<char>,
    files: Option<Vec<(String, FileCoverageRecord)>>,
) -> Seq<char> {
    match files {
        None => Seq::empty(),
        Some(fs) => join_chars(
            Seq::new(
                fs@.len(),
                |i: int| report_row_chars(owner, repo, branch, fs@[i].0@, fs@[i].1),
            ),
            Seq::empty(),
        ),
    }
}

/// The branch report: a heading, the branch and team, the newest
/// snapshot's date, percentage and deltas, and the per-file table.
/// `None` when the collection is empty or its newest timestamp does not
/// render as a date.
pub open spec fn report_chars(
    owner: Seq<char>,
    repo: Seq<char>,
    branch: Seq<char>,
    col: BranchCoverageRecordCollection,
) -> Option<Seq<char>> {
    let records = col.records@;
    if records.len() > 0 && timestamp_text_of(spec_max_ts(records)) is Some {
        Some(
            "# ["@ + owner + "/"@ + repo + "](https://github.com/"@ + owner + "/"@ + repo
                + "/)\n\n### Branch: `"@ + branch + "`\n### Responsible Team: "@
                + team_display_name(col.team) + "\n\n#### Last Updated: "@ + timestamp_text_of(
                spec_max_ts(records),
            ).unwrap() + "\n#### Coverage: "@ + percent_chars(
                records[latest_idx(records)].percentage as int,
            ) + "%\n#### Last Delta: "@ + int_chars(spec_last_delta(records).unwrap() as int)
                + "%\n#### 7 Day Delta: "@ + int_chars(
                spec_delta_duration(records, 604800).unwrap() as int,
            ) + "%\n#### 30 Day Delta: "@ + int_chars(
                spec_delta_duration(records, 2592000).unwrap() as int,
            ) + "%\n#### 90 Day Delta: "@ + int_chars(
                spec_delta_duration(records, 7776000).unwrap() as int,
            ) + "%\n\n"@
                + "| File Name | Coverage  | Untested Lines  |\n|-----------|-----------|-----------------|\n"@
                + report_rows_chars(owner, repo, branch, records[latest_idx(records)].files)
                + "\n"@,
        )
    } else {
        None
    }
}

/// Build one row of a branch report's file table.
fn report_row(
    owner: &str,
    repo: &str,
    branch: &str,
    file: &str,
    rec: &FileCoverageRecord,
) -> (r: String)
    ensures
        r@ == report_row_chars(owner@, repo@, branch@, file@, *rec),
{
    let mut r: String = "| [".to_owned();
    r.append(file);
    r.append("](");
    r.append("https://github.com/");
    r.append(owner);
    r.append("/");
    r.append(repo);
    r.append("/blob/");
    r.append(branch);
    r.append("/");
    r.append(file);
    r.append(") | ");
    let cov: String = percent_string(rec.percentage);
    r.append(cov.as_str());
    r.append("% | ");
    let lines: String = build_lines(owner, repo, branch, file, &rec.untested_lines);
    r.append(lines.as_str());
    r.append(" |");
    proof {
        assert(r@ =~= report_row_chars(owner@, repo@, branch@, file@, *rec));
    }
    r
}

/// Build the markdown coverage report of one branch, or `None` when the
/// collection is empty or its newest timestamp does not render as a date.
#[verifier::rlimit(80)]
pub fn build_coverage_report(
    target_repo_owner: &str,
    target_repo: &str,
    branch: &str,
    record_collection: &BranchCoverageRecordCollection,
) -> (r: Option<String>)
    requires
        record_collection.wf(),
    ensures
        r is Some <==> report_chars(
            target_repo_owner@,
            target_repo@,
            branch@,
            *record_collection,
        ) is Some,
        r matches Some(s) ==> report_chars(
            target_repo_owner@,
            target_repo@,
            branch@,
            *record_collection,
        ) matches Some(cs) && s@ == cs,
{
    let latest = match record_collection.latest() {
        Some(l) => l,
        None => {
            return None;
        },
    };
    let time_text: String = match format_timestamp(latest.timestamp) {
        Some(s) => s,
        None => {
            return None;
        },
    };
    let last_delta: i16 = match record_collection.last_delta() {
        Some(d) => d,
        None => {
            proof {
                assert(false);
            }
            0
        },
    };
    let delta7: i16 = match record_collection.delta_last_7_days() {
        Some(d) => d,
        None => {
            proof {
                lemma_delta_duration_some(record_collection.records@, 604800);
            }
            0
        },
    };
    let delta30: i16 = match record_collection.delta_last_30_days() {
        Some(d) => d,
        None => {
            proof {
                lemma_delta_duration_some(record_collection.records@, 2592000);
            }
            0
        },
    };
    let delta90: i16 = match record_collection.delta_last_90_days() {
        Some(d) => d,
        None => {
            proof {
                lemma_delta_duration_some(record_collection.records@, 7776000);
            }
            0
        },
    };
    let mut rows: String = "".to_owned();
    proof {
        reveal_strlit("");
    }
    match &latest.files {
        Some(fs) => {
            let ghost parts = Seq::new(
                fs@.len(),
                |i: int|
                    report_row_chars(
                        target_repo_owner@,
                        target_repo@,
                        branch@,
                        fs@[i].0@,
                        fs@[i].1,
                    ),
            );
            for i in 0..fs.len()
                invariant
                    parts == Seq::new(
                        fs@.len(),
                        |i: int|
                            report_row_chars(
                                target_repo_owner@,
                                target_repo@,
                                branch@,
                                fs@[i].0@,
                                fs@[i].1,
                            ),
                    ),
                    rows@ == join_chars(parts.subrange(0, i as int), Seq::<char>::empty()),
            {
                let row: String = report_row(
                    target_repo_owner,
                    target_repo,
                    branch,
                    fs[i].0.as_str(),
                    &fs[i].1,
                );
                rows.append(row.as_str());
                proof {
                    assert(parts.subrange(0, i + 1 as int).drop_last() =~= parts.subrange(
                        0,
                        i as int,
                    ));
                    assert(parts.subrange(0, i + 1 as int).last() == parts[i as int]);
                    assert(rows@ =~= join_chars(
                        parts.subrange(0, i + 1 as int),
                        Seq::<char>::empty(),
                    ));
                }
            }
            proof {
                assert(parts.subrange(0, parts.len() as int) =~= parts);
            }
        },
        None => {},
    }
    let mut r: String = "# [".to_owned();
    r.append(target_repo_owner);
    r.append("/");
    r.append(target_repo);
    r.append("](https://github.com/");
    r.append(target_repo_owner);
    r.append("/");
    r.append(target_repo);
    r.append("/)\n\n### Branch: `");
    r.append(branch);
    r.append("`\n### Responsible Team: ");
    let team_name: String = record_collection.team.display_name();
    r.append(team_name.as_str());
    r.append("\n\n#### Last Updated: ");
    r.append(time_text.as_str());
    r.append("\n#### Coverage: ");
    let cov: String = percent_string(latest.percentage);
    r.append(cov.as_str());
    r.append("%\n#### Last Delta: ");
    let ld: String = i16_to_string(last_delta);
    r.append(ld.as_str());
    r.append("%\n#### 7 Day Delta: ");
    let d7: String = i16_to_string(delta7);
    r.append(d7.as_str());
    r.append("%\n#### 30 Day Delta: ");
    let d30: String = i16_to_string(delta30);
    r.append(d30.as_str());
    r.append("%\n#### 90 Day Delta: ");
    let d90: String = i16_to_string(delta90);
    r.append(d90.as_str());
    r.append("%\n\n");
    r.append("| File Name | Coverage  | Untested Lines  |\n|-----------|-----------|-----------------|\n");
    r.append(rows.as_str());
    r.append("\n");
    proof {
        assert(r@ =~= report_chars(
            target_repo_owner@,
            target_repo@,
            branch@,
            *record_collection,
        ).unwrap());
    }
    Some(r)
}

} // verus!
