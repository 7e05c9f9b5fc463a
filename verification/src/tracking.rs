//! The per-branch snapshot store: an append-only collection of timestamped
//! coverage records with 90-day retention, fixed-point percentage storage,
//! and windowed delta queries.

use vstd::prelude::*;
use vstd::string::StringExecFns;
use crate::coverage::{CoverageRatio, ratio_basis_points};
use crate::text::str_eq;

verus! {

/// Seconds in ninety days: the retention window of the store.
pub const RETENTION_SECONDS: i64 = 7776000;

/// The team a tracked project belongs to.
#[derive(Clone, Copy, Debug, PartialEq, Eq, Hash, Structural)]
pub enum Team {
    InstantMessaging,
    Workflow,
    Infrastructure,
    Product,
    Security,
    Other,
}

/// The identifier under which a team is written and parsed.
pub open spec fn team_code_name(t: Team) -> Seq<char> {
    match t {
        Team::InstantMessaging => "InstantMessaging"@,
        Team::Workflow => "Workflow"@,
        Team::Infrastructure => "Infrastructure"@,
        Team::Product => "Product"@,
        Team::Security => "Security"@,
        Team::Other => "Other"@,
    }
}

/// The name under which a team is displayed.
pub open spec fn team_display_name(t: Team) -> Seq<char> {
    match t {
        Team::InstantMessaging => "Instant Messaging"@,
        Team::Workflow => "Workflow"@,
        Team::Infrastructure => "Infrastructure"@,
        Team::Product => "Product"@,
        Team::Security => "Security"@,
        Team::Other => "Other"@,
    }
}

/// Error returned when a string names no team.
#[derive(Debug, Clone, Copy, PartialEq, Eq, Structural)]
pub struct TeamFromStrError;

impl TeamFromStrError {
    /// The message shown for an unparsable team name.
    pub fn message(&self) -> (r: String)
        ensures
            r@
                == "Invalid Team (expected one of `InstantMessaging`, `Workflow`, `Infrastructure`, `Product`, `Security`, `Other`)"@,
    {
        "Invalid Team (expected one of `InstantMessaging`, `Workflow`, `Infrastructure`, `Product`, `Security`, `Other`)".to_owned()
    }
}

impl Team {
    /// The team's display name.
    pub fn display_name(&self) -> (r: String)
        ensures
            r@ == team_display_name(*self),
    {
        match self {
            Team::InstantMessaging => "Instant Messaging".to_owned(),
            Team::Workflow => "Workflow".to_owned(),
            Team::Infrastructure => "Infrastructure".to_owned(),
            Team::Product => "Product".to_owned(),
            Team::Security => "Security".to_owned(),
            Team::Other => "Other".to_owned(),
        }
    }

    /// Parse a team from its identifier; errs on anything else.
    pub fn from_str(s: &str) -> (r: Result<Team, TeamFromStrError>)
        ensures
            r matches Ok(t) ==> team_code_name(t) == s@,
            r is Err ==> {
                &&& s@ != team_code_name(Team::InstantMessaging)
                &&& s@ != team_code_name(Team::Workflow)
                &&& s@ != team_code_name(Team::Infrastructure)
                &&& s@ != team_code_name(Team::Product)
                &&& s@ != team_code_name(Team::Security)
                &&& s@ != team_code_name(Team::Other)
            },
    {
        if str_eq(s, "InstantMessaging") {
            Ok(Team::InstantMessaging)
        } else if str_eq(s, "Workflow") {
            Ok(Team::Workflow)
        } else if str_eq(s, "Infrastructure") {
            Ok(Team::Infrastructure)
        } else if str_eq(s, "Product") {
            Ok(Team::Product)
        } else if str_eq(s, "Security") {
            Ok(Team::Security)
        } else if str_eq(s, "Other") {
            Ok(Team::Other)
        } else {
            Err(TeamFromStrError)
        }
    }
}

/// A coverage record for one file: its percentage in basis points and its
/// untested lines.
#[derive(Debug, Clone, PartialEq, Eq)]
pub struct FileCoverageRecord {
    /// File coverage percentage in basis points.
    pub percentage: i16,
    /// List of untested lines.
    pub untested_lines: Vec<u32>,
}

impl FileCoverageRecord {
    /// Build a record from an exact coverage ratio.
    pub fn new(percentage: CoverageRatio, untested_lines: Vec<u32>) -> (r: Self)
        requires
            percentage.hit <= u128::MAX / 20000,
        ensures
            r.percentage == ratio_basis_points(percentage),
            r.untested_lines == untested_lines,
    {
        FileCoverageRecord { percentage: percentage.basis_points(), untested_lines }
    }
}

/// One coverage snapshot of a branch: when it was taken, the branch's
/// percentage in basis points, and — only on the newest snapshot —
/// per-file detail as a list of path/record pairs with unique paths.
#[derive(Debug, PartialEq, Eq)]
pub struct BranchCoverageRecord {
    /// Timestamp the record was produced at, in Unix seconds.
    pub timestamp: i64,
    /// Coverage percentage multiplied by 100 stored as an i16.
    pub percentage: i16,
    /// Per-file coverage records, present only on the newest entry.
    pub files: Option<Vec<(String, FileCoverageRecord)>>,
}

/// All stored percentages lie in basis-point range; deltas of two of them
/// then always fit in an i16.
pub open spec fn records_wf(records: Seq<BranchCoverageRecord>) -> bool {
    forall|i: int|
        0 <= i < records.len() ==> -10000 <= (#[trigger] records[i]).percentage <= 10000
}

/// The index of the newest snapshot: maximal timestamp, first among equals.
pub open spec fn is_latest_idx(records: Seq<BranchCoverageRecord>, i: int) -> bool {
    &&& 0 <= i < records.len()
    &&& forall|j: int|
        0 <= j < records.len() ==> (#[trigger] records[j]).timestamp <= records[i].timestamp
    &&& forall|j: int| 0 <= j < i ==> (#[trigger] records[j]).timestamp < records[i].timestamp
}

/// There is exactly one index satisfying `is_latest_idx`.
pub proof fn lemma_latest_idx_unique(records: Seq<BranchCoverageRecord>, i: int, j: int)
    requires
        is_latest_idx(records, i),
        is_latest_idx(records, j),
    ensures
        i == j,
{
    if i < j {
        assert(records[i].timestamp < records[j].timestamp);
        assert(records[j].timestamp <= records[i].timestamp);
    } else if j < i {
        assert(records[j].timestamp < records[i].timestamp);
        assert(records[i].timestamp <= records[j].timestamp);
    }
}

/// The index of the newest snapshot of a non-empty record list.
pub open spec fn latest_idx(records: Seq<BranchCoverageRecord>) -> int {
    choose|i: int| is_latest_idx(records, i)
}

/// A collection of the snapshots of one branch.
#[derive(Debug, PartialEq, Eq)]
pub struct BranchCoverageRecordCollection {
    /// Team responsible for this project's branch.
    pub team: Team,
    /// Branch records, in storage order.
    pub records: Vec<BranchCoverageRecord>,
}

impl BranchCoverageRecordCollection {
    /// All stored percentages lie in basis-point range.
    pub open spec fn wf(&self) -> bool {
        records_wf(self.records@)
    }

    /// Find the index of the newest snapshot, or `None` when the
    /// collection is empty. Ties go to the snapshot stored first.
    fn latest_index(&self) -> (r: Option<usize>)
        ensures
            r is Some <==> self.records@.len() > 0,
            r matches Some(i) ==> is_latest_idx(self.records@, i as int),
    {
        let n: usize = self.records.len();
        if n == 0 {
            return None;
        }
        let mut best: usize = 0;
        for j in 1..n
            invariant
                n == self.records@.len(),
                0 <= best < j <= n,
                forall|k: int|
                    0 <= k < j ==> (#[trigger] self.records@[k]).timestamp
                        <= self.records@[best as int].timestamp,
                forall|k: int|
                    0 <= k < best ==> (#[trigger] self.records@[k]).timestamp
                        < self.records@[best as int].timestamp,
        {
            if self.records[j].timestamp > self.records[best].timestamp {
                best = j;
            }
        }
        Some(best)
    }

    /// The newest snapshot, or `None` when the collection is empty. Among
    /// snapshots sharing the maximal timestamp, the one stored first.
    pub fn latest(&self) -> (r: Option<&BranchCoverageRecord>)
        ensures
            r is Some <==> self.records@.len() > 0,
            r matches Some(rec) ==> is_latest_idx(self.records@, latest_idx(self.records@))
                && *rec == self.records@[latest_idx(self.records@)],
    {
        match self.latest_index() {
            Some(i) => {
                proof {
                    lemma_latest_idx_unique(self.records@, latest_idx(self.records@), i as int);
                }
                Some(&self.records[i])
            },
            None => None,
        }
    }

    /// The maximal timestamp among the snapshots, or `None` when the
    /// collection is empty.
    pub fn latest_timestamp(&self) -> (r: Option<i64>)
        ensures
            r is Some <==> self.records@.len() > 0,
            r matches Some(ts) ==> is_latest_idx(self.records@, latest_idx(self.records@))
                && ts == self.records@[latest_idx(self.records@)].timestamp,
    {
        match self.latest() {
            Some(rec) => Some(rec.timestamp),
            None => None,
        }
    }

    /// The delta of the two newest snapshots: `None` on an empty
    /// collection, the sole snapshot's percentage when there is only one,
    /// and otherwise newest minus second newest (in basis points).
    pub fn last_delta(&self) -> (r: Option<i16>)
        requires
            self.wf(),
        ensures
            r == spec_last_delta(self.records@),
    {
        let n: usize = self.records.len();
        if n == 0 {
            return None;
        }
        let li: usize = match self.latest_index() {
            Some(i) => i,
            None => {
                return None;
            },
        };
        if n == 1 {
            proof {
                lemma_latest_idx_unique(self.records@, latest_idx(self.records@), li as int);
            }
            return Some(self.records[0].percentage);
        }
        // second newest: the newest among the remaining snapshots, again
        // first among equals in storage order
        let mut si: usize = if li == 0 {
            1
        } else {
            0
        };
        for j in 0..n
            invariant
                n == self.records@.len(),
                n >= 2,
                li < n,
                si < n,
                si != li,
                li == 0 ==> si >= 1,
                forall|k: int|
                    0 <= k < j && k != li ==> (#[trigger] self.records@[k]).timestamp
                        <= self.records@[si as int].timestamp,
                forall|k: int|
                    0 <= k < si && k != li ==> (#[trigger] self.records@[k]).timestamp
                        < self.records@[si as int].timestamp,
        {
            if j != li && self.records[j].timestamp > self.records[si].timestamp {
                si = j;
            }
        }
        let ghost records = self.records@;
        let ghost rest = records.remove(li as int);
        let ghost si_r: int = if (si as int) < li as int {
            si as int
        } else {
            si as int - 1
        };
        proof {
            lemma_latest_idx_unique(records, latest_idx(records), li as int);
            assert forall|k: int| 0 <= k < rest.len() implies (#[trigger] rest[k]).timestamp
                <= rest[si_r].timestamp by {
                if k < li as int {
                    assert(rest[k] == records[k]);
                } else {
                    assert(rest[k] == records[k + 1]);
                }
            }
            assert forall|k: int| 0 <= k < si_r implies (#[trigger] rest[k]).timestamp
                < rest[si_r].timestamp by {
                if k < li as int {
                    assert(rest[k] == records[k]);
                } else {
                    assert(rest[k] == records[k + 1]);
                }
            }
            assert(is_latest_idx(rest, si_r));
            lemma_latest_idx_unique(rest, latest_idx(rest), si_r);
            assert(-10000 <= records[li as int].percentage <= 10000);
            assert(-10000 <= records[si as int].percentage <= 10000);
        }
        Some(self.records[li].percentage - self.records[si].percentage)
    }

    /// The delta of the snapshots falling in the inclusive window
    /// `[period_start_ts, period_end_ts]`: `None` when none falls in it,
    /// the sole snapshot's percentage when exactly one does, and otherwise
    /// the newest one's percentage minus the oldest one's.
    pub fn delta(&self, period_start_ts: i64, period_end_ts: i64) -> (r: Option<i16>)
        requires
            self.wf(),
        ensures
            r == spec_delta(self.records@, period_start_ts, period_end_ts),
    {
        let ghost pred = window_pred(period_start_ts, period_end_ts);
        let mut pairs: Vec<(i64, i16)> = Vec::new();
        let n: usize = self.records.len();
        proof {
            reveal(Seq::filter);
            assert(self.records@.subrange(0, 0).filter(pred) =~= Seq::<
                BranchCoverageRecord,
            >::empty());
        }
        for i in 0..n
            invariant
                n == self.records@.len(),
                records_wf(self.records@),
                pred == window_pred(period_start_ts, period_end_ts),
                pairs_match(self.records@.subrange(0, i as int).filter(pred), pairs@),
                forall|k: int| 0 <= k < pairs@.len() ==> -10000 <= (#[trigger] pairs@[k]).1 <= 10000,
        {
            let ghost fpre = self.records@.subrange(0, i as int).filter(pred);
            let rec = &self.records[i];
            if rec.timestamp >= period_start_ts && rec.timestamp <= period_end_ts {
                pairs.push((rec.timestamp, rec.percentage));
            }
            proof {
                reveal(Seq::filter);
                let sub1 = self.records@.subrange(0, i + 1 as int);
                assert(sub1.drop_last() =~= self.records@.subrange(0, i as int));
                assert(sub1.last() == self.records@[i as int]);
                assert(sub1.filter(pred) == if pred(self.records@[i as int]) {
                    fpre.push(self.records@[i as int])
                } else {
                    fpre
                });
                let f1 = sub1.filter(pred);
                assert forall|k: int| 0 <= k < f1.len() implies (#[trigger] pairs@[k]).0
                    == f1[k].timestamp && pairs@[k].1 == f1[k].percentage by {
                    if k < fpre.len() {
                        assert(f1[k] == fpre[k]);
                    } else {
                        assert(f1[k] == self.records@[i as int]);
                    }
                }
            }
        }
        proof {
            assert(self.records@.subrange(0, n as int) =~= self.records@);
        }
        let ghost f = self.records@.filter(pred);
        let cnt: usize = pairs.len();
        if cnt == 0 {
            return None;
        }
        if cnt == 1 {
            return Some(pairs[0].1);
        }
        let mut oldest: usize = 0;
        let mut newest: usize = 0;
        for j in 1..cnt
            invariant
                cnt == pairs@.len(),
                oldest < j <= cnt,
                newest < j,
                f == self.records@.filter(window_pred(period_start_ts, period_end_ts)),
                pairs_match(f, pairs@),
                forall|k: int| 0 <= k < j ==> (#[trigger] pairs@[k]).0 >= pairs@[oldest as int].0,
                forall|k: int| 0 <= k < oldest ==> (#[trigger] pairs@[k]).0 > pairs@[oldest as int].0,
                forall|k: int| 0 <= k < j ==> (#[trigger] pairs@[k]).0 <= pairs@[newest as int].0,
                forall|k: int|
                    newest < k < j ==> (#[trigger] pairs@[k]).0 < pairs@[newest as int].0,
        {
            if pairs[j].0 < pairs[oldest].0 {
                oldest = j;
            }
            if pairs[j].0 >= pairs[newest].0 {
                newest = j;
            }
        }
        proof {
            assert forall|k: int| 0 <= k < f.len() implies (#[trigger] f[k]).timestamp
                >= f[oldest as int].timestamp by {
                assert(pairs@[k].0 == f[k].timestamp);
                assert(pairs@[k].0 >= pairs@[oldest as int].0);
            }
            assert forall|k: int| 0 <= k < oldest as int implies (#[trigger] f[k]).timestamp
                > f[oldest as int].timestamp by {
                assert(pairs@[k].0 == f[k].timestamp);
                assert(pairs@[k].0 > pairs@[oldest as int].0);
            }
            assert forall|k: int| 0 <= k < f.len() implies (#[trigger] f[k]).timestamp
                <= f[newest as int].timestamp by {
                assert(pairs@[k].0 == f[k].timestamp);
                assert(pairs@[k].0 <= pairs@[newest as int].0);
            }
            assert forall|k: int| (newest as int) < k < f.len() implies (#[trigger] f[k]).timestamp
                < f[newest as int].timestamp by {
                assert(pairs@[k].0 == f[k].timestamp);
                assert(pairs@[k].0 < pairs@[newest as int].0);
            }
            assert(is_first_min(f, oldest as int));
            assert(is_last_max(f, newest as int));
            lemma_first_min_unique(f, first_min_idx(f), oldest as int);
            lemma_last_max_unique(f, last_max_idx(f), newest as int);
        }
        Some(pairs[newest].1 - pairs[oldest].1)
    }
}

/// The window predicate of `delta`.
pub open spec fn window_pred(start: i64, end: i64) -> spec_fn(BranchCoverageRecord) -> bool {
    |r: BranchCoverageRecord| start <= r.timestamp && r.timestamp <= end
}

/// The exec pair list mirrors a filtered record sequence, timestamp and
/// percentage each.
pub open spec fn pairs_match(f: Seq<BranchCoverageRecord>, pairs: Seq<(i64, i16)>) -> bool {
    &&& pairs.len() == f.len()
    &&& forall|k: int|
        0 <= k < f.len() ==> (#[trigger] pairs[k]).0 == f[k].timestamp && pairs[k].1
            == f[k].percentage
}

/// The index of the oldest snapshot of a list: minimal timestamp, first
/// among equals.
pub open spec fn is_first_min(records: Seq<BranchCoverageRecord>, i: int) -> bool {
    &&& 0 <= i < records.len()
    &&& forall|j: int|
        0 <= j < records.len() ==> (#[trigger] records[j]).timestamp >= records[i].timestamp
    &&& forall|j: int| 0 <= j < i ==> (#[trigger] records[j]).timestamp > records[i].timestamp
}

/// The index of the newest snapshot of a list: maximal timestamp, last
/// among equals.
pub open spec fn is_last_max(records: Seq<BranchCoverageRecord>, i: int) -> bool {
    &&& 0 <= i < records.len()
    &&& forall|j: int|
        0 <= j < records.len() ==> (#[trigger] records[j]).timestamp <= records[i].timestamp
    &&& forall|j: int| i < j < records.len() ==> (#[trigger] records[j]).timestamp < records[i].timestamp
}

pub open spec fn first_min_idx(records: Seq<BranchCoverageRecord>) -> int {
    choose|i: int| is_first_min(records, i)
}

pub open spec fn last_max_idx(records: Seq<BranchCoverageRecord>) -> int {
    choose|i: int| is_last_max(records, i)
}

pub proof fn lemma_first_min_unique(records: Seq<BranchCoverageRecord>, i: int, j: int)
    requires
        is_first_min(records, i),
        is_first_min(records, j),
    ensures
        i == j,
{
}

pub proof fn lemma_last_max_unique(records: Seq<BranchCoverageRecord>, i: int, j: int)
    requires
        is_last_max(records, i),
        is_last_max(records, j),
    ensures
        i == j,
{
}

/// What `last_delta` returns: nothing on an empty collection, the sole
/// percentage when there is one snapshot, and otherwise the newest
/// snapshot's percentage minus the second newest one's.
pub open spec fn spec_last_delta(records: Seq<BranchCoverageRecord>) -> Option<i16> {
    if records.len() == 0 {
        None
    } else if records.len() == 1 {
        Some(records[0].percentage)
    } else {
        let li = latest_idx(records);
        let rest = records.remove(li);
        Some((records[li].percentage - rest[latest_idx(rest)].percentage) as i16)
    }
}

/// What `delta` returns over the window's snapshots: nothing when none
/// falls in the window, the raw percentage when exactly one does, and
/// otherwise newest minus oldest.
pub open spec fn spec_delta(
    records: Seq<BranchCoverageRecord>,
    start: i64,
    end: i64,
) -> Option<i16> {
    let f = records.filter(window_pred(start, end));
    if f.len() == 0 {
        None
    } else if f.len() == 1 {
        Some(f[0].percentage)
    } else {
        Some((f[last_max_idx(f)].percentage - f[first_min_idx(f)].percentage) as i16)
    }
}

/// The blob path under which a branch's snapshot collection is stored.
pub open spec fn report_path_chars(
    owner: Seq<char>,
    repo: Seq<char>,
    branch: Seq<char>,
) -> Seq<char> {
    owner + "/"@ + repo + "/"@ + branch + ".meowcov.json"@
}

/// Make the report path of a branch: `{owner}/{repo}/{branch}.meowcov.json`.
pub fn make_report_path(owner: &str, repo: &str, branch: &str) -> (r: String)
    ensures
        r@ == report_path_chars(owner@, repo@, branch@),
{
    let mut r: String = owner.to_owned();
    r.append("/");
    r.append(repo);
    r.append("/");
    r.append(branch);
    r.append(".meowcov.json");
    proof {
        assert(r@ =~= report_path_chars(owner@, repo@, branch@));
    }
    r
}

/// Split an `OWNER/REPO` name at its first slash; errs when there is no
/// slash.
pub fn split_repo_name(name: &str) -> (r: Result<(String, String), crate::MeowCoverageError>)
    ensures
        r matches Ok(parts) ==> {
            &&& name@ == parts.0@ + "/"@ + parts.1@
            &&& forall|k: int| 0 <= k < parts.0@.len() ==> !crate::helpers::occurs_at(name@, "/"@, k)
        },
        r matches Err(e) ==> e is RepoNameMissingSlash && (forall|k: int|
            !crate::helpers::occurs_at(name@, "/"@, k)),
{
    match crate::helpers::split_once_str(name, "/") {
        Some((owner, repo)) => Ok((owner.to_owned(), repo.to_owned())),
        None => Err(crate::MeowCoverageError::RepoNameMissingSlash),
    }
}

/// Clamp a mathematical integer into the i64 range.
pub open spec fn clamp_i64(x: int) -> i64 {
    if x < i64::MIN {
        i64::MIN
    } else if x > i64::MAX {
        i64::MAX
    } else {
        x as i64
    }
}

/// What `delta_duration` returns: the windowed delta over the window that
/// ends at the newest snapshot and starts `seconds` earlier (clamped to
/// representable timestamps), or `None` on an empty collection.
pub open spec fn spec_delta_duration(records: Seq<BranchCoverageRecord>, seconds: i64) -> Option<
    i16,
> {
    if records.len() == 0 {
        None
    } else {
        let end = records[latest_idx(records)].timestamp;
        spec_delta(records, clamp_i64(end - seconds), end)
    }
}

/// Every non-empty record list has a newest snapshot.
pub proof fn lemma_latest_exists(records: Seq<BranchCoverageRecord>)
    requires
        records.len() > 0,
    ensures
        exists|i: int| is_latest_idx(records, i),
    decreases records.len(),
{
    if records.len() == 1 {
        assert(is_latest_idx(records, 0));
    } else {
        let pre = records.drop_last();
        lemma_latest_exists(pre);
        let i = choose|i: int| is_latest_idx(pre, i);
        assert(forall|j: int| 0 <= j < pre.len() ==> pre[j] == records[j]);
        if records.last().timestamp > pre[i].timestamp {
            assert forall|j: int| 0 <= j < records.len() - 1 implies (
            #[trigger] records[j]).timestamp < records[records.len() - 1].timestamp by {
                assert(pre[j].timestamp <= pre[i].timestamp);
            }
            assert(is_latest_idx(records, records.len() - 1));
        } else {
            assert(is_latest_idx(records, i));
        }
    }
}

/// A non-empty collection always yields a windowed delta over any
/// non-negative duration: the newest snapshot itself falls in the window.
pub proof fn lemma_delta_duration_some(records: Seq<BranchCoverageRecord>, seconds: i64)
    requires
        records.len() > 0,
        seconds >= 0,
    ensures
        spec_delta_duration(records, seconds) is Some,
{
    lemma_latest_exists(records);
    let li = latest_idx(records);
    assert(is_latest_idx(records, li));
    let end = records[li].timestamp;
    let start = clamp_i64(end - seconds);
    let pred = window_pred(start, end);
    assert(pred(records[li]));
    records.lemma_filter_contains(pred, li);
    let f = records.filter(pred);
    assert(f.contains(records[li]));
    assert(f.len() > 0);
}

/// The retention predicate: a snapshot stays when its timestamp is at or
/// after the cutoff.
pub open spec fn retained_pred(cutoff: i64) -> spec_fn(BranchCoverageRecord) -> bool {
    |r: BranchCoverageRecord| r.timestamp >= cutoff
}

/// The snapshot that `add_new_record` appends.
pub open spec fn new_snapshot(
    now: i64,
    bp: i16,
    files: Vec<(String, FileCoverageRecord)>,
) -> BranchCoverageRecord {
    BranchCoverageRecord { timestamp: now, percentage: bp, files: Some(files) }
}

/// The maximal timestamp of a non-empty record list.
pub open spec fn spec_max_ts(records: Seq<BranchCoverageRecord>) -> i64 {
    records[latest_idx(records)].timestamp
}

/// A snapshot with its per-file detail kept or cleared.
pub open spec fn strip_detail(rec: BranchCoverageRecord, keep: bool) -> BranchCoverageRecord {
    if keep {
        rec
    } else {
        BranchCoverageRecord { files: None, ..rec }
    }
}

/// All snapshots with their per-file detail cleared, except the newest —
/// the one `latest` returns: maximal timestamp, first stored among equals.
pub open spec fn strip_old_details(records: Seq<BranchCoverageRecord>) -> Seq<
    BranchCoverageRecord,
> {
    Seq::new(records.len(), |i: int| strip_detail(records[i], i == latest_idx(records)))
}

/// Law: after an append, at most one snapshot carries per-file detail —
/// the one `latest` returns; every snapshot at any other index has it
/// cleared.
pub proof fn lemma_detail_only_on_newest(records: Seq<BranchCoverageRecord>)
    ensures
        forall|i: int|
            0 <= i < strip_old_details(records).len() ==> ((#[trigger] strip_old_details(
                records,
            )[i]).files is Some ==> i == latest_idx(records)),
{
}

/// Law: after an append at time `now`, no snapshot older than the
/// ninety-day cutoff remains — `add_new_record`'s result only holds
/// snapshots at or after it.
pub proof fn lemma_append_retains_only_recent(records: Seq<BranchCoverageRecord>, cutoff: i64)
    ensures
        forall|i: int|
            0 <= i < strip_old_details(records.filter(retained_pred(cutoff))).len()
                ==> (#[trigger] strip_old_details(records.filter(retained_pred(cutoff)))[
            i]).timestamp >= cutoff,
{
    let f = records.filter(retained_pred(cutoff));
    let out = strip_old_details(f);
    assert forall|i: int| 0 <= i < out.len() implies (#[trigger] out[i]).timestamp >= cutoff by {
        records.lemma_filter_pred(retained_pred(cutoff), i);
        assert(out[i].timestamp == f[i].timestamp);
    }
}

/// Reverse a record list.
fn reversed_records(v: Vec<BranchCoverageRecord>) -> (r: Vec<BranchCoverageRecord>)
    ensures
        r@.len() == v@.len(),
        forall|k: int| 0 <= k < r@.len() ==> r@[k] == v@[v@.len() - 1 - k],
{
    let ghost orig = v@;
    let mut v = v;
    let mut r: Vec<BranchCoverageRecord> = Vec::new();
    while v.len() > 0
        invariant
            v@ == orig.subrange(0, v@.len() as int),
            r@.len() + v@.len() == orig.len(),
            forall|k: int| 0 <= k < r@.len() ==> r@[k] == orig[orig.len() - 1 - k],
        decreases v@.len(),
    {
        let ghost pre = v@;
        let rec = v.pop().unwrap();
        r.push(rec);
        proof {
            assert(rec == orig[v@.len() as int]);
            assert(v@ =~= orig.subrange(0, v@.len() as int));
        }
    }
    r
}

impl BranchCoverageRecordCollection {
    /// Drop every snapshot older than ninety days before `current_time`;
    /// storage order and everything else stay as they were.
    pub fn remove_old_records(&mut self, current_time: i64)
        requires
            current_time >= i64::MIN + RETENTION_SECONDS,
        ensures
            final(self).team == old(self).team,
            final(self).records@ == old(self).records@.filter(
                retained_pred((current_time - RETENTION_SECONDS) as i64),
            ),
            records_wf(old(self).records@) ==> records_wf(final(self).records@),
    {
        let cutoff: i64 = current_time - RETENTION_SECONDS;
        let ghost pred = retained_pred(cutoff);
        let ghost orig = self.records@;
        let mut tmp: Vec<BranchCoverageRecord> = Vec::new();
        core::mem::swap(&mut tmp, &mut self.records);
        let mut rev: Vec<BranchCoverageRecord> = reversed_records(tmp);
        proof {
            reveal(Seq::filter);
            assert(orig.subrange(0, 0).filter(pred) =~= Seq::<BranchCoverageRecord>::empty());
        }
        while rev.len() > 0
            invariant
                pred == retained_pred(cutoff),
                rev@.len() <= orig.len(),
                forall|k: int| 0 <= k < rev@.len() ==> rev@[k] == orig[orig.len() - 1 - k],
                self.records@ == orig.subrange(0, orig.len() - rev@.len()).filter(pred),
                self.team == old(self).team,
                records_wf(orig) ==> records_wf(self.records@),
            decreases rev@.len(),
        {
            let ghost done = orig.len() - rev@.len();
            let ghost fpre = orig.subrange(0, done).filter(pred);
            let rec = rev.pop().unwrap();
            proof {
                assert(rec == orig[done]);
            }
            if rec.timestamp >= cutoff {
                self.records.push(rec);
            }
            proof {
                reveal(Seq::filter);
                let sub1 = orig.subrange(0, done + 1);
                assert(sub1.drop_last() =~= orig.subrange(0, done));
                assert(sub1.last() == orig[done]);
            }
        }
        proof {
            assert(orig.subrange(0, orig.len() as int) =~= orig);
        }
    }

    /// Append a snapshot taken at `now` with the given overall ratio and
    /// per-file detail, drop snapshots older than ninety days before
    /// `now`, and clear the per-file detail of every remaining snapshot
    /// except the newest (the one `latest` returns). Eviction runs before
    /// detail-stripping, so an append at a fresh timestamp never strips
    /// the snapshot it just added.
    pub fn add_new_record(
        &mut self,
        percentage: CoverageRatio,
        files: Vec<(String, FileCoverageRecord)>,
        now: i64,
    )
        requires
            old(self).wf(),
            percentage.hit <= u128::MAX / 20000,
            now >= i64::MIN + RETENTION_SECONDS,
        ensures
            final(self).team == old(self).team,
            final(self).records@ == strip_old_details(
                old(self).records@.push(
                    new_snapshot(now, (ratio_basis_points(percentage)) as i16, files),
                ).filter(retained_pred((now - RETENTION_SECONDS) as i64)),
            ),
            final(self).wf(),
    {
        let bp: i16 = percentage.basis_points();
        self.records.push(BranchCoverageRecord { timestamp: now, percentage: bp, files: Some(files) });
        let ghost pushed = self.records@;
        self.remove_old_records(now);
        let ghost mid = self.records@;
        proof {
            let cutoff = (now - RETENTION_SECONDS) as i64;
            assert(retained_pred(cutoff)(pushed.last()));
            pushed.lemma_filter_contains(retained_pred(cutoff), pushed.len() - 1);
            assert(mid.contains(pushed.last()));
            assert(mid.len() > 0);
        }
        let li: usize = match self.latest_index() {
            Some(i) => i,
            None => {
                proof {
                    assert(false);
                }
                0
            },
        };
        proof {
            lemma_latest_idx_unique(mid, latest_idx(mid), li as int);
        }
        let mut tmp: Vec<BranchCoverageRecord> = Vec::new();
        core::mem::swap(&mut tmp, &mut self.records);
        let mut rev: Vec<BranchCoverageRecord> = reversed_records(tmp);
        while rev.len() > 0
            invariant
                rev@.len() <= mid.len(),
                forall|k: int| 0 <= k < rev@.len() ==> rev@[k] == mid[mid.len() - 1 - k],
                self.records@.len() == mid.len() - rev@.len(),
                li < mid.len(),
                li as int == latest_idx(mid),
                forall|k: int|
                    0 <= k < self.records@.len() ==> self.records@[k] == strip_detail(
                        mid[k],
                        k == li as int,
                    ),
                self.team == old(self).team,
                records_wf(mid) ==> records_wf(self.records@),
            decreases rev@.len(),
        {
            let ghost done = mid.len() - rev@.len();
            let rec = rev.pop().unwrap();
            proof {
                assert(rec == mid[done]);
            }
            if self.records.len() == li {
                self.records.push(rec);
            } else {
                self.records.push(
                    BranchCoverageRecord {
                        timestamp: rec.timestamp,
                        percentage: rec.percentage,
                        files: None,
                    },
                );
            }
        }
        proof {
            assert(self.records@ =~= strip_old_details(mid));
        }
    }

    /// The windowed delta over the window ending at the newest snapshot
    /// and starting `duration_seconds` earlier.
    pub fn delta_duration(&self, duration_seconds: i64) -> (r: Option<i16>)
        requires
            self.wf(),
        ensures
            r == spec_delta_duration(self.records@, duration_seconds),
    {
        let end: i64 = match self.latest_timestamp() {
            Some(e) => e,
            None => {
                return None;
            },
        };
        let start_wide: i128 = end as i128 - duration_seconds as i128;
        let start: i64 = if start_wide < i64::MIN as i128 {
            i64::MIN
        } else if start_wide > i64::MAX as i128 {
            i64::MAX
        } else {
            start_wide as i64
        };
        self.delta(start, end)
    }

    /// The delta over the 7 days up to the newest snapshot.
    pub fn delta_last_7_days(&self) -> (r: Option<i16>)
        requires
            self.wf(),
        ensures
            r == spec_delta_duration(self.records@, 604800),
    {
        self.delta_duration(604800)
    }

    /// The delta over the 30 days up to the newest snapshot.
    pub fn delta_last_30_days(&self) -> (r: Option<i16>)
        requires
            self.wf(),
        ensures
            r == spec_delta_duration(self.records@, 2592000),
    {
        self.delta_duration(2592000)
    }

    /// The delta over the 90 days up to the newest snapshot.
    pub fn delta_last_90_days(&self) -> (r: Option<i16>)
        requires
            self.wf(),
        ensures
            r == spec_delta_duration(self.records@, RETENTION_SECONDS),
    {
        self.delta_duration(RETENTION_SECONDS)
    }
}

} // verus!
