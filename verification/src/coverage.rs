//! Decoded line-coverage records, exact coverage ratios, and the grouping of
//! a record stream into per-file coverage data.

use vstd::prelude::*;
use crate::ranges::{sort_dedup, sort_dedup_lines};
use crate::MeowCoverageError;
use lcov::{Reader, Record};

verus! {

/// One entry of a decoded line-coverage report stream. Order matters: a
/// `SourceFile` opens a new file context, and the entries that follow belong
/// to it until the next `SourceFile`.
#[derive(Debug, Clone, PartialEq, Eq)]
pub enum CoverageRecord {
    /// Opens the context of a new source file.
    SourceFile { path: String },
    /// Execution count for one line of the current file.
    LineData { line: u32, count: u64 },
    /// Total number of lines of the current file with a non-zero count.
    LinesHit { hit: u32 },
    /// Total number of instrumented lines of the current file.
    LinesFound { found: u32 },
    /// Any other record kind; carried through but ignored by the grouping.
    Other,
}

/// An exact coverage ratio: `hit` lines covered out of `found` instrumented
/// lines. It stands for the percentage `100 * hit / found`; when `found == 0`
/// that percentage is undefined, and `is_finite` is false. Callers decide how
/// to render the undefined case.
#[derive(Debug, Clone, Copy, PartialEq, Eq, Structural)]
pub struct CoverageRatio {
    pub hit: u128,
    pub found: u128,
}

/// The basis-point encoding of a ratio: the percentage `100 * hit / found`,
/// scaled by 100 and rounded to the nearest integer (ties round away from
/// zero), clamped to at most 10000. A ratio with `found == 0` encodes as 0
/// when nothing was hit and as 10000 otherwise.
pub open spec fn ratio_basis_points(r: CoverageRatio) -> int {
    if r.found == 0 {
        if r.hit == 0 {
            0int
        } else {
            10000int
        }
    } else {
        let rounded = (10000 * r.hit + r.found / 2) / (r.found as int);
        if rounded > 10000 {
            10000int
        } else {
            rounded
        }
    }
}

/// The basis-point encoding of a percentage given in thousandths of a
/// percent: clamp to [-100000, 100000], divide by ten rounding to the
/// nearest integer with ties away from zero. The result always lies in
/// [-10000, 10000].
pub open spec fn milli_basis_points(milli: int) -> int {
    let clamped = if milli < -100000 {
        -100000int
    } else if milli > 100000 {
        100000int
    } else {
        milli
    };
    if clamped >= 0 {
        (clamped + 5) / 10
    } else {
        -((-clamped + 5) / 10)
    }
}

impl CoverageRatio {
    /// True when the percentage this ratio stands for is defined.
    pub open spec fn is_finite(self) -> bool {
        self.found > 0
    }

    /// Percentage scaled to basis points, rounded to nearest with ties away
    /// from zero and clamped to [0, 10000].
    pub fn basis_points(&self) -> (bp: i16)
        requires
            self.hit <= u128::MAX / 20000,
        ensures
            bp == ratio_basis_points(*self),
            0 <= bp <= 10000,
    {
        if self.found == 0 {
            if self.hit == 0 {
                0
            } else {
                10000
            }
        } else {
            let scaled: u128 = 10000 * self.hit + self.found / 2;
            let rounded: u128 = scaled / self.found;
            if rounded > 10000 {
                10000
            } else {
                rounded as i16
            }
        }
    }
}

/// Encode a percentage given in thousandths of a percent as basis points,
/// clamping to [-10000, 10000]; ties round away from zero.
pub fn make_percent(percentage_milli: i64) -> (bp: i16)
    ensures
        bp == milli_basis_points(percentage_milli as int),
        -10000 <= bp <= 10000,
{
    let clamped: i64 = if percentage_milli < -100000 {
        -100000
    } else if percentage_milli > 100000 {
        100000
    } else {
        percentage_milli
    };
    if clamped >= 0 {
        ((clamped + 5) / 10) as i16
    } else {
        (-((-clamped + 5) / 10)) as i16
    }
}

/// A per-file coverage report: the file's name, its coverage ratio (absent
/// until both line totals have been seen for the file), and its untested
/// lines sorted ascending with duplicates removed.
#[derive(Debug, Clone)]
pub struct LcovFileCoverage {
    /// File name.
    pub filename: String,
    /// Coverage ratio of the file, if its totals were reported.
    pub percentage: Option<CoverageRatio>,
    /// Untested lines (execution count zero), ascending and
    /// duplicate-free.
    pub lines: Vec<u32>,
}

/// Mathematical image of one grouped file: its name, ratio, and untested
/// lines in stream order (not yet sorted).
pub ghost struct GroupFile {
    pub name: Seq<char>,
    pub percentage: Option<CoverageRatio>,
    pub lines: Seq<u32>,
}

/// State of the grouping pass: the files opened so far and the buffered
/// line totals of the current file.
pub ghost struct GroupState {
    pub files: Seq<GroupFile>,
    pub pending_hit: Option<u32>,
    pub pending_found: Option<u32>,
}

/// The grouping state before any record has been consumed.
pub open spec fn group_init() -> GroupState {
    GroupState { files: Seq::empty(), pending_hit: None, pending_found: None }
}

/// How one record changes the grouping state. A `SourceFile` opens a new
/// file and clears the buffered totals; a `LineData` with count zero adds
/// the line to the current file; a `LinesHit`/`LinesFound` is buffered until
/// its counterpart arrives, at which point the current file's ratio is set
/// and both buffers are cleared.
pub open spec fn group_step(st: GroupState, r: CoverageRecord) -> GroupState {
    match r {
        CoverageRecord::SourceFile { path } => GroupState {
            files: st.files.push(GroupFile { name: path@, percentage: None, lines: Seq::empty() }),
            pending_hit: None,
            pending_found: None,
        },
        CoverageRecord::LineData { line, count } => {
            if count == 0 && st.files.len() > 0 {
                let last = st.files.last();
                GroupState {
                    files: st.files.update(
                        st.files.len() - 1,
                        GroupFile { lines: last.lines.push(line), ..last },
                    ),
                    ..st
                }
            } else {
                st
            }
        },
        CoverageRecord::LinesHit { hit } => {
            match st.pending_found {
                Some(found) => {
                    let files = if st.files.len() > 0 {
                        let last = st.files.last();
                        st.files.update(
                            st.files.len() - 1,
                            GroupFile {
                                percentage: Some(
                                    CoverageRatio { hit: hit as u128, found: found as u128 },
                                ),
                                ..last
                            },
                        )
                    } else {
                        st.files
                    };
                    GroupState { files, pending_hit: None, pending_found: None }
                },
                None => GroupState { pending_hit: Some(hit), ..st },
            }
        },
        CoverageRecord::LinesFound { found } => {
            match st.pending_hit {
                Some(hit) => {
                    let files = if st.files.len() > 0 {
                        let last = st.files.last();
                        st.files.update(
                            st.files.len() - 1,
                            GroupFile {
                                percentage: Some(
                                    CoverageRatio { hit: hit as u128, found: found as u128 },
                                ),
                                ..last
                            },
                        )
                    } else {
                        st.files
                    };
                    GroupState { files, pending_hit: None, pending_found: None }
                },
                None => GroupState { pending_found: Some(found), ..st },
            }
        },
        CoverageRecord::Other => st,
    }
}

/// The grouping state after consuming a whole record stream.
pub open spec fn group_run(records: Seq<CoverageRecord>) -> GroupState
    decreases records.len(),
{
    if records.len() == 0 {
        group_init()
    } else {
        group_step(group_run(records.drop_last()), records.last())
    }
}

/// An output file agrees with its mathematical image: same name, same
/// ratio, and its lines are the image's lines sorted ascending with
/// duplicates removed.
pub open spec fn file_matches(out: LcovFileCoverage, gf: GroupFile) -> bool {
    &&& out.filename@ == gf.name
    &&& out.percentage == gf.percentage
    &&& out.lines@ == sort_dedup(gf.lines)
}

/// The grouped output of a record stream: one entry per `SourceFile`
/// record, each matching its mathematical image.
pub open spec fn group_matches(records: Seq<CoverageRecord>, out: Seq<LcovFileCoverage>) -> bool {
    let gs = group_run(records);
    &&& out.len() == gs.files.len()
    &&& forall|i: int| 0 <= i < out.len() ==> file_matches(#[trigger] out[i], gs.files[i])
}

/// Number of `SourceFile` records in a stream.
pub open spec fn spec_file_count(records: Seq<CoverageRecord>) -> int
    decreases records.len(),
{
    if records.len() == 0 {
        0
    } else {
        spec_file_count(records.drop_last()) + (match records.last() {
            CoverageRecord::SourceFile { .. } => 1int,
            _ => 0int,
        })
    }
}

/// Sum of all `LinesHit` totals in a stream.
pub open spec fn spec_hit_sum(records: Seq<CoverageRecord>) -> int
    decreases records.len(),
{
    if records.len() == 0 {
        0
    } else {
        spec_hit_sum(records.drop_last()) + (match records.last() {
            CoverageRecord::LinesHit { hit } => hit as int,
            _ => 0int,
        })
    }
}

/// Sum of all `LinesFound` totals in a stream.
pub open spec fn spec_found_sum(records: Seq<CoverageRecord>) -> int
    decreases records.len(),
{
    if records.len() == 0 {
        0
    } else {
        spec_found_sum(records.drop_last()) + (match records.last() {
            CoverageRecord::LinesFound { found } => found as int,
            _ => 0int,
        })
    }
}

/// The record stream that the `lcov` crate decodes, line by line and in
/// textual order, out of the bytes of a coverage report, or `None` when
/// some line does not parse.
pub uninterp spec fn lcov_records_of(report: Seq<u8>) -> Option<Seq<CoverageRecord>>;

/// Relies on the `lcov` crate: `Reader` decodes one record per line, a
/// function of the report bytes alone, and record parsing never panics —
/// every bad line comes back as its error. The length bound keeps the
/// reader's `u32` line counter (stepped once per line) from overflowing.
/// Each record kind the grouping reads is carried over field by field; all
/// others come through as `Other`.
#[verifier::external_body]
fn parse_lcov_records(report: &[u8]) -> (r: Result<Vec<CoverageRecord>, String>)
    requires
        report@.len() < 0xffff_ffff,
    ensures
        r is Ok <==> lcov_records_of(report@) is Some,
        r matches Ok(recs) ==> lcov_records_of(report@) matches Some(s) && recs@ == s,
{
    Reader::new(report).map(|rec|
        rec.map(|rec| match rec {
            Record::SourceFile { path } => CoverageRecord::SourceFile {
                path: path.to_string_lossy().to_string(),
            },
            Record::LineData { line, count, .. } => CoverageRecord::LineData { line, count },
            Record::LinesHit { hit } => CoverageRecord::LinesHit { hit },
            Record::LinesFound { found } => CoverageRecord::LinesFound { found },
            _ => CoverageRecord::Other,
        })
    ).collect::<Result<Vec<_>, _>>().map_err(|e| format!("{}", e))
}

/// Operations over a decoded coverage record stream.
#[derive(Debug)]
pub struct LcovWrapper {
    records: Vec<CoverageRecord>,
}

impl View for LcovWrapper {
    type V = Seq<CoverageRecord>;

    closed spec fn view(&self) -> Seq<CoverageRecord> {
        self.records@
    }
}

impl LcovWrapper {
    /// Wrap an already decoded record stream.
    pub fn new(records: Vec<CoverageRecord>) -> (s: Self)
        ensures
            s@ == records@,
    {
        LcovWrapper { records }
    }

    /// Decode the bytes of an LCOV report and wrap its records. Fails with
    /// `LcovParse` exactly when the report is too large for the reader's
    /// line counter or some line of it does not parse.
    pub fn with_report(report: &[u8]) -> (r: Result<Self, MeowCoverageError>)
        ensures
            r is Ok <==> report@.len() < 0xffff_ffff && lcov_records_of(report@) is Some,
            r matches Ok(w) ==> lcov_records_of(report@) matches Some(s) && w@ == s,
            r matches Err(e) ==> e is LcovParse,
    {
        if report.len() >= 0xffff_ffff {
            return Err(
                MeowCoverageError::LcovParse(
                    "the report has more bytes than the line counter supports".to_owned(),
                ),
            );
        }
        match parse_lcov_records(report) {
            Ok(records) => Ok(LcovWrapper { records }),
            Err(msg) => Err(MeowCoverageError::LcovParse(msg)),
        }
    }

    /// Number of files present in the report.
    pub fn file_count(&self) -> (count: usize)
        ensures
            count == spec_file_count(self@),
    {
        let mut count: usize = 0;
        let n: usize = self.records.len();
        for i in 0..n
            invariant
                n == self@.len(),
                count == spec_file_count(self@.subrange(0, i as int)),
                count <= i,
        {
            match self.records[i] {
                CoverageRecord::SourceFile { .. } => {
                    count += 1;
                },
                _ => {},
            }
            proof {
                assert(self@.subrange(0, i + 1 as int).drop_last() =~= self@.subrange(0, i as int));
            }
        }
        proof {
            assert(self@.subrange(0, n as int) =~= self@);
        }
        count
    }

    /// The overall coverage ratio: all `LinesHit` totals summed over all
    /// `LinesFound` totals. The ratio is undefined (`found == 0`) when the
    /// report has no `LinesFound` totals.
    pub fn percentage(&self) -> (r: CoverageRatio)
        ensures
            r.hit == spec_hit_sum(self@),
            r.found == spec_found_sum(self@),
            r.hit <= u128::MAX / 20000,
    {
        let mut hit: u128 = 0;
        let mut found: u128 = 0;
        let n: usize = self.records.len();
        for i in 0..n
            invariant
                n == self@.len(),
                hit == spec_hit_sum(self@.subrange(0, i as int)),
                found == spec_found_sum(self@.subrange(0, i as int)),
                hit <= 0xffff_ffff * (i as int),
                found <= 0xffff_ffff * (i as int),
        {
            match self.records[i] {
                CoverageRecord::LinesHit { hit: h } => {
                    hit += h as u128;
                },
                CoverageRecord::LinesFound { found: f } => {
                    found += f as u128;
                },
                _ => {},
            }
            proof {
                assert(self@.subrange(0, i + 1 as int).drop_last() =~= self@.subrange(0, i as int));
            }
        }
        proof {
            assert(self@.subrange(0, n as int) =~= self@);
        }
        CoverageRatio { hit, found }
    }

    /// Group the record stream into per-file coverage: one entry per
    /// `SourceFile` record, carrying the file's ratio (once both totals have
    /// been seen) and its untested lines sorted ascending, each line once.
    pub fn group_data(&self) -> (r: Vec<LcovFileCoverage>)
        ensures
            group_matches(self@, r@),
    {
        let mut done: Vec<LcovFileCoverage> = Vec::new();
        let mut has_cur: bool = false;
        let mut cur_name: String = String::new();
        let mut cur_pct: Option<CoverageRatio> = None;
        let mut cur_lines: Vec<u32> = Vec::new();
        let mut p_hit: Option<u32> = None;
        let mut p_found: Option<u32> = None;
        let n: usize = self.records.len();
        for i in 0..n
            invariant
                n == self@.len(),
                group_inv(
                    group_run(self@.subrange(0, i as int)),
                    done@,
                    has_cur,
                    cur_name@,
                    cur_pct,
                    cur_lines@,
                    p_hit,
                    p_found,
                ),
        {
            let ghost pre = group_run(self@.subrange(0, i as int));
            match &self.records[i] {
                CoverageRecord::SourceFile { path } => {
                    if has_cur {
                        let finished = LcovFileCoverage {
                            filename: cur_name,
                            percentage: cur_pct,
                            lines: sort_dedup_lines(&cur_lines),
                        };
                        done.push(finished);
                    }
                    has_cur = true;
                    cur_name = path.clone();
                    cur_pct = None;
                    cur_lines = Vec::new();
                    p_hit = None;
                    p_found = None;
                },
                CoverageRecord::LineData { line, count } => {
                    if *count == 0 && has_cur {
                        cur_lines.push(*line);
                    }
                },
                CoverageRecord::LinesHit { hit } => {
                    match p_found {
                        Some(found) => {
                            if has_cur {
                                cur_pct = Some(
                                    CoverageRatio { hit: *hit as u128, found: found as u128 },
                                );
                            }
                            p_hit = None;
                            p_found = None;
                        },
                        None => {
                            p_hit = Some(*hit);
                        },
                    }
                },
                CoverageRecord::LinesFound { found } => {
                    match p_hit {
                        Some(hit) => {
                            if has_cur {
                                cur_pct = Some(
                                    CoverageRatio { hit: hit as u128, found: *found as u128 },
                                );
                            }
                            p_hit = None;
                            p_found = None;
                        },
                        None => {
                            p_found = Some(*found);
                        },
                    }
                },
                CoverageRecord::Other => {},
            }
            proof {
                assert(self@.subrange(0, i + 1 as int).drop_last() =~= self@.subrange(0, i as int));
                assert(group_run(self@.subrange(0, i + 1 as int)) == group_step(
                    pre,
                    self@[i as int],
                ));
            }
        }
        if has_cur {
            let finished = LcovFileCoverage {
                filename: cur_name,
                percentage: cur_pct,
                lines: sort_dedup_lines(&cur_lines),
            };
            done.push(finished);
        }
        proof {
            assert(self@.subrange(0, n as int) =~= self@);
        }
        done
    }
}

/// The grouping state after consuming further records from a given state.
pub open spec fn group_run_from(st: GroupState, records: Seq<CoverageRecord>) -> GroupState
    decreases records.len(),
{
    if records.len() == 0 {
        st
    } else {
        group_step(group_run_from(st, records.drop_last()), records.last())
    }
}

/// Folding a concatenation is folding the two parts in turn.
pub proof fn lemma_group_run_split(s1: Seq<CoverageRecord>, s2: Seq<CoverageRecord>)
    ensures
        group_run(s1 + s2) == group_run_from(group_run(s1), s2),
    decreases s2.len(),
{
    if s2.len() == 0 {
        assert(s1 + s2 =~= s1);
    } else {
        lemma_group_run_split(s1, s2.drop_last());
        assert((s1 + s2).drop_last() =~= s1 + s2.drop_last());
        assert((s1 + s2).last() == s2.last());
    }
}

/// Law: a file whose two line totals arrive while no other totals are
/// buffered gets exactly the ratio of those totals — the percentage is
/// `100 * hit / found` with no rounding — and that percentage is defined
/// exactly when the found total is not zero.
pub proof fn lemma_grouper_percentage(pre: Seq<CoverageRecord>, h: u32, f: u32)
    requires
        group_run(pre).pending_hit is None,
        group_run(pre).pending_found is None,
        group_run(pre).files.len() > 0,
    ensures
        ({
            let st = group_run(pre + seq![
                CoverageRecord::LinesHit { hit: h },
                CoverageRecord::LinesFound { found: f },
            ]);
            &&& st.files.len() == group_run(pre).files.len()
            &&& st.files.last().percentage == Some(
                CoverageRatio { hit: h as u128, found: f as u128 },
            )
            &&& (st.files.last().percentage.unwrap().is_finite() <==> f != 0)
        }),
{
    let st = group_run(pre);
    let rec_h = CoverageRecord::LinesHit { hit: h };
    let rec_f = CoverageRecord::LinesFound { found: f };
    let totals = seq![rec_h, rec_f];
    lemma_group_run_split(pre, totals);
    assert(totals.drop_last() =~= seq![rec_h]);
    assert(seq![rec_h].drop_last() =~= Seq::<CoverageRecord>::empty());
    assert(group_run_from(st, Seq::<CoverageRecord>::empty()) == st);
    assert(group_run_from(st, seq![rec_h]) == group_step(st, rec_h));
    assert(group_run_from(st, totals) == group_step(group_run_from(st, seq![rec_h]), rec_f));
}

/// Law: the two line totals of a file may arrive in either order; as long
/// as no other totals are buffered, the grouping state comes out the same,
/// whatever records follow.
pub proof fn lemma_grouper_ordering_independence(
    pre: Seq<CoverageRecord>,
    h: u32,
    f: u32,
    post: Seq<CoverageRecord>,
)
    requires
        group_run(pre).pending_hit is None,
        group_run(pre).pending_found is None,
    ensures
        group_run(
            pre + seq![
                CoverageRecord::LinesHit { hit: h },
                CoverageRecord::LinesFound { found: f },
            ] + post,
        ) == group_run(
            pre + seq![
                CoverageRecord::LinesFound { found: f },
                CoverageRecord::LinesHit { hit: h },
            ] + post,
        ),
{
    let st = group_run(pre);
    let rec_h = CoverageRecord::LinesHit { hit: h };
    let rec_f = CoverageRecord::LinesFound { found: f };
    let hf = seq![rec_h, rec_f];
    let fh = seq![rec_f, rec_h];
    assert(hf.drop_last() =~= seq![rec_h]);
    assert(fh.drop_last() =~= seq![rec_f]);
    assert(seq![rec_h].drop_last() =~= Seq::<CoverageRecord>::empty());
    assert(seq![rec_f].drop_last() =~= Seq::<CoverageRecord>::empty());
    lemma_group_run_split(pre, hf);
    lemma_group_run_split(pre, fh);
    assert(group_run_from(st, Seq::<CoverageRecord>::empty()) == st);
    assert(group_run_from(st, seq![rec_h]) == group_step(st, rec_h));
    assert(group_run_from(st, seq![rec_f]) == group_step(st, rec_f));
    assert(group_run_from(st, hf) == group_step(group_run_from(st, seq![rec_h]), rec_f));
    assert(group_run_from(st, fh) == group_step(group_run_from(st, seq![rec_f]), rec_h));
    let st_hf = group_run_from(st, hf);
    let st_fh = group_run_from(st, fh);
    assert(st_hf.files =~= st_fh.files);
    assert(st_hf == st_fh);
    lemma_group_run_split(pre + hf, post);
    lemma_group_run_split(pre + fh, post);
    assert(group_run(pre + hf) == group_run(pre + fh));
}

/// Relation between the exec state of the grouping pass and its
/// mathematical image: the finished files match the image's files except
/// the last, which — when a file is open — is carried in the current-file
/// accumulators with its lines still unsorted.
pub open spec fn group_inv(
    gs: GroupState,
    done: Seq<LcovFileCoverage>,
    has_cur: bool,
    cur_name: Seq<char>,
    cur_pct: Option<CoverageRatio>,
    cur_lines: Seq<u32>,
    p_hit: Option<u32>,
    p_found: Option<u32>,
) -> bool {
    &&& p_hit == gs.pending_hit
    &&& p_found == gs.pending_found
    &&& has_cur <==> gs.files.len() > 0
    &&& if has_cur {
        &&& done.len() + 1 == gs.files.len()
        &&& cur_name == gs.files.last().name
        &&& cur_pct == gs.files.last().percentage
        &&& cur_lines == gs.files.last().lines
    } else {
        done.len() == gs.files.len()
    }
    &&& forall|k: int| 0 <= k < done.len() ==> file_matches(#[trigger] done[k], gs.files[k])
}

} // verus!
