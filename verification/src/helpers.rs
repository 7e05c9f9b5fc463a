//! Path helpers and the attribution of line numbers to unified-diff hunks.

use vstd::prelude::*;
use vstd::string::StringExecFns;

verus! {

/// The kind of one line of a unified-diff hunk, as seen from the new file:
/// freshly added, unchanged context, or removed (no position in the new
/// file).
#[derive(Debug, Clone, Copy, PartialEq, Eq, Structural)]
pub enum DiffLine {
    Added,
    Context,
    Removed,
}

/// One `@@ ... @@` block of a unified diff: where its lines start in the
/// new file, how many lines of the new file it spans, and its lines in
/// order.
#[derive(Debug, Clone)]
pub struct DiffHunk {
    /// First line of the hunk in the new file.
    pub new_start: u64,
    /// Number of lines of the new file the hunk covers.
    pub new_count: u64,
    /// The hunk's lines, in order.
    pub lines: Vec<DiffLine>,
}

/// The cursor walk over a hunk's lines: an `Added` line matches the target
/// exactly when the cursor sits on it; `Added` and `Context` lines advance
/// the cursor by one; `Removed` lines have no position in the new file and
/// leave the cursor alone.
pub open spec fn walk_changed(lines: Seq<DiffLine>, cursor: int, target: int) -> bool
    decreases lines.len(),
{
    if lines.len() == 0 {
        false
    } else {
        match lines.first() {
            DiffLine::Added => cursor == target || walk_changed(
                lines.drop_first(),
                cursor + 1,
                target,
            ),
            DiffLine::Context => walk_changed(lines.drop_first(), cursor + 1, target),
            DiffLine::Removed => walk_changed(lines.drop_first(), cursor, target),
        }
    }
}

/// A line of the new file falls in a hunk's new range.
pub open spec fn in_new_range(h: DiffHunk, line: u64) -> bool {
    h.new_start <= line < h.new_start + h.new_count
}

/// Whether `target` was added by this hunk: it lies in the hunk's new
/// range, and the cursor walk meets it on an `Added` line.
pub open spec fn spec_line_changed_in_hunk(h: DiffHunk, target: u64) -> bool {
    &&& in_new_range(h, target)
    &&& walk_changed(h.lines@, h.new_start as int, target as int)
}

/// Once the cursor has passed the target, the walk can never match: the
/// cursor never decreases.
proof fn lemma_walk_past_target(lines: Seq<DiffLine>, cursor: int, target: int)
    requires
        cursor > target,
    ensures
        !walk_changed(lines, cursor, target),
    decreases lines.len(),
{
    if lines.len() > 0 {
        match lines.first() {
            DiffLine::Added => lemma_walk_past_target(lines.drop_first(), cursor + 1, target),
            DiffLine::Context => lemma_walk_past_target(lines.drop_first(), cursor + 1, target),
            DiffLine::Removed => lemma_walk_past_target(lines.drop_first(), cursor, target),
        }
    }
}

/// Decide whether `target_line` (an absolute line number in the new file)
/// was added by this hunk. A line that merely appears as context is not
/// attributed to the hunk.
pub fn line_changed_in_hunk(hunk: &DiffHunk, target_line: u64) -> (b: bool)
    ensures
        b == spec_line_changed_in_hunk(*hunk, target_line),
{
    if target_line < hunk.new_start {
        return false;
    }
    if hunk.new_count <= target_line - hunk.new_start {
        return false;
    }
    let mut cursor: u64 = hunk.new_start;
    let n: usize = hunk.lines.len();
    proof {
        assert(hunk.lines@.skip(0) =~= hunk.lines@);
    }
    for i in 0..n
        invariant
            n == hunk.lines@.len(),
            in_new_range(*hunk, target_line),
            hunk.new_start <= cursor <= target_line,
            walk_changed(hunk.lines@.skip(i as int), cursor as int, target_line as int)
                == walk_changed(hunk.lines@, hunk.new_start as int, target_line as int),
    {
        let ghost tail = hunk.lines@.skip(i as int);
        proof {
            assert(tail.first() == hunk.lines@[i as int]);
            assert(tail.drop_first() =~= hunk.lines@.skip(i + 1 as int));
        }
        match hunk.lines[i] {
            DiffLine::Added => {
                if cursor == target_line {
                    return true;
                }
                cursor += 1;
            },
            DiffLine::Context => {
                if cursor >= target_line {
                    proof {
                        lemma_walk_past_target(
                            hunk.lines@.skip(i + 1 as int),
                            cursor + 1 as int,
                            target_line as int,
                        );
                    }
                    return false;
                }
                cursor += 1;
            },
            DiffLine::Removed => {},
        }
    }
    proof {
        assert(hunk.lines@.skip(n as int) =~= Seq::<DiffLine>::empty());
    }
    false
}

/// Whether a single hunk's new range contains both line numbers; used to
/// decide whether two attributed lines may share one range.
pub open spec fn spec_lines_in_same_hunk(hunks: Seq<DiffHunk>, line1: u64, line2: u64) -> bool {
    exists|i: int|
        0 <= i < hunks.len() && in_new_range(#[trigger] hunks[i], line1) && in_new_range(
            hunks[i],
            line2,
        )
}

/// True exactly when some single hunk's new range contains both lines.
pub fn lines_in_same_hunk(hunks: &Vec<DiffHunk>, line1: u64, line2: u64) -> (b: bool)
    ensures
        b == spec_lines_in_same_hunk(hunks@, line1, line2),
{
    let n: usize = hunks.len();
    for i in 0..n
        invariant
            n == hunks@.len(),
            forall|k: int|
                0 <= k < i ==> !(in_new_range(#[trigger] hunks@[k], line1) && in_new_range(
                    hunks@[k],
                    line2,
                )),
    {
        let h = &hunks[i];
        let in1: bool = line1 >= h.new_start && line1 - h.new_start < h.new_count;
        let in2: bool = line2 >= h.new_start && line2 - h.new_start < h.new_count;
        if in1 && in2 {
            return true;
        }
    }
    false
}

/// How far the new-file cursor has advanced after the first `j` lines of a
/// hunk: every line but a `Removed` one advances it by one.
pub open spec fn new_file_offset(lines: Seq<DiffLine>, j: int) -> int
    decreases j,
{
    if j <= 0 {
        0
    } else {
        new_file_offset(lines, j - 1) + (match lines[j - 1] {
            DiffLine::Removed => 0int,
            _ => 1int,
        })
    }
}

proof fn lemma_offset_drop_first(lines: Seq<DiffLine>, j: int)
    requires
        1 <= j <= lines.len(),
    ensures
        new_file_offset(lines, j) == new_file_offset(lines.drop_first(), j - 1) + (match lines[0] {
            DiffLine::Removed => 0int,
            _ => 1int,
        }),
    decreases j,
{
    let rest = lines.drop_first();
    if j == 1 {
        assert(new_file_offset(lines, 0) == 0);
        assert(new_file_offset(rest, 0) == 0);
    } else {
        lemma_offset_drop_first(lines, j - 1);
        assert(rest[j - 2] == lines[j - 1]);
        assert(new_file_offset(rest, j - 1) == new_file_offset(rest, j - 2) + (match rest[j - 2] {
            DiffLine::Removed => 0int,
            _ => 1int,
        }));
        assert(new_file_offset(lines, j) == new_file_offset(lines, j - 1) + (match lines[j - 1] {
            DiffLine::Removed => 0int,
            _ => 1int,
        }));
    }
}

proof fn lemma_offset_monotone(lines: Seq<DiffLine>, k: int, j: int)
    requires
        0 <= k <= j,
    ensures
        new_file_offset(lines, j) >= new_file_offset(lines, k),
    decreases j - k,
{
    if k < j {
        lemma_offset_monotone(lines, k, j - 1);
    }
}

/// The cursor walk matches exactly the targets that sit on an `Added` line:
/// the cursor at line `j` stands at `cursor + new_file_offset(lines, j)`.
proof fn lemma_walk_characterisation(lines: Seq<DiffLine>, cursor: int, target: int)
    ensures
        walk_changed(lines, cursor, target) <==> exists|j: int|
            0 <= j < lines.len() && lines[j] is Added && cursor + new_file_offset(lines, j)
                == target,
    decreases lines.len(),
{
    if lines.len() > 0 {
        let rest = lines.drop_first();
        let adv: int = match lines[0] {
            DiffLine::Removed => 0,
            _ => 1,
        };
        lemma_walk_characterisation(rest, cursor + adv, target);
        assert forall|j: int| 1 <= j < lines.len() implies new_file_offset(lines, j) == adv
            + new_file_offset(rest, j - 1) by {
            lemma_offset_drop_first(lines, j);
        }
        if lines[0] is Added && cursor == target {
            assert(new_file_offset(lines, 0) == 0);
        }
        if walk_changed(lines, cursor, target) {
            if lines[0] is Added && cursor == target {
                assert(0 <= 0 < lines.len() && lines[0] is Added && cursor + new_file_offset(
                    lines,
                    0,
                ) == target);
            } else {
                assert(walk_changed(rest, cursor + adv, target));
                let jr = choose|jr: int|
                    0 <= jr < rest.len() && rest[jr] is Added && (cursor + adv)
                        + new_file_offset(rest, jr) == target;
                assert(lines[jr + 1] == rest[jr]);
                assert(cursor + new_file_offset(lines, jr + 1) == target);
            }
        }
        if exists|j: int|
            0 <= j < lines.len() && lines[j] is Added && cursor + new_file_offset(lines, j)
                == target {
            let j = choose|j: int|
                0 <= j < lines.len() && lines[j] is Added && cursor + new_file_offset(lines, j)
                    == target;
            if j == 0 {
                assert(cursor == target);
                assert(walk_changed(lines, cursor, target));
            } else {
                assert(rest[j - 1] == lines[j]);
                assert((cursor + adv) + new_file_offset(rest, j - 1) == target);
                assert(walk_changed(rest, cursor + adv, target));
            }
        }
    }
}

/// Law: a hunk never attributes the line just before its new range, nor
/// the line just past it.
pub proof fn lemma_attributor_boundary(h: DiffHunk)
    ensures
        h.new_start > 0 ==> !spec_line_changed_in_hunk(h, (h.new_start - 1) as u64),
        h.new_start + h.new_count <= u64::MAX ==> !spec_line_changed_in_hunk(
            h,
            (h.new_start + h.new_count) as u64,
        ),
{
}

/// Law: a line that sits at an `Added` position of a hunk, within the
/// hunk's new range, is attributed to the hunk.
pub proof fn lemma_attributor_added(h: DiffHunk, j: int, target: u64)
    requires
        0 <= j < h.lines@.len(),
        h.lines@[j] is Added,
        target == h.new_start + new_file_offset(h.lines@, j),
        in_new_range(h, target),
    ensures
        spec_line_changed_in_hunk(h, target),
{
    lemma_walk_characterisation(h.lines@, h.new_start as int, target as int);
}

/// Law: a line that sits at a `Context` position of a hunk is not
/// attributed to the hunk — it exists in the new file, but the hunk did
/// not add it.
pub proof fn lemma_attributor_context(h: DiffHunk, j: int, target: u64)
    requires
        0 <= j < h.lines@.len(),
        h.lines@[j] is Context,
        target == h.new_start + new_file_offset(h.lines@, j),
    ensures
        !spec_line_changed_in_hunk(h, target),
{
    lemma_walk_characterisation(h.lines@, h.new_start as int, target as int);
    assert forall|k: int|
        0 <= k < h.lines@.len() && h.lines@[k] is Added implies h.new_start + new_file_offset(
        h.lines@,
        k,
    ) != target by {
        if k < j {
            assert(new_file_offset(h.lines@, k + 1) == new_file_offset(h.lines@, k) + 1);
            lemma_offset_monotone(h.lines@, k + 1, j);
        } else if k > j {
            assert(new_file_offset(h.lines@, j + 1) == new_file_offset(h.lines@, j) + 1);
            lemma_offset_monotone(h.lines@, j + 1, k);
        }
    }
}

/// An ASCII decimal digit.
pub open spec fn is_ascii_digit(c: char) -> bool {
    '0' <= c <= '9'
}

/// Index of the first newline at or after `i`, or the text's length when
/// none remains: the exclusive end of the line starting at `i`.
pub open spec fn line_end(s: Seq<char>, i: int) -> int
    decreases s.len() - i,
{
    if i >= s.len() {
        s.len() as int
    } else if s[i] == '\n' {
        i
    } else {
        line_end(s, i + 1)
    }
}

/// In a newline-terminated text, every line ends before the text does.
proof fn lemma_line_end_before_end(s: Seq<char>, i: int)
    requires
        0 <= i < s.len(),
        s[s.len() - 1] == '\n',
    ensures
        i <= line_end(s, i) < s.len(),
        s[line_end(s, i)] == '\n',
    decreases s.len() - i,
{
    if s[i] != '\n' {
        lemma_line_end_before_end(s, i + 1);
    }
}

/// The first non-digit position at or after `i`.
pub open spec fn digits_end(s: Seq<char>, i: int) -> int
    decreases s.len() - i,
{
    if i >= s.len() {
        s.len() as int
    } else if is_ascii_digit(s[i]) {
        digits_end(s, i + 1)
    } else {
        i
    }
}

/// Where a hunk-header range field (`digits`, optionally `,digits`) ends,
/// or `None` when it is malformed or a digit run is too long to fit the
/// parser's 64-bit integers (a nineteen-digit number always fits).
pub open spec fn range_end_at(s: Seq<char>, i: int) -> Option<int> {
    let d1 = digits_end(s, i);
    if d1 == i || d1 - i > 19 {
        None
    } else if d1 < s.len() && s[d1] == ',' {
        let d2 = digits_end(s, d1 + 1);
        if d2 == d1 + 1 || d2 - (d1 + 1) > 19 {
            None
        } else {
            Some(d2)
        }
    } else {
        Some(d1)
    }
}

/// The line `[p, e)` is a well-formed hunk header: `@@ -` range ` +`
/// range ` @@`, then anything up to the line's end (the hint).
pub open spec fn is_hunk_header_at(s: Seq<char>, p: int, e: int) -> bool {
    &&& p + 4 <= e
    &&& s[p] == '@' && s[p + 1] == '@' && s[p + 2] == ' ' && s[p + 3] == '-'
    &&& match range_end_at(s, p + 4) {
        None => false,
        Some(q1) => {
            &&& q1 + 2 <= e
            &&& s[q1] == ' ' && s[q1 + 1] == '+'
            &&& match range_end_at(s, q1 + 2) {
                None => false,
                Some(q2) => q2 + 3 <= e && s[q2] == ' ' && s[q2 + 1] == '@' && s[q2 + 2] == '@',
            }
        },
    }
}

/// The line `[p, e)` is a hunk body line: it starts with `+`, `-` or a
/// space, but not with `+++ ` or `--- ` (which the parser reserves for
/// file headers and refuses inside a hunk).
pub open spec fn is_body_at(s: Seq<char>, p: int, e: int) -> bool {
    &&& p < e
    &&& (s[p] == '+' || s[p] == '-' || s[p] == ' ')
    &&& !(p + 4 <= e && s[p] == '+' && s[p + 1] == '+' && s[p + 2] == '+' && s[p + 3] == ' ')
    &&& !(p + 4 <= e && s[p] == '-' && s[p + 1] == '-' && s[p + 2] == '-' && s[p + 3] == ' ')
}

/// The text of the missing-final-newline marker.
pub open spec fn no_newline_marker() -> Seq<char> {
    "\\ No newline at end of file"@
}

/// The line `[p, e)` is exactly the missing-final-newline marker.
pub open spec fn is_marker_at(s: Seq<char>, p: int, e: int) -> bool {
    s.subrange(p, e) == no_newline_marker()
}

/// Only newline characters remain from `p` on.
pub open spec fn only_newlines_from(s: Seq<char>, p: int) -> bool {
    forall|j: int| p <= j < s.len() ==> s[j] == '\n'
}

/// What may follow the hunks: optionally the missing-final-newline
/// marker, then nothing but blank lines.
pub open spec fn diff_trailer_at(s: Seq<char>, p: int) -> bool {
    let e = line_end(s, p);
    if is_marker_at(s, p, e) {
        only_newlines_from(s, e + 1)
    } else {
        only_newlines_from(s, p)
    }
}

/// From a line start `p` on, the text is a run of newline-terminated hunk
/// header and body lines — every header directly followed by a body line —
/// closed off by a trailer. This is the region the parser's hunk loop must
/// consume in full.
pub open spec fn diff_hunks_zone_ok(s: Seq<char>, p: int) -> bool
    decreases s.len() - p,
{
    if p >= s.len() {
        true
    } else {
        let e = line_end(s, p);
        if is_body_at(s, p, e) {
            e < s.len() && diff_hunks_zone_ok(s, e + 1)
        } else if is_hunk_header_at(s, p, e) {
            &&& e < s.len()
            &&& e + 1 < s.len()
            &&& is_body_at(s, e + 1, line_end(s, e + 1))
            &&& diff_hunks_zone_ok(s, e + 1)
        } else {
            diff_trailer_at(s, p)
        }
    }
}

/// A diff text in the shape the parser consumes in full: it starts with
/// `--- ` (so no preamble precedes the headers), ends with a newline,
/// holds no carriage return, and after the two header lines consists of
/// hunk headers and body lines closed off by a trailer. A text outside
/// this shape is skipped before the parser ever sees it.
pub open spec fn diff_parseable(s: Seq<char>) -> bool {
    &&& s.len() >= 4
    &&& s[0] == '-' && s[1] == '-' && s[2] == '-' && s[3] == ' '
    &&& s[s.len() - 1] == '\n'
    &&& forall|j: int| 0 <= j < s.len() ==> s[j] != '\r'
    &&& diff_hunks_zone_ok(s, line_end(s, line_end(s, 0) + 1) + 1)
}

/// Relies on `str::chars`: the string's characters, in order.
#[verifier::external_body]
pub(crate) fn str_chars(s: &str) -> (r: Vec<char>)
    ensures
        r@ == s@,
{
    s.chars().collect()
}

/// Find the exclusive end of the line starting at `i`.
fn find_line_end(chars: &Vec<char>, i: usize) -> (e: usize)
    requires
        i <= chars@.len(),
    ensures
        e == line_end(chars@, i as int),
        i <= e <= chars@.len(),
{
    let n: usize = chars.len();
    let mut j: usize = i;
    while j < n && chars[j] != '\n'
        invariant
            n == chars@.len(),
            i <= j <= n,
            line_end(chars@, i as int) == line_end(chars@, j as int),
        decreases n - j,
    {
        j += 1;
    }
    j
}

/// Find the first non-digit position at or after `i`.
fn find_digits_end(chars: &Vec<char>, i: usize) -> (e: usize)
    requires
        i <= chars@.len(),
    ensures
        e == digits_end(chars@, i as int),
        i <= e <= chars@.len(),
{
    let n: usize = chars.len();
    let mut j: usize = i;
    while j < n && chars[j] >= '0' && chars[j] <= '9'
        invariant
            n == chars@.len(),
            i <= j <= n,
            digits_end(chars@, i as int) == digits_end(chars@, j as int),
        decreases n - j,
    {
        j += 1;
    }
    j
}

/// Find where a hunk-header range field ends, if it is well formed.
fn find_range_end(chars: &Vec<char>, i: usize) -> (r: Option<usize>)
    requires
        i <= chars@.len(),
    ensures
        match r {
            Some(q) => range_end_at(chars@, i as int) == Some(q as int) && q <= chars@.len(),
            None => range_end_at(chars@, i as int) is None,
        },
{
    let d1: usize = find_digits_end(chars, i);
    if d1 == i || d1 - i > 19 {
        None
    } else if d1 < chars.len() && chars[d1] == ',' {
        let d2: usize = find_digits_end(chars, d1 + 1);
        if d2 == d1 + 1 || d2 - (d1 + 1) > 19 {
            None
        } else {
            Some(d2)
        }
    } else {
        Some(d1)
    }
}

/// Decide whether the line `[p, e)` is a hunk body line.
fn line_is_body(chars: &Vec<char>, p: usize, e: usize) -> (r: bool)
    requires
        p <= e <= chars@.len(),
    ensures
        r == is_body_at(chars@, p as int, e as int),
{
    if p >= e {
        return false;
    }
    let c: char = chars[p];
    if !(c == '+' || c == '-' || c == ' ') {
        return false;
    }
    if e - p >= 4 {
        if chars[p] == '+' && chars[p + 1] == '+' && chars[p + 2] == '+' && chars[p + 3] == ' ' {
            return false;
        }
        if chars[p] == '-' && chars[p + 1] == '-' && chars[p + 2] == '-' && chars[p + 3] == ' ' {
            return false;
        }
    }
    true
}

/// Decide whether the line `[p, e)` is a well-formed hunk header.
fn line_is_header(chars: &Vec<char>, p: usize, e: usize) -> (r: bool)
    requires
        p <= e <= chars@.len(),
    ensures
        r == is_hunk_header_at(chars@, p as int, e as int),
{
    if e - p < 4 {
        return false;
    }
    if !(chars[p] == '@' && chars[p + 1] == '@' && chars[p + 2] == ' ' && chars[p + 3] == '-') {
        return false;
    }
    match find_range_end(chars, p + 4) {
        None => false,
        Some(q1) => {
            if q1 > e || e - q1 < 2 {
                return false;
            }
            if !(chars[q1] == ' ' && chars[q1 + 1] == '+') {
                return false;
            }
            match find_range_end(chars, q1 + 2) {
                None => false,
                Some(q2) => q2 <= e && e - q2 >= 3 && chars[q2] == ' ' && chars[q2 + 1] == '@'
                    && chars[q2 + 2] == '@',
            }
        },
    }
}

/// Decide whether the line `[p, e)` is the missing-final-newline marker.
fn line_is_marker(chars: &Vec<char>, p: usize, e: usize) -> (r: bool)
    requires
        p <= e <= chars@.len(),
    ensures
        r == is_marker_at(chars@, p as int, e as int),
{
    let marker: Vec<char> = str_chars("\\ No newline at end of file");
    if e - p != marker.len() {
        proof {
            assert(chars@.subrange(p as int, e as int).len() != no_newline_marker().len());
        }
        return false;
    }
    for k in 0..marker.len()
        invariant
            p + marker.len() == e,
            e <= chars@.len(),
            marker@ == no_newline_marker(),
            forall|j: int| 0 <= j < k ==> chars@[p + j] == no_newline_marker()[j],
    {
        if chars[p + k] != marker[k] {
            proof {
                assert(chars@.subrange(p as int, e as int)[k as int] != no_newline_marker()[
                    k as int]);
            }
            return false;
        }
    }
    proof {
        assert(chars@.subrange(p as int, e as int) =~= no_newline_marker());
    }
    true
}

/// Decide whether only newlines remain from `p` on.
fn rest_is_newlines(chars: &Vec<char>, p: usize) -> (r: bool)
    ensures
        r == only_newlines_from(chars@, p as int),
{
    let n: usize = chars.len();
    let mut j: usize = p;
    while j < n
        invariant
            n == chars@.len(),
            p <= j,
            forall|k: int| p <= k < j ==> chars@[k] == '\n',
        decreases n - j,
    {
        if chars[j] != '\n' {
            proof {
                assert(p <= j < chars@.len() && chars@[j as int] != '\n');
            }
            return false;
        }
        j += 1;
    }
    true
}

/// Decide whether the hunk region starting at `p` has the shape the
/// parser consumes in full.
fn hunks_zone_check(chars: &Vec<char>, p0: usize) -> (r: bool)
    requires
        p0 <= chars@.len(),
    ensures
        r == diff_hunks_zone_ok(chars@, p0 as int),
{
    let n: usize = chars.len();
    let mut p: usize = p0;
    while p < n
        invariant
            n == chars@.len(),
            p <= n,
            diff_hunks_zone_ok(chars@, p0 as int) == diff_hunks_zone_ok(chars@, p as int),
        decreases n - p,
    {
        let e: usize = find_line_end(chars, p);
        if line_is_body(chars, p, e) {
            if e >= n {
                return false;
            }
            p = e + 1;
        } else if line_is_header(chars, p, e) {
            if e >= n {
                return false;
            }
            if e + 1 >= n {
                return false;
            }
            let e2: usize = find_line_end(chars, e + 1);
            if !line_is_body(chars, e + 1, e2) {
                return false;
            }
            p = e + 1;
        } else {
            if line_is_marker(chars, p, e) {
                if e >= n {
                    return true;
                }
                return rest_is_newlines(chars, e + 1);
            }
            return rest_is_newlines(chars, p);
        }
    }
    true
}

/// Decide whether a diff text has the shape the parser consumes in full;
/// anything else is skipped before the parser sees it.
pub fn diff_text_parseable(chars: &Vec<char>) -> (r: bool)
    ensures
        r == diff_parseable(chars@),
{
    let n: usize = chars.len();
    if n < 4 {
        return false;
    }
    if !(chars[0] == '-' && chars[1] == '-' && chars[2] == '-' && chars[3] == ' ') {
        return false;
    }
    if chars[n - 1] != '\n' {
        return false;
    }
    for j in 0..n
        invariant
            n == chars@.len(),
            forall|k: int| 0 <= k < j ==> chars@[k] != '\r',
    {
        if chars[j] == '\r' {
            return false;
        }
    }
    let e0: usize = find_line_end(chars, 0);
    proof {
        lemma_line_end_before_end(chars@, 0);
    }
    let p1: usize = e0 + 1;
    if p1 >= n {
        // a single header line: the parser stops with an error long
        // before the hunks, which is safe
        return true;
    }
    let e1: usize = find_line_end(chars, p1);
    proof {
        lemma_line_end_before_end(chars@, p1 as int);
    }
    hunks_zone_check(chars, e1 + 1)
}

/// The hunks that the `patch` crate parses out of one unified-diff text,
/// reduced to what the attribution reads (new range and line kinds), or
/// `None` when the text does not parse.
pub uninterp spec fn patch_hunks_of(diff: Seq<char>) -> Option<Seq<DiffHunk>>;

/// Relies on the `patch` crate: `Patch::from_single` parses one unified
/// diff, and the result depends on the text alone. Each hunk's new range
/// is carried over field by field and each line reduced to its kind.
///
/// The parser aborts — instead of erring — in two ways, and the
/// `requires` rules both out. It reads every range number as a `u64`
/// through an unchecked conversion; `diff_parseable` bounds each digit
/// run of a hunk header at nineteen digits, which always fits. And after
/// a successful parse it asserts that the whole input was consumed, so
/// any text its hunk loop leaves behind aborts; under `diff_parseable`
/// that cannot happen. The header lines either parse (consuming exactly
/// two newline-terminated lines, with no preamble since the text starts
/// at `--- `) or the whole parse fails cleanly before any hunk. Hunk
/// headers and body lines each consume one whole line, every
/// `diff_parseable` header line satisfies the parser's header grammar,
/// and every header is followed by a body line, so the hunk loop only
/// ever stops at the trailer — the optional missing-final-newline marker
/// and blank lines, which the tail of the parser consumes to the end.
/// Failures anywhere on that path come back as the parser's error.
#[verifier::external_body]
pub(crate) fn parse_patch_hunks(diff: &str) -> (r: Result<Vec<DiffHunk>, String>)
    requires
        diff_parseable(diff@),
    ensures
        r is Ok <==> patch_hunks_of(diff@) is Some,
        r matches Ok(hunks) ==> patch_hunks_of(diff@) matches Some(s) && hunks@ == s,
{
    match patch::Patch::from_single(diff) {
        Ok(p) => Ok(
            p.hunks.into_iter().map(|h| DiffHunk {
                new_start: h.new_range.start,
                new_count: h.new_range.count,
                lines: h.lines.iter().map(|l| match l {
                    patch::Line::Add(_) => DiffLine::Added,
                    patch::Line::Context(_) => DiffLine::Context,
                    patch::Line::Remove(_) => DiffLine::Removed,
                }).collect(),
            }).collect(),
        ),
        Err(e) => Err(format!("{}", e)),
    }
}

/// Relies on `str::ends_with`: true exactly when the string's last
/// character is a newline.
#[verifier::external_body]
pub(crate) fn ends_with_newline(s: &str) -> (r: bool)
    ensures
        r == (s@.len() > 0 && s@.last() == '\n'),
{
    s.ends_with('\n')
}

/// The pattern occurs in `s` starting at index `i`.
pub open spec fn occurs_at(s: Seq<char>, pat: Seq<char>, i: int) -> bool {
    &&& 0 <= i
    &&& i + pat.len() <= s.len()
    &&& s.subrange(i, i + pat.len()) == pat
}

/// What `path_split` returns: the path unchanged when the prefix does not
/// occur in it; otherwise the prefix followed by what comes after the
/// prefix's first occurrence.
pub open spec fn spec_path_split(path: Seq<char>, prefix: Seq<char>) -> Seq<char> {
    if exists|j: int| occurs_at(path, prefix, j) {
        let j = choose|j: int|
            occurs_at(path, prefix, j) && forall|k: int| 0 <= k < j ==> !occurs_at(path, prefix, k);
        prefix + path.subrange(j + prefix.len(), path.len() as int)
    } else {
        path
    }
}

/// Relies on `str::split_once`: splits at the first occurrence of the
/// pattern, returning what stands before and after it, or `None` when the
/// pattern does not occur.
#[verifier::external_body]
pub(crate) fn split_once_str<'a>(s: &'a str, pat: &str) -> (r: Option<(&'a str, &'a str)>)
    ensures
        r matches Some(parts) ==> {
            &&& s@ == parts.0@ + pat@ + parts.1@
            &&& occurs_at(s@, pat@, parts.0@.len() as int)
            &&& forall|k: int| 0 <= k < parts.0@.len() ==> !occurs_at(s@, pat@, k)
        },
        r is None ==> forall|k: int| !occurs_at(s@, pat@, k),
{
    s.split_once(pat)
}

/// Split a path at the first occurrence of `source_prefix`, keeping the
/// prefix on the returned side; a path without the prefix comes back
/// unchanged.
pub fn path_split(path: &str, source_prefix: &str) -> (r: String)
    ensures
        r@ == spec_path_split(path@, source_prefix@),
{
    match split_once_str(path, source_prefix) {
        Some((_before, after)) => {
            let mut r: String = source_prefix.to_owned();
            r.append(after);
            proof {
                let ghost p = path@;
                let ghost pre = source_prefix@;
                let ghost jw = p.len() - after@.len() - pre.len();
                assert(occurs_at(p, pre, jw));
                let j = choose|j: int|
                    occurs_at(p, pre, j) && forall|k: int| 0 <= k < j ==> !occurs_at(p, pre, k);
                assert(occurs_at(p, pre, jw) && forall|k: int|
                    0 <= k < jw ==> !occurs_at(p, pre, k));
                if j < jw {
                    assert(occurs_at(p, pre, j));
                    assert(false);
                } else if jw < j {
                    assert(occurs_at(p, pre, jw));
                    assert(false);
                }
                assert(p.subrange(jw + pre.len(), p.len() as int) =~= after@);
            }
            r
        },
        None => path.to_owned(),
    }
}

} // verus!
