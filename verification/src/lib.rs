//! Coverage analysis core: grouping line-coverage records per file,
//! attributing uncovered lines to diff hunks, coalescing line numbers into
//! ranges, and a bounded per-branch history of coverage snapshots.

pub mod coverage;
pub mod digest;
pub mod html;
pub mod local;
pub mod pull;
pub mod push;
pub mod helpers;
pub mod ranges;
pub mod text;
pub mod tracking;
pub mod visualisation;

use vstd::prelude::*;

verus! {

/// Error cases surfaced by the coverage core.
#[derive(Debug, Clone, PartialEq, Eq)]
pub enum MeowCoverageError {
    /// The coverage report could not be decoded; carries the parser's message.
    LcovParse(String),
    /// A repository name was not of the form `OWNER/REPO`.
    RepoNameMissingSlash,
    /// A unified diff could not be parsed; carries the parser's message.
    Patch(String),
    /// A report was requested on a branch with no retained snapshots.
    ReportMissingInfo,
}

} // verus!
