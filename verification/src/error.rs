//! The error taxonomy of the pipeline. Everything scoped to one file is
//! non-fatal and is absorbed at the worker boundary; only an unavailable
//! ledger or a failed worker-pool construction abort a run.

use vstd::prelude::*;

verus! {

/// One failure of the pipeline, with its diagnostic text.
#[derive(Debug)]
pub enum TranscodeError {
    /// A filesystem walk entry could not be read; the entry is skipped.
    DiscoveryError(String),
    /// The probing tool exited non-zero or its output was unusable; the
    /// file is omitted from this scan.
    ProbeFailed(String),
    /// The ledger store cannot be opened or migrated; fatal to the run.
    LedgerUnavailable(String),
    /// A unique-constraint violation on insert; expected and non-fatal.
    LedgerConstraint(String),
    /// The encoding tool exited non-zero; recorded against the one file.
    EncodeFailed(String),
    /// A rename or delete failed after a successful encode; recorded
    /// against the one file.
    FinalizeFailed(String),
    /// The worker pool could not be built; fatal to the run.
    PoolConstructionFailed(String),
}

impl TranscodeError {
    /// The diagnostic text carried by the error.
    pub open spec fn spec_message(&self) -> Seq<char> {
        match self {
            TranscodeError::DiscoveryError(m) => m@,
            TranscodeError::ProbeFailed(m) => m@,
            TranscodeError::LedgerUnavailable(m) => m@,
            TranscodeError::LedgerConstraint(m) => m@,
            TranscodeError::EncodeFailed(m) => m@,
            TranscodeError::FinalizeFailed(m) => m@,
            TranscodeError::PoolConstructionFailed(m) => m@,
        }
    }

    /// The diagnostic text carried by the error.
    pub fn message(&self) -> (m: &str)
        ensures
            m@ == self.spec_message(),
    {
        match self {
            TranscodeError::DiscoveryError(m) => m.as_str(),
            TranscodeError::ProbeFailed(m) => m.as_str(),
            TranscodeError::LedgerUnavailable(m) => m.as_str(),
            TranscodeError::LedgerConstraint(m) => m.as_str(),
            TranscodeError::EncodeFailed(m) => m.as_str(),
            TranscodeError::FinalizeFailed(m) => m.as_str(),
            TranscodeError::PoolConstructionFailed(m) => m.as_str(),
        }
    }

    /// Only an unavailable ledger or a failed pool construction end the
    /// run; every per-file failure is reported and absorbed.
    pub open spec fn spec_is_fatal(&self) -> bool {
        self is LedgerUnavailable || self is PoolConstructionFailed
    }

    /// Whether this failure aborts the whole run.
    pub fn is_fatal(&self) -> (r: bool)
        ensures
            r == self.spec_is_fatal(),
    {
        match self {
            TranscodeError::LedgerUnavailable(_) => true,
            TranscodeError::PoolConstructionFailed(_) => true,
            _ => false,
        }
    }
}

/// The process exit code of a finished run: zero unless a fatal error
/// ended it, whatever the per-file outcomes were.
pub fn run_exit_code(fatal: &Option<TranscodeError>) -> (c: i32)
    ensures
        c == 0 <==> fatal is None,
        c == match fatal {
            Some(_) => 1int,
            None => 0int,
        },
{
    match fatal {
        Some(_) => 1,
        None => 0,
    }
}

} // verus!
