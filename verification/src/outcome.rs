//! How a step on the file system ended, as far as the installer cares.

use vstd::prelude::*;

verus! {

/// The end of one file-system step. Making a directory or a link that is
/// already there is not a failure: two tasks may well make the same one.
#[derive(Debug, PartialEq, Eq, Clone, Copy, Structural)]
pub enum IoOutcome {
    /// The step did what was asked.
    Done,
    /// The thing to be made exists already.
    AlreadyExists,
    /// The step failed for any other reason.
    Failed,
}

impl IoOutcome {
    /// Whether the installer goes on after this outcome.
    pub open spec fn is_absorbed(self) -> bool {
        self != IoOutcome::Failed
    }

    /// Whether the installer goes on after this outcome: it does unless the
    /// step failed for a reason other than the target existing already.
    pub fn absorbed(self) -> (res: bool)
        ensures
            res == self.is_absorbed(),
    {
        match self {
            IoOutcome::Done => true,
            IoOutcome::AlreadyExists => true,
            IoOutcome::Failed => false,
        }
    }
}

} // verus!
