use vstd::prelude::*;

verus! {

/// Why a rule could not be prepared, found or run.
#[derive(Debug, PartialEq, Eq, Clone, Copy, Structural)]
pub enum SyncError {
    /// The flags of a rule do not split into words: a quote is left open.
    SplitFlags,
    /// The configuration holds no project of the given name.
    ProjectNotFound,
    /// The project holds no rule with the given source or index.
    SyncNotFound,
    /// The sync tool did not run or did not exit with success.
    TransferFailed,
    /// The hook at this position of the invocation failed, and it is not
    /// marked to continue on failure.
    HookFailed(usize),
}

impl SyncError {
    /// The error in words, for the operator.
    pub fn message(&self) -> (text: String)
        ensures
            text@ == match *self {
                SyncError::SplitFlags => "Failed to split rsync flags"@,
                SyncError::ProjectNotFound => "Failed to find project"@,
                SyncError::SyncNotFound => "Failed to find sync"@,
                SyncError::TransferFailed => "Failed to sync files"@,
                SyncError::HookFailed(_) => "Command failed"@,
            },
    {
        match self {
            SyncError::SplitFlags => "Failed to split rsync flags".to_owned(),
            SyncError::ProjectNotFound => "Failed to find project".to_owned(),
            SyncError::SyncNotFound => "Failed to find sync".to_owned(),
            SyncError::TransferFailed => "Failed to sync files".to_owned(),
            SyncError::HookFailed(_) => "Command failed".to_owned(),
        }
    }
}

} // verus!
