use vstd::prelude::*;

verus! {

/// Failures surfaced while preparing a run: opening the repository,
/// reading or writing its index tree, or resolving the author identity.
/// All of them abort before any commit is written.
#[derive(Clone, Copy, PartialEq, Eq, Structural, Debug)]
pub enum RepositoryError {
    OpenError,
    FindIndexError,
    TreeWriteError,
    SignatureRetrievalError,
    NameRetrievalError,
    EmailRetrievalError,
}

/// Failures surfaced while the chain is written or the branch head is
/// moved.  A commit-object failure aborts the run at once; commits
/// already written persist and the head is not reset.
#[derive(Clone, Copy, PartialEq, Eq, Structural, Debug)]
pub enum GitTerminalError {
    CommitObjectError,
    ResetHeadError,
}

impl RepositoryError {
    /// A fixed description of the failure, for the caller to print.
    pub fn describe(&self) -> (r: &'static str)
        ensures
            *self is OpenError ==> r@ == "could not open the repository"@,
            *self is FindIndexError ==> r@ == "could not read the repository index"@,
            *self is TreeWriteError ==> r@ == "could not write the index tree"@,
            *self is SignatureRetrievalError ==> r@ == "could not read the configured signature"@,
            *self is NameRetrievalError ==> r@ == "the configured signature has no name"@,
            *self is EmailRetrievalError ==> r@ == "the configured signature has no email"@,
    {
        match self {
            RepositoryError::OpenError => "could not open the repository",
            RepositoryError::FindIndexError => "could not read the repository index",
            RepositoryError::TreeWriteError => "could not write the index tree",
            RepositoryError::SignatureRetrievalError => "could not read the configured signature",
            RepositoryError::NameRetrievalError => "the configured signature has no name",
            RepositoryError::EmailRetrievalError => "the configured signature has no email",
        }
    }
}

impl GitTerminalError {
    /// A fixed description of the failure, for the caller to print.
    pub fn describe(&self) -> (r: &'static str)
        ensures
            *self is CommitObjectError ==> r@ == "could not write a commit object"@,
            *self is ResetHeadError ==> r@ == "could not reset the branch head"@,
    {
        match self {
            GitTerminalError::CommitObjectError => "could not write a commit object",
            GitTerminalError::ResetHeadError => "could not reset the branch head",
        }
    }
}

} // verus!
