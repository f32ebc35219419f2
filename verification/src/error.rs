//! The ways in which an operation of this library fails.

use vstd::prelude::*;

verus! {

/// Why an operation failed.
#[derive(Debug, Clone, Copy, PartialEq, Eq, Structural)]
pub enum Error {
    /// No issue key could be recovered where one was required.
    MalformedKey,
    /// The key of the branch and the key of the commit message differ, and
    /// that is not permitted.
    KeyMismatch,
    /// The branch holds no key, and that is not permitted.
    MissingKey,
    /// The finished commit message does not have the shape that every commit
    /// message must have.
    ConformanceViolation,
    /// More than one of the branch-name modifiers was given.
    UsageConflict,
    /// The name of the current branch is empty.
    BranchState,
    /// No branch exists for the issue.
    NoIssueBranch,
    /// An API token was configured without a login.
    MissingLogin,
    /// A login was configured without an API token.
    MissingToken,
    /// A search for users names neither a project nor an issue.
    MissingScope,
    /// A work log gives its time twice, or not at all.
    MalformedWorklog,
    /// No duration could be read where one was required.
    MalformedDuration,
    /// A list from which the user is to pick is empty.
    NothingToSelect,
    /// An issue cannot move because the new state asks for fields.
    RequiredFields,
    /// No address of a server could be read where one was required.
    MalformedUrl,
    /// No date could be read where one was required.
    MalformedDate,
}

/// The text that describes an error.
pub open spec fn error_text(e: Error) -> Seq<char> {
    match e {
        Error::MalformedKey => "Malformed issue key supplied"@,
        Error::KeyMismatch => "Issue key in commit message does not match the branch name"@,
        Error::MissingKey => "Issue key not found in branch name"@,
        Error::ConformanceViolation =>
            "Commit message not conforming to regex: '^[A-Z]{2,}-[0-9]+ [A-Z0-9].*$'"@,
        Error::UsageConflict => "Multiple branch name modifiers specified"@,
        Error::BranchState => "Branch is empty, how?"@,
        Error::NoIssueBranch => "Issue branch does not exist"@,
        Error::MissingLogin => "'user_login' missing, required with api_token"@,
        Error::MissingToken => "'api_token' missing, required with user_login"@,
        Error::MissingScope =>
            "Both project and issue_key are None, define either to query for assignable users."@,
        Error::MalformedWorklog =>
            "Malformed body: time_spent and time_spent_seconds are both 'Some()' or 'None'"@,
        Error::MalformedDuration => "Malformed worklog duration"@,
        Error::NothingToSelect => "Select Prompt: Empty list"@,
        Error::RequiredFields => "Issue cannot be moved with Jig due to required fields."@,
        Error::MalformedUrl => "Unable to parse url"@,
        Error::MalformedDate => "Unable to parse date, expected: %Y-%m-%d"@,
    }
}

impl Error {
    /// A description of the error for the user.
    pub fn message(&self) -> (r: String)
        ensures
            r@ == error_text(*self),
    {
        match self {
            Error::MalformedKey => "Malformed issue key supplied".to_owned(),
            Error::KeyMismatch => "Issue key in commit message does not match the branch name"
                .to_owned(),
            Error::MissingKey => "Issue key not found in branch name".to_owned(),
            Error::ConformanceViolation =>
                "Commit message not conforming to regex: '^[A-Z]{2,}-[0-9]+ [A-Z0-9].*$'"
                .to_owned(),
            Error::UsageConflict => "Multiple branch name modifiers specified".to_owned(),
            Error::BranchState => "Branch is empty, how?".to_owned(),
            Error::NoIssueBranch => "Issue branch does not exist".to_owned(),
            Error::MissingLogin => "'user_login' missing, required with api_token".to_owned(),
            Error::MissingToken => "'api_token' missing, required with user_login".to_owned(),
            Error::MissingScope =>
                "Both project and issue_key are None, define either to query for assignable users."
                .to_owned(),
            Error::MalformedWorklog =>
                "Malformed body: time_spent and time_spent_seconds are both 'Some()' or 'None'"
                .to_owned(),
            Error::MalformedDuration => "Malformed worklog duration".to_owned(),
            Error::NothingToSelect => "Select Prompt: Empty list".to_owned(),
            Error::RequiredFields => "Issue cannot be moved with Jig due to required fields."
                .to_owned(),
            Error::MalformedUrl => "Unable to parse url".to_owned(),
            Error::MalformedDate => "Unable to parse date, expected: %Y-%m-%d".to_owned(),
        }
    }
}

} // verus!
