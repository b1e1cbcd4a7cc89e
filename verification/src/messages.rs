//! What workers report to the owner of the application's state.

use vstd::prelude::*;
use crate::command::{GitError, GitErrorView};
use crate::digits::decimal;
use crate::status::{GitInfo, GitInfoView};
use crate::text::texts;

verus! {

/// The report of one worker on one repository.
#[derive(Debug)]
pub enum GitMessage {
    /// The repository was queried: this is its status.
    RepoStatusUpdated { repo_path: String, git_info: GitInfo },
    /// The work on the repository failed, or is tried again: `message` says
    /// so in words.
    Error { repo_path: String, message: String },
}

/// The name that reports to the interface once went by.
pub type UiMessage = GitMessage;

/// A `GitMessage` with its texts as character sequences.
pub enum GitMessageView {
    RepoStatusUpdated { repo_path: Seq<char>, git_info: GitInfoView },
    Error { repo_path: Seq<char>, message: Seq<char> },
}

impl View for GitMessage {
    type V = GitMessageView;

    open spec fn view(&self) -> GitMessageView {
        match self {
            GitMessage::RepoStatusUpdated { repo_path, git_info } => {
                GitMessageView::RepoStatusUpdated { repo_path: repo_path@, git_info: git_info@ }
            },
            GitMessage::Error { repo_path, message } => GitMessageView::Error {
                repo_path: repo_path@,
                message: message@,
            },
        }
    }
}

impl GitMessageView {
    /// The repository that the report is about.
    pub open spec fn path(self) -> Seq<char> {
        match self {
            GitMessageView::RepoStatusUpdated { repo_path, .. } => repo_path,
            GitMessageView::Error { repo_path, .. } => repo_path,
        }
    }
}

impl GitMessage {
    /// The repository that the report is about.
    pub fn path(&self) -> (r: &str)
        ensures
            r@ == self@.path(),
    {
        match self {
            GitMessage::RepoStatusUpdated { repo_path, .. } => repo_path.as_str(),
            GitMessage::Error { repo_path, .. } => repo_path.as_str(),
        }
    }
}

/// Everything that reaches the owner of the application's state.
#[derive(Debug)]
pub enum AppMessage {
    /// The report of a worker on one repository.
    Git(GitMessage),
    /// The repositories that a search of the file system found.
    ReposFound { repos: Vec<String> },
    /// A search has ended; it found so many repositories.
    SearchComplete { total_found: usize },
}

/// An `AppMessage` with its texts as character sequences.
pub enum AppMessageView {
    Git(GitMessageView),
    ReposFound { repos: Seq<Seq<char>> },
    SearchComplete { total_found: nat },
}

impl View for AppMessage {
    type V = AppMessageView;

    open spec fn view(&self) -> AppMessageView {
        match self {
            AppMessage::Git(msg) => AppMessageView::Git(msg@),
            AppMessage::ReposFound { repos } => AppMessageView::ReposFound {
                repos: texts(repos@),
            },
            AppMessage::SearchComplete { total_found } => AppMessageView::SearchComplete {
                total_found: *total_found as nat,
            },
        }
    }
}

impl From<GitMessage> for AppMessage {
    fn from(msg: GitMessage) -> (r: AppMessage) {
        AppMessage::Git(msg)
    }
}

impl vstd::std_specs::convert::FromSpecImpl<GitMessage> for AppMessage {
    open spec fn obeys_from_spec() -> bool {
        true
    }

    open spec fn from_spec(msg: GitMessage) -> AppMessage {
        AppMessage::Git(msg)
    }
}

/// A path as `{:?}` formats it: between double quotes, with the characters
/// that cannot stand there escaped.
pub uninterp spec fn debug_text(path: Seq<char>) -> Seq<char>;

/// Formats `path` with `{:?}`. The result is named, not described: the
/// escaping rules of the standard library's `Debug` for `str` are taken as
/// they are.
#[verifier::external_body]
pub(crate) fn debug_quote(path: &str) -> (r: String)
    ensures
        r@ == debug_text(path@),
{
    format!("{:?}", path)
}

/// What `error` says of the repository at `repo_path`.
pub fn error_message(error: &GitError, repo_path: &str) -> (r: String)
    ensures
        r@ == error@.text(debug_text(repo_path@)),
{
    let quoted = debug_quote(repo_path);
    error.describe(quoted.as_str())
}

/// The word for an operation at the head of a failure report.
pub open spec fn title(operation: crate::command::Operation) -> Seq<char> {
    match operation {
        crate::command::Operation::Fetch => "Fetch"@,
        crate::command::Operation::Pull => "Pull"@,
        crate::command::Operation::Push => "Push"@,
        crate::command::Operation::Reset => "Reset"@,
        crate::command::Operation::Checkout => "Checkout"@,
    }
}

/// A status query that was asked for by itself failed.
pub open spec fn text_query_failed(quoted: Seq<char>, error: Seq<char>) -> Seq<char> {
    "Git error for "@ + quoted + ": "@ + error
}

/// The status query that follows an operation failed.
pub open spec fn text_query_failed_after(
    operation: crate::command::Operation,
    quoted: Seq<char>,
    error: Seq<char>,
) -> Seq<char> {
    "Failed to get git info after "@ + operation.word() + " for "@ + quoted + ": "@ + error
}

/// An operation failed and is not tried again.
pub open spec fn text_operation_failed(
    operation: crate::command::Operation,
    quoted: Seq<char>,
    error: Seq<char>,
) -> Seq<char> {
    title(operation) + " failed for "@ + quoted + ": "@ + error
}

/// A fetch failed and is tried again after a delay.
pub open spec fn text_retrying(
    quoted: Seq<char>,
    attempt: nat,
    max_attempts: nat,
    delay_ms: nat,
    error: Seq<char>,
) -> Seq<char> {
    "Fetch failed for "@ + quoted + " (attempt "@ + decimal(attempt) + "/"@ + decimal(
        max_attempts,
    ) + "), retrying in "@ + decimal(delay_ms) + "ms: "@ + error
}

/// A fetch failed at its last attempt.
pub open spec fn text_exhausted(quoted: Seq<char>, max_attempts: nat, error: Seq<char>) -> Seq<
    char,
> {
    "Fetch failed for "@ + quoted + " after "@ + decimal(max_attempts) + " attempts: "@ + error
}

} // verus!
