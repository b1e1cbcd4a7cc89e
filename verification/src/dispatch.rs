//! What a worker does for one repository, and what it reports.
//!
//! A worker runs commands, sleeps and waits for a slot of the pool; all of
//! that is its caller's business. What to do next and what to report is
//! decided here. The functions that bear the names of the workers run one
//! from a transcript: the outcomes of the commands in the order in which the
//! worker asks for them.

use vstd::prelude::*;
use crate::command::{
    argv_operation, interpret, operation_args, verdict, CommandOutcome, GitError, GitErrorView,
    Operation, OutcomeView,
};
use crate::messages::{
    debug_quote, debug_text, text_operation_failed, text_query_failed, text_query_failed_after,
    title, GitMessage, GitMessageView,
};
use crate::pool::{OperationPool, PoolGuard};
use crate::query::{get_git_info, outcome_views, replay, result_view, QueryStepView};
use crate::status::{GitInfo, GitInfoView};
use crate::text::{contains, str_contains, texts};

verus! {

/// How often a fetch is attempted at most.
pub const MAX_FETCH_ATTEMPTS: u64 = 3;

/// How long a worker waits before its second attempt, in milliseconds; the
/// wait doubles with each attempt after that.
pub const FIRST_RETRY_DELAY_MS: u64 = 1000;

/// How long a fetch that retries waits for a slot of the pool, in
/// milliseconds.
pub const SLOT_TIMEOUT_MS: u64 = 5000;

/// The failure is one of the network's that may pass: git ran, failed, and
/// wrote one of three known phrases.
pub open spec fn transient(error: GitErrorView) -> bool {
    error matches GitErrorView::CommandFailure { stderr, .. } && (contains(
        stderr,
        "Connection closed"@,
    ) || contains(stderr, "Connection refused"@) || contains(
        stderr,
        "Could not read from remote repository"@,
    ))
}

/// Whether the failure is one of the network's that may pass.
pub fn is_transient(error: &GitError) -> (r: bool)
    ensures
        r == transient(error@),
{
    match error {
        GitError::CommandFailure { stderr, .. } => {
            str_contains(stderr.as_str(), "Connection closed") || str_contains(
                stderr.as_str(),
                "Connection refused",
            ) || str_contains(stderr.as_str(), "Could not read from remote repository")
        },
        _ => false,
    }
}

/// The report on a status query. `after` is the operation that the query
/// followed, if any; `quoted` is the path in quotes.
pub open spec fn query_report(
    repo_path: Seq<char>,
    quoted: Seq<char>,
    after: Option<Operation>,
    result: Result<GitInfoView, GitErrorView>,
) -> GitMessageView {
    match result {
        Ok(git_info) => GitMessageView::RepoStatusUpdated { repo_path, git_info },
        Err(error) => GitMessageView::Error {
            repo_path,
            message: match after {
                Some(operation) => text_query_failed_after(operation, quoted, error.text(quoted)),
                None => text_query_failed(quoted, error.text(quoted)),
            },
        },
    }
}

/// The report on a status query.
pub fn status_report(
    repo_path: &str,
    quoted: &str,
    after: Option<Operation>,
    result: Result<GitInfo, GitError>,
) -> (r: GitMessage)
    ensures
        r@ == query_report(repo_path@, quoted@, after, result_view(result)),
{
    match result {
        Ok(git_info) => GitMessage::RepoStatusUpdated { repo_path: repo_path.to_owned(), git_info },
        Err(error) => {
            let text = error.describe(quoted);
            let message = match after {
                Some(operation) => "Failed to get git info after ".to_owned().concat(
                    operation.name(),
                ).concat(" for ").concat(quoted).concat(": ").concat(text.as_str()),
                None => "Git error for ".to_owned().concat(quoted).concat(": ").concat(
                    text.as_str(),
                ),
            };
            GitMessage::Error { repo_path: repo_path.to_owned(), message }
        },
    }
}

/// The report on an operation that failed and is not tried again.
pub open spec fn failure_report(
    operation: Operation,
    repo_path: Seq<char>,
    quoted: Seq<char>,
    error: GitErrorView,
) -> GitMessageView {
    GitMessageView::Error {
        repo_path,
        message: text_operation_failed(operation, quoted, error.text(quoted)),
    }
}

fn operation_title(operation: Operation) -> (r: &'static str)
    ensures
        r@ == title(operation),
{
    match operation {
        Operation::Fetch => "Fetch",
        Operation::Pull => "Pull",
        Operation::Push => "Push",
        Operation::Reset => "Reset",
        Operation::Checkout => "Checkout",
    }
}

/// The report on an operation that failed and is not tried again.
pub fn operation_failed(
    operation: Operation,
    repo_path: &str,
    quoted: &str,
    error: &GitError,
) -> (r: GitMessage)
    ensures
        r@ == failure_report(operation, repo_path@, quoted@, error@),
{
    let text = error.describe(quoted);
    let message = operation_title(operation).to_owned().concat(" failed for ").concat(
        quoted,
    ).concat(": ").concat(text.as_str());
    GitMessage::Error { repo_path: repo_path.to_owned(), message }
}

/// The report of a worker that got no slot of the pool in time.
pub open spec fn timeout_report(repo_path: Seq<char>, quoted: Seq<char>) -> GitMessageView {
    GitMessageView::Error { repo_path, message: GitErrorView::PoolTimeout.text(quoted) }
}

/// The report of a worker that got no slot of the pool in time.
pub fn slot_timed_out(repo_path: &str, quoted: &str) -> (r: GitMessage)
    ensures
        r@ == timeout_report(repo_path@, quoted@),
{
    GitMessage::Error {
        repo_path: repo_path.to_owned(),
        message: GitError::PoolTimeout.describe(quoted),
    }
}

/// What a worker that ran `operation` reports when the operation failed;
/// nothing where it succeeded: the worker then queries the status and
/// reports that.
pub open spec fn operation_report(
    operation: Operation,
    repo_path: Seq<char>,
    quoted: Seq<char>,
    outcome: OutcomeView,
) -> Option<GitMessageView> {
    match verdict(operation, outcome) {
        Ok(()) => None,
        Err(error) => Some(failure_report(operation, repo_path, quoted, error)),
    }
}

/// The view of an optional report.
pub open spec fn opt_message(m: Option<GitMessage>) -> Option<GitMessageView> {
    match m {
        Some(msg) => Some(msg@),
        None => None,
    }
}

/// What a worker that ran `operation` reports when the operation failed.
pub fn mutation_report(
    operation: Operation,
    repo_path: &str,
    quoted: &str,
    outcome: &CommandOutcome,
) -> (r: Option<GitMessage>)
    ensures
        opt_message(r) == operation_report(operation, repo_path@, quoted@, outcome@),
{
    match interpret(operation, outcome) {
        Ok(()) => None,
        Err(error) => Some(operation_failed(operation, repo_path, quoted, &error)),
    }
}

/// What a worker under the pool reports in the end: the operation's failure,
/// or the status of the repository after it.
pub open spec fn mutation_result(
    operation: Operation,
    repo_path: Seq<char>,
    quoted: Seq<char>,
    outcome: OutcomeView,
    status: Result<GitInfoView, GitErrorView>,
) -> GitMessageView {
    match operation_report(operation, repo_path, quoted, outcome) {
        Some(report) => report,
        None => query_report(repo_path, quoted, Some(operation), status),
    }
}

/// The work of one worker under the pool, once it holds a slot: an
/// operation, and the status query after it.
#[derive(Debug)]
pub struct PooledMutation {
    pub operation: Operation,
    pub repo_path: String,
    /// The path in quotes, as reports show it.
    pub quoted: String,
}

/// What the work asks of its worker after the operation has run.
#[derive(Debug)]
pub enum MutationStep {
    /// Query the repository's status and hand the result to `work`.
    Query { work: PooledMutation },
    /// Post the report: the work has ended.
    Finish(GitMessage),
}

impl PooledMutation {
    /// The work, and the arguments to run git with.
    pub fn start(operation: Operation, repo_path: &str) -> (r: (PooledMutation, Vec<String>))
        ensures
            r.0.operation == operation,
            r.0.repo_path@ == repo_path@,
            r.0.quoted@ == debug_text(repo_path@),
            texts(r.1@) == argv_operation(operation),
    {
        (
            PooledMutation {
                operation,
                repo_path: repo_path.to_owned(),
                quoted: debug_quote(repo_path),
            },
            operation_args(operation),
        )
    }

    /// Takes the outcome of the operation: a failure is reported and ends
    /// the work; after a success the status is to be queried.
    pub fn ran(self, outcome: &CommandOutcome) -> (r: MutationStep)
        ensures
            match operation_report(self.operation, self.repo_path@, self.quoted@, outcome@) {
                Some(report) => r matches MutationStep::Finish(message) && message@ == report,
                None => r matches MutationStep::Query { work } && work == self,
            },
    {
        match mutation_report(
            self.operation,
            self.repo_path.as_str(),
            self.quoted.as_str(),
            outcome,
        ) {
            Some(report) => MutationStep::Finish(report),
            None => MutationStep::Query { work: self },
        }
    }

    /// Takes the result of the status query, and gives the report that ends
    /// the work.
    pub fn queried(self, status: Result<GitInfo, GitError>) -> (r: GitMessage)
        ensures
            r@ == query_report(
                self.repo_path@,
                self.quoted@,
                Some(self.operation),
                result_view(status),
            ),
    {
        status_report(
            self.repo_path.as_str(),
            self.quoted.as_str(),
            Some(self.operation),
            status,
        )
    }
}

/// The report on a status query that was asked for by itself.
pub fn refresh_report(repo_path: &str, result: Result<GitInfo, GitError>) -> (r: GitMessage)
    ensures
        r@ == query_report(repo_path@, debug_text(repo_path@), None, result_view(result)),
{
    let quoted = debug_quote(repo_path);
    status_report(repo_path, quoted.as_str(), None, result)
}

/// A worker that queries the status of the repository at `repo_path` and
/// reports it. `is_repository` and `status` are the precheck and the
/// transcript of the query.
pub fn refresh_repo_status_async(
    repo_path: &str,
    is_repository: bool,
    status: &Vec<CommandOutcome>,
) -> (r: GitMessage)
    ensures
        r@ == query_report(
            repo_path@,
            debug_text(repo_path@),
            None,
            replay(QueryStepView::begin(is_repository), outcome_views(status@), 0),
        ),
{
    refresh_report(repo_path, get_git_info(is_repository, status))
}

/// A worker that runs `operation` under the pool and reports the status
/// after it. It runs nothing without a slot: where the pool has none free it
/// has nothing to report yet, and the pool is as it was. The slot is given
/// back whatever the operation's end. `outcome` is the operation's outcome;
/// `is_repository` and `status` are the precheck and the transcript of the
/// query that follows a success.
pub fn dispatch_mutation(
    operation: Operation,
    repo_path: &str,
    pool: &mut OperationPool,
    outcome: &CommandOutcome,
    is_repository: bool,
    status: &Vec<CommandOutcome>,
) -> (r: Option<GitMessage>)
    ensures
        old(pool).available == 0 ==> r is None,
        old(pool).available > 0 ==> opt_message(r) == Some(
            mutation_result(
                operation,
                repo_path@,
                debug_text(repo_path@),
                outcome@,
                replay(QueryStepView::begin(is_repository), outcome_views(status@), 0),
            ),
        ),
        old(pool).wf() ==> *final(pool) == *old(pool),
        !old(pool).wf() ==> *final(pool) == old(pool).acquired().released(),
{
    match PoolGuard::acquire(pool) {
        None => None,
        Some(guard) => {
            let quoted = debug_quote(repo_path);
            let report = match mutation_report(operation, repo_path, quoted.as_str(), outcome) {
                Some(report) => report,
                None => status_report(
                    repo_path,
                    quoted.as_str(),
                    Some(operation),
                    get_git_info(is_repository, status),
                ),
            };
            pool.release(guard);
            Some(report)
        },
    }
}

/// A worker that pulls under the pool and reports the status after it.
pub fn git_pull_fast_async(
    repo_path: &str,
    pool: &mut OperationPool,
    outcome: &CommandOutcome,
    is_repository: bool,
    status: &Vec<CommandOutcome>,
) -> (r: Option<GitMessage>)
    ensures
        old(pool).available == 0 ==> r is None,
        old(pool).available > 0 ==> opt_message(r) == Some(
            mutation_result(
                Operation::Pull,
                repo_path@,
                debug_text(repo_path@),
                outcome@,
                replay(QueryStepView::begin(is_repository), outcome_views(status@), 0),
            ),
        ),
        old(pool).wf() ==> *final(pool) == *old(pool),
{
    dispatch_mutation(Operation::Pull, repo_path, pool, outcome, is_repository, status)
}

/// A worker that pushes under the pool and reports the status after it.
pub fn git_push_fast_async(
    repo_path: &str,
    pool: &mut OperationPool,
    outcome: &CommandOutcome,
    is_repository: bool,
    status: &Vec<CommandOutcome>,
) -> (r: Option<GitMessage>)
    ensures
        old(pool).available == 0 ==> r is None,
        old(pool).available > 0 ==> opt_message(r) == Some(
            mutation_result(
                Operation::Push,
                repo_path@,
                debug_text(repo_path@),
                outcome@,
                replay(QueryStepView::begin(is_repository), outcome_views(status@), 0),
            ),
        ),
        old(pool).wf() ==> *final(pool) == *old(pool),
{
    dispatch_mutation(Operation::Push, repo_path, pool, outcome, is_repository, status)
}

/// A worker that fetches once under the pool and reports the status after
/// it.
pub fn git_fetch_fast_async(
    repo_path: &str,
    pool: &mut OperationPool,
    outcome: &CommandOutcome,
    is_repository: bool,
    status: &Vec<CommandOutcome>,
) -> (r: Option<GitMessage>)
    ensures
        old(pool).available == 0 ==> r is None,
        old(pool).available > 0 ==> opt_message(r) == Some(
            mutation_result(
                Operation::Fetch,
                repo_path@,
                debug_text(repo_path@),
                outcome@,
                replay(QueryStepView::begin(is_repository), outcome_views(status@), 0),
            ),
        ),
        old(pool).wf() ==> *final(pool) == *old(pool),
{
    dispatch_mutation(Operation::Fetch, repo_path, pool, outcome, is_repository, status)
}

/// What a worker outside the pool reports: where git could not be started
/// or failed, that; else the status of the repository after the operation.
pub open spec fn unpooled_result(
    operation: Operation,
    repo_path: Seq<char>,
    quoted: Seq<char>,
    outcome: OutcomeView,
    status: Result<GitInfoView, GitErrorView>,
) -> GitMessageView {
    match outcome {
        OutcomeView::SpawnFailed(reason) => GitMessageView::Error {
            repo_path,
            message: "Git "@ + operation.word() + " command failed for "@ + quoted + ": "@
                + reason,
        },
        OutcomeView::Exited { success, stdout, stderr } => if !success {
            GitMessageView::Error {
                repo_path,
                message: "Git "@ + operation.word() + " failed for "@ + quoted + ": "@ + stderr,
            }
        } else {
            match status {
                Ok(git_info) => GitMessageView::RepoStatusUpdated { repo_path, git_info },
                Err(error) => GitMessageView::Error {
                    repo_path,
                    message: "Git info update failed after "@ + operation.word() + ": "@
                        + error.text(quoted),
                },
            }
        },
    }
}

/// What a worker outside the pool reports, with the path already in quotes.
pub fn unpooled_report(
    operation: Operation,
    repo_path: &str,
    quoted: &str,
    outcome: &CommandOutcome,
    status: Result<GitInfo, GitError>,
) -> (r: GitMessage)
    ensures
        r@ == unpooled_result(operation, repo_path@, quoted@, outcome@, result_view(status)),
{
    match outcome {
        CommandOutcome::SpawnFailed(reason) => GitMessage::Error {
            repo_path: repo_path.to_owned(),
            message: "Git ".to_owned().concat(operation.name()).concat(
                " command failed for ",
            ).concat(quoted).concat(": ").concat(reason.as_str()),
        },
        CommandOutcome::Exited { success, stdout, stderr } => {
            if !*success {
                GitMessage::Error {
                    repo_path: repo_path.to_owned(),
                    message: "Git ".to_owned().concat(operation.name()).concat(
                        " failed for ",
                    ).concat(quoted).concat(": ").concat(stderr.as_str()),
                }
            } else {
                match status {
                    Ok(git_info) => GitMessage::RepoStatusUpdated {
                        repo_path: repo_path.to_owned(),
                        git_info,
                    },
                    Err(error) => {
                        let text = error.describe(quoted);
                        GitMessage::Error {
                            repo_path: repo_path.to_owned(),
                            message: "Git info update failed after ".to_owned().concat(
                                operation.name(),
                            ).concat(": ").concat(text.as_str()),
                        }
                    },
                }
            }
        },
    }
}

/// A worker that runs `operation` outside the pool and reports the status
/// after it.
pub fn dispatch_unpooled(
    operation: Operation,
    repo_path: &str,
    outcome: &CommandOutcome,
    is_repository: bool,
    status: &Vec<CommandOutcome>,
) -> (r: GitMessage)
    ensures
        r@ == unpooled_result(
            operation,
            repo_path@,
            debug_text(repo_path@),
            outcome@,
            replay(QueryStepView::begin(is_repository), outcome_views(status@), 0),
        ),
{
    let quoted = debug_quote(repo_path);
    unpooled_report(
        operation,
        repo_path,
        quoted.as_str(),
        outcome,
        get_git_info(is_repository, status),
    )
}

/// A worker that pulls outside the pool and reports the status after it.
pub fn git_pull_async(
    repo_path: &str,
    outcome: &CommandOutcome,
    is_repository: bool,
    status: &Vec<CommandOutcome>,
) -> (r: GitMessage)
    ensures
        r@ == unpooled_result(
            Operation::Pull,
            repo_path@,
            debug_text(repo_path@),
            outcome@,
            replay(QueryStepView::begin(is_repository), outcome_views(status@), 0),
        ),
{
    dispatch_unpooled(Operation::Pull, repo_path, outcome, is_repository, status)
}

/// A worker that pushes outside the pool and reports the status after it.
pub fn git_push_async(
    repo_path: &str,
    outcome: &CommandOutcome,
    is_repository: bool,
    status: &Vec<CommandOutcome>,
) -> (r: GitMessage)
    ensures
        r@ == unpooled_result(
            Operation::Push,
            repo_path@,
            debug_text(repo_path@),
            outcome@,
            replay(QueryStepView::begin(is_repository), outcome_views(status@), 0),
        ),
{
    dispatch_unpooled(Operation::Push, repo_path, outcome, is_repository, status)
}

/// A worker that fetches outside the pool and reports the status after it.
pub fn git_fetch_async(
    repo_path: &str,
    outcome: &CommandOutcome,
    is_repository: bool,
    status: &Vec<CommandOutcome>,
) -> (r: GitMessage)
    ensures
        r@ == unpooled_result(
            Operation::Fetch,
            repo_path@,
            debug_text(repo_path@),
            outcome@,
            replay(QueryStepView::begin(is_repository), outcome_views(status@), 0),
        ),
{
    dispatch_unpooled(Operation::Fetch, repo_path, outcome, is_repository, status)
}

} // verus!
