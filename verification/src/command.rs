//! What is asked of the git executable, and what comes back.
//!
//! The library never starts a process. It names the argument vectors to run
//! in a repository's directory, and reads the outcome that its caller hands
//! back.

use vstd::prelude::*;
use crate::text::texts;

verus! {

/// How one run of the git executable ended.
#[derive(Debug)]
pub enum CommandOutcome {
    /// The process could not be started; the text says why.
    SpawnFailed(String),
    /// The process ran to its end.
    Exited { success: bool, stdout: String, stderr: String },
}

/// A `CommandOutcome` with its texts as character sequences.
pub enum OutcomeView {
    SpawnFailed(Seq<char>),
    Exited { success: bool, stdout: Seq<char>, stderr: Seq<char> },
}

impl View for CommandOutcome {
    type V = OutcomeView;

    open spec fn view(&self) -> OutcomeView {
        match self {
            CommandOutcome::SpawnFailed(reason) => OutcomeView::SpawnFailed(reason@),
            CommandOutcome::Exited { success, stdout, stderr } => OutcomeView::Exited {
                success: *success,
                stdout: stdout@,
                stderr: stderr@,
            },
        }
    }
}

impl OutcomeView {
    /// The process ran and reported success.
    pub open spec fn succeeded(self) -> bool {
        self matches OutcomeView::Exited { success, .. } && success
    }

    /// What the process wrote to its standard output, if it ran and
    /// reported success; nothing otherwise.
    pub open spec fn data(self) -> Seq<char> {
        match self {
            OutcomeView::Exited { success, stdout, .. } if success => stdout,
            _ => Seq::empty(),
        }
    }
}

impl CommandOutcome {
    /// Whether the process ran and reported success.
    pub fn succeeded(&self) -> (r: bool)
        ensures
            r == self@.succeeded(),
    {
        match self {
            CommandOutcome::Exited { success, .. } => *success,
            CommandOutcome::SpawnFailed(_) => false,
        }
    }

    /// What the process wrote to its standard output, if it ran and
    /// reported success; the empty text otherwise.
    pub fn data(&self) -> (r: &str)
        ensures
            r@ == self@.data(),
    {
        proof {
            reveal_strlit("");
            assert(""@ =~= Seq::<char>::empty());
        }
        match self {
            CommandOutcome::Exited { success, stdout, .. } => {
                if *success {
                    stdout.as_str()
                } else {
                    ""
                }
            },
            CommandOutcome::SpawnFailed(_) => "",
        }
    }
}

/// The operations whose failure is reported with the text that git wrote.
#[derive(Clone, Copy, Debug, PartialEq, Eq, Structural)]
pub enum Operation {
    Fetch,
    Pull,
    Push,
    Reset,
    Checkout,
}

impl Operation {
    /// The operation's word in a failure text.
    pub open spec fn word(self) -> Seq<char> {
        match self {
            Operation::Fetch => "fetch"@,
            Operation::Pull => "pull"@,
            Operation::Push => "push"@,
            Operation::Reset => "reset"@,
            Operation::Checkout => "checkout"@,
        }
    }

    /// The operation's word in a failure text.
    pub fn name(self) -> (r: &'static str)
        ensures
            r@ == self.word(),
    {
        match self {
            Operation::Fetch => "fetch",
            Operation::Pull => "pull",
            Operation::Push => "push",
            Operation::Reset => "reset",
            Operation::Checkout => "checkout",
        }
    }
}

/// Why a query or an operation on one repository failed.
#[derive(Debug)]
pub enum GitError {
    /// The path holds no `.git` entry.
    NotARepository,
    /// The git executable could not be started; the text says why.
    ProcessSpawnFailure(String),
    /// Git ran and reported failure; `stderr` is what it wrote.
    CommandFailure { operation: Operation, stderr: String },
    /// A remote branch reference with fewer than three segments.
    InvalidBranchFormat,
    /// No slot of the pool came free in the time allowed.
    PoolTimeout,
}

/// A `GitError` with its texts as character sequences.
pub enum GitErrorView {
    NotARepository,
    ProcessSpawnFailure(Seq<char>),
    CommandFailure { operation: Operation, stderr: Seq<char> },
    InvalidBranchFormat,
    PoolTimeout,
}

impl View for GitError {
    type V = GitErrorView;

    open spec fn view(&self) -> GitErrorView {
        match self {
            GitError::NotARepository => GitErrorView::NotARepository,
            GitError::ProcessSpawnFailure(reason) => GitErrorView::ProcessSpawnFailure(reason@),
            GitError::CommandFailure { operation, stderr } => GitErrorView::CommandFailure {
                operation: *operation,
                stderr: stderr@,
            },
            GitError::InvalidBranchFormat => GitErrorView::InvalidBranchFormat,
            GitError::PoolTimeout => GitErrorView::PoolTimeout,
        }
    }
}

impl GitErrorView {
    /// The error as a sentence; `quoted` is the repository's path in quotes.
    pub open spec fn text(self, quoted: Seq<char>) -> Seq<char> {
        match self {
            GitErrorView::NotARepository => quoted + " is not a git repository"@,
            GitErrorView::ProcessSpawnFailure(reason) => reason,
            GitErrorView::CommandFailure { operation, stderr } => "Git "@ + operation.word()
                + " failed: "@ + stderr,
            GitErrorView::InvalidBranchFormat => "Invalid remote branch name format"@,
            GitErrorView::PoolTimeout => "Timeout waiting for available slot for "@ + quoted,
        }
    }
}

impl GitError {
    /// The error as a sentence; `quoted` is the repository's path in quotes.
    pub fn describe(&self, quoted: &str) -> (r: String)
        ensures
            r@ == self@.text(quoted@),
    {
        match self {
            GitError::NotARepository => quoted.to_owned().concat(" is not a git repository"),
            GitError::ProcessSpawnFailure(reason) => reason.clone(),
            GitError::CommandFailure { operation, stderr } => "Git ".to_owned().concat(
                operation.name(),
            ).concat(" failed: ").concat(stderr.as_str()),
            GitError::InvalidBranchFormat => "Invalid remote branch name format".to_owned(),
            GitError::PoolTimeout => "Timeout waiting for available slot for ".to_owned().concat(
                quoted,
            ),
        }
    }
}

/// Reads the end of an operation that changes a repository: a process that
/// could not be started or that reported failure is the operation's failure.
pub open spec fn verdict(operation: Operation, outcome: OutcomeView) -> Result<(), GitErrorView> {
    match outcome {
        OutcomeView::SpawnFailed(reason) => Err(GitErrorView::ProcessSpawnFailure(reason)),
        OutcomeView::Exited { success, stdout, stderr } => if success {
            Ok(())
        } else {
            Err(GitErrorView::CommandFailure { operation, stderr })
        },
    }
}

/// The view of a result whose error is a `GitError`.
pub open spec fn unit_result_view(r: Result<(), GitError>) -> Result<(), GitErrorView> {
    match r {
        Ok(()) => Ok(()),
        Err(e) => Err(e@),
    }
}

/// Reads the end of an operation that changes a repository.
pub fn interpret(operation: Operation, outcome: &CommandOutcome) -> (r: Result<(), GitError>)
    ensures
        unit_result_view(r) == verdict(operation, outcome@),
{
    match outcome {
        CommandOutcome::SpawnFailed(reason) => Err(GitError::ProcessSpawnFailure(reason.clone())),
        CommandOutcome::Exited { success, stdout, stderr } => {
            if *success {
                Ok(())
            } else {
                Err(GitError::CommandFailure { operation, stderr: stderr.clone() })
            }
        },
    }
}

/// `git branch --show-current`
pub open spec fn argv_current_branch() -> Seq<Seq<char>> {
    seq!["branch"@, "--show-current"@]
}

/// `git remote`
pub open spec fn argv_remotes() -> Seq<Seq<char>> {
    seq!["remote"@]
}

/// `git branch -a --sort=-committerdate`
pub open spec fn argv_branches() -> Seq<Seq<char>> {
    seq!["branch"@, "-a"@, "--sort=-committerdate"@]
}

/// `git status --porcelain`
pub open spec fn argv_status() -> Seq<Seq<char>> {
    seq!["status"@, "--porcelain"@]
}

/// `git show-branch <tracking>`
pub open spec fn argv_show_branch(tracking: Seq<char>) -> Seq<Seq<char>> {
    seq!["show-branch"@, tracking]
}

/// `git rev-list --count --left-right <local>...<tracking>`
pub open spec fn argv_rev_list(local: Seq<char>, tracking: Seq<char>) -> Seq<Seq<char>> {
    seq!["rev-list"@, "--count"@, "--left-right"@, local + "..."@ + tracking]
}

/// The argument vector of an operation that takes no name.
pub open spec fn argv_operation(operation: Operation) -> Seq<Seq<char>> {
    match operation {
        Operation::Fetch => seq!["fetch"@],
        Operation::Pull => seq!["pull"@],
        Operation::Push => seq!["push"@],
        Operation::Reset => seq!["reset"@, "--hard"@],
        Operation::Checkout => seq!["checkout"@],
    }
}

/// `git checkout <name>`
pub open spec fn argv_checkout(name: Seq<char>) -> Seq<Seq<char>> {
    seq!["checkout"@, name]
}

/// `git checkout -b <local> <remote_ref>`
pub open spec fn argv_checkout_tracking(local: Seq<char>, remote_ref: Seq<char>) -> Seq<
    Seq<char>,
> {
    seq!["checkout"@, "-b"@, local, remote_ref]
}

/// `git show-ref --verify --quiet refs/heads/<local>`
pub open spec fn argv_show_ref(local: Seq<char>) -> Seq<Seq<char>> {
    seq!["show-ref"@, "--verify"@, "--quiet"@, "refs/heads/"@ + local]
}

fn words1(a: &str) -> (r: Vec<String>)
    ensures
        texts(r@) == seq![a@],
{
    let mut r: Vec<String> = Vec::new();
    r.push(a.to_owned());
    assert(texts(r@) =~= seq![a@]);
    r
}

fn words2(a: &str, b: &str) -> (r: Vec<String>)
    ensures
        texts(r@) == seq![a@, b@],
{
    let mut r: Vec<String> = Vec::new();
    r.push(a.to_owned());
    r.push(b.to_owned());
    assert(texts(r@) =~= seq![a@, b@]);
    r
}

fn words3(a: &str, b: &str, c: &str) -> (r: Vec<String>)
    ensures
        texts(r@) == seq![a@, b@, c@],
{
    let mut r: Vec<String> = Vec::new();
    r.push(a.to_owned());
    r.push(b.to_owned());
    r.push(c.to_owned());
    assert(texts(r@) =~= seq![a@, b@, c@]);
    r
}

fn words4(a: &str, b: &str, c: &str, d: &str) -> (r: Vec<String>)
    ensures
        texts(r@) == seq![a@, b@, c@, d@],
{
    let mut r: Vec<String> = Vec::new();
    r.push(a.to_owned());
    r.push(b.to_owned());
    r.push(c.to_owned());
    r.push(d.to_owned());
    assert(texts(r@) =~= seq![a@, b@, c@, d@]);
    r
}

/// The arguments of `git branch --show-current`.
pub fn current_branch_args() -> (r: Vec<String>)
    ensures
        texts(r@) == argv_current_branch(),
{
    words2("branch", "--show-current")
}

/// The arguments of `git remote`.
pub fn remotes_args() -> (r: Vec<String>)
    ensures
        texts(r@) == argv_remotes(),
{
    words1("remote")
}

/// The arguments of `git branch -a --sort=-committerdate`.
pub fn branches_args() -> (r: Vec<String>)
    ensures
        texts(r@) == argv_branches(),
{
    words3("branch", "-a", "--sort=-committerdate")
}

/// The arguments of `git status --porcelain`.
pub fn status_args() -> (r: Vec<String>)
    ensures
        texts(r@) == argv_status(),
{
    words2("status", "--porcelain")
}

/// The arguments of `git show-branch <tracking>`.
pub fn show_branch_args(tracking: &str) -> (r: Vec<String>)
    ensures
        texts(r@) == argv_show_branch(tracking@),
{
    words2("show-branch", tracking)
}

/// The arguments of `git rev-list --count --left-right <local>...<tracking>`.
pub fn rev_list_args(local: &str, tracking: &str) -> (r: Vec<String>)
    ensures
        texts(r@) == argv_rev_list(local@, tracking@),
{
    let range = local.to_owned().concat("...").concat(tracking);
    words4("rev-list", "--count", "--left-right", range.as_str())
}

/// The arguments of an operation that takes no name.
pub fn operation_args(operation: Operation) -> (r: Vec<String>)
    ensures
        texts(r@) == argv_operation(operation),
{
    match operation {
        Operation::Fetch => words1("fetch"),
        Operation::Pull => words1("pull"),
        Operation::Push => words1("push"),
        Operation::Reset => words2("reset", "--hard"),
        Operation::Checkout => words1("checkout"),
    }
}

/// The arguments of `git checkout <name>`.
pub fn checkout_args(name: &str) -> (r: Vec<String>)
    ensures
        texts(r@) == argv_checkout(name@),
{
    words2("checkout", name)
}

/// The arguments of `git checkout -b <local> <remote_ref>`.
pub fn checkout_tracking_args(local: &str, remote_ref: &str) -> (r: Vec<String>)
    ensures
        texts(r@) == argv_checkout_tracking(local@, remote_ref@),
{
    words4("checkout", "-b", local, remote_ref)
}

/// The arguments of `git show-ref --verify --quiet refs/heads/<local>`.
pub fn show_ref_args(local: &str) -> (r: Vec<String>)
    ensures
        texts(r@) == argv_show_ref(local@),
{
    let full = "refs/heads/".to_owned().concat(local);
    words4("show-ref", "--verify", "--quiet", full.as_str())
}

} // verus!
