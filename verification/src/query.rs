//! The query for a repository's status, as a sequence of decisions.
//!
//! The query tells its caller which git command to run next in the
//! repository's directory, and takes the outcome back, until it ends with a
//! status or an error. A step that fails after the first leaves its field
//! without data and does not end the query.

use vstd::prelude::*;
use crate::command::{
    argv_branches, argv_current_branch, argv_remotes, argv_rev_list, argv_show_branch, argv_status,
    branches_args, current_branch_args, remotes_args, rev_list_args, show_branch_args, status_args,
    CommandOutcome, GitError, GitErrorView, OutcomeView,
};
use crate::status::{
    branch_of, changes_of, clone_opt_text, counts_of, get_remotes, local_branches, merge_branches,
    merged_branches, opt_text, parse_ahead_behind, parse_branch_listing, parse_current_branch,
    parse_has_changes, remote_branches, remotes_of, GitInfo, GitInfoView,
};
use crate::digits::{decimal, is_digit, law_decimal_round_trip};
use crate::text::{
    is_whitespace, lemma_first_index_found, lemma_trim_end, lemma_trim_start, texts, trim,
    trimmed_lines,
};

verus! {

/// The command whose outcome the query waits for.
#[derive(Clone, Copy, Debug, PartialEq, Eq, Structural)]
pub enum QueryPhase {
    /// `git branch --show-current`
    Branch,
    /// `git remote`
    Remotes,
    /// `git branch -a --sort=-committerdate`
    Branches,
    /// `git status --porcelain`
    Status,
    /// `git show-branch` on the current branch's counterpart at one remote
    Tracking,
    /// `git rev-list --count --left-right` against that counterpart
    Counting,
}

/// A query under way: what it has learned, and what it waits for.
#[derive(Debug)]
pub struct GitQuery {
    pub phase: QueryPhase,
    pub current_branch: Option<String>,
    pub remotes: Vec<String>,
    pub branches: Vec<String>,
    pub has_changes: bool,
    /// The position in `remotes` of the remote that is being looked at.
    pub next_remote: usize,
}

/// A `GitQuery` with its texts as character sequences.
pub struct GitQueryView {
    pub phase: QueryPhase,
    pub current_branch: Option<Seq<char>>,
    pub remotes: Seq<Seq<char>>,
    pub branches: Seq<Seq<char>>,
    pub has_changes: bool,
    pub next_remote: nat,
}

impl View for GitQuery {
    type V = GitQueryView;

    open spec fn view(&self) -> GitQueryView {
        GitQueryView {
            phase: self.phase,
            current_branch: opt_text(self.current_branch),
            remotes: texts(self.remotes@),
            branches: texts(self.branches@),
            has_changes: self.has_changes,
            next_remote: self.next_remote as nat,
        }
    }
}

/// What the query asks of its caller.
#[derive(Debug)]
pub enum QueryStep {
    /// Run git with `args` and hand the outcome to `query`.
    Run { query: GitQuery, args: Vec<String> },
    /// The query has ended.
    Finish(Result<GitInfo, GitError>),
}

/// A `QueryStep` with its texts as character sequences.
pub enum QueryStepView {
    Run { query: GitQueryView, args: Seq<Seq<char>> },
    Finish(Result<GitInfoView, GitErrorView>),
}

/// The view of a query's result.
pub open spec fn result_view(r: Result<GitInfo, GitError>) -> Result<GitInfoView, GitErrorView> {
    match r {
        Ok(info) => Ok(info@),
        Err(e) => Err(e@),
    }
}

impl View for QueryStep {
    type V = QueryStepView;

    open spec fn view(&self) -> QueryStepView {
        match self {
            QueryStep::Run { query, args } => QueryStepView::Run {
                query: query@,
                args: texts(args@),
            },
            QueryStep::Finish(r) => QueryStepView::Finish(result_view(*r)),
        }
    }
}

/// The name under which a repository holds `branch` of `remote`.
pub open spec fn tracking_ref(remote: Seq<char>, branch: Seq<char>) -> Seq<char> {
    remote + "/"@ + branch
}

impl GitQueryView {
    /// The query before its first command has been answered.
    pub open spec fn initial() -> GitQueryView {
        GitQueryView {
            phase: QueryPhase::Branch,
            current_branch: None,
            remotes: Seq::empty(),
            branches: Seq::empty(),
            has_changes: false,
            next_remote: 0,
        }
    }

    /// The status that the query ends with, given the two counts.
    pub open spec fn info(self, counts: (nat, nat)) -> GitInfoView {
        GitInfoView {
            current_branch: self.current_branch,
            branches: self.branches,
            ahead: counts.0,
            behind: counts.1,
            has_changes: self.has_changes,
        }
    }

    /// Looks for the current branch's counterpart at the remote in position
    /// `i`; ends the query with nothing ahead or behind where there is no
    /// current branch or no such remote.
    pub open spec fn track_from(self, i: int) -> QueryStepView {
        match self.current_branch {
            Some(branch) if 0 <= i < self.remotes.len() => QueryStepView::Run {
                query: GitQueryView { phase: QueryPhase::Tracking, next_remote: i as nat, ..self },
                args: argv_show_branch(tracking_ref(self.remotes[i], branch)),
            },
            _ => QueryStepView::Finish(Ok(self.info((0, 0)))),
        }
    }

    /// What the query does with the outcome of the command it waited for.
    pub open spec fn step(self, outcome: OutcomeView) -> QueryStepView {
        match self.phase {
            QueryPhase::Branch => match outcome {
                OutcomeView::SpawnFailed(reason) => QueryStepView::Finish(
                    Err(GitErrorView::ProcessSpawnFailure(reason)),
                ),
                OutcomeView::Exited { stdout, .. } => QueryStepView::Run {
                    query: GitQueryView {
                        phase: QueryPhase::Remotes,
                        current_branch: branch_of(stdout),
                        ..self
                    },
                    args: argv_remotes(),
                },
            },
            QueryPhase::Remotes => QueryStepView::Run {
                query: GitQueryView {
                    phase: QueryPhase::Branches,
                    remotes: remotes_of(outcome),
                    ..self
                },
                args: argv_branches(),
            },
            QueryPhase::Branches => QueryStepView::Run {
                query: GitQueryView {
                    phase: QueryPhase::Status,
                    branches: merged_branches(
                        local_branches(trimmed_lines(outcome.data())),
                        remote_branches(trimmed_lines(outcome.data())),
                        self.remotes,
                    ),
                    ..self
                },
                args: argv_status(),
            },
            QueryPhase::Status => GitQueryView {
                has_changes: changes_of(outcome),
                ..self
            }.track_from(0),
            QueryPhase::Tracking => match self.current_branch {
                Some(branch) if outcome.succeeded() && self.next_remote
                    < self.remotes.len() => QueryStepView::Run {
                    query: GitQueryView { phase: QueryPhase::Counting, ..self },
                    args: argv_rev_list(
                        branch,
                        tracking_ref(self.remotes[self.next_remote as int], branch),
                    ),
                },
                _ => self.track_from(self.next_remote as int + 1),
            },
            QueryPhase::Counting => match self.current_branch {
                Some(_) => QueryStepView::Finish(Ok(self.info(counts_of(outcome)))),
                None => QueryStepView::Finish(Ok(self.info((0, 0)))),
            },
        }
    }

    /// How far the query is from its end at most, as a rank of the phase and
    /// a count within the phase.
    pub open spec fn distance(self) -> (int, int) {
        let left = if self.next_remote < self.remotes.len() {
            self.remotes.len() - self.next_remote
        } else {
            0
        };
        match self.phase {
            QueryPhase::Branch => (5, 0),
            QueryPhase::Remotes => (4, 0),
            QueryPhase::Branches => (3, 0),
            QueryPhase::Status => (2, 0),
            QueryPhase::Tracking => (1, 2 * left + 1),
            QueryPhase::Counting => (1, 2 * left),
        }
    }
}

impl QueryStepView {
    /// The first step of a query: the precheck decides whether any command
    /// is run.
    pub open spec fn begin(is_repository: bool) -> QueryStepView {
        if is_repository {
            QueryStepView::Run { query: GitQueryView::initial(), args: argv_current_branch() }
        } else {
            QueryStepView::Finish(Err(GitErrorView::NotARepository))
        }
    }

    /// How far the query is from its end at most.
    pub open spec fn distance(self) -> (int, int) {
        match self {
            QueryStepView::Run { query, .. } => query.distance(),
            QueryStepView::Finish(_) => (0, 0),
        }
    }

    /// A status that the step ends with is well formed.
    pub open spec fn ends_well(self) -> bool {
        self matches QueryStepView::Finish(Ok(info)) ==> info.well_formed()
    }
}

/// Each step brings the query nearer to its end, and a status that it ends
/// with is well formed.
pub proof fn law_steps_make_progress(q: GitQueryView, outcome: OutcomeView)
    ensures
        q.step(outcome).distance().0 < q.distance().0 || (q.step(outcome).distance().0
            == q.distance().0 && 0 <= q.step(outcome).distance().1 < q.distance().1),
        q.step(outcome).ends_well(),
{
}

impl GitQuery {
    fn finish(self, ahead: usize, behind: usize) -> (r: QueryStep)
        ensures
            r@ == QueryStepView::Finish(Ok(self@.info((ahead as nat, behind as nat)))),
    {
        QueryStep::Finish(
            Ok(
                GitInfo {
                    current_branch: self.current_branch,
                    branches: self.branches,
                    ahead,
                    behind,
                    has_changes: self.has_changes,
                },
            ),
        )
    }

    fn track(self, i: usize) -> (r: QueryStep)
        ensures
            r@ == self@.track_from(i as int),
    {
        if self.current_branch.is_some() && i < self.remotes.len() {
            let branch = clone_opt_text(&self.current_branch).unwrap();
            let tracking = self.remotes[i].clone().concat("/").concat(branch.as_str());
            let args = show_branch_args(tracking.as_str());
            proof {
                assert(texts(self.remotes@)[i as int] == self.remotes@[i as int]@);
            }
            let mut query = self;
            query.phase = QueryPhase::Tracking;
            query.next_remote = i;
            QueryStep::Run { query, args }
        } else {
            self.finish(0, 0)
        }
    }

    /// Begins a query. `is_repository` is the precheck: whether the path
    /// holds a `.git` entry.
    pub fn start(is_repository: bool) -> (r: QueryStep)
        ensures
            r@ == QueryStepView::begin(is_repository),
    {
        if is_repository {
            let query = GitQuery {
                phase: QueryPhase::Branch,
                current_branch: None,
                remotes: Vec::new(),
                branches: Vec::new(),
                has_changes: false,
                next_remote: 0,
            };
            proof {
                assert(texts(query.remotes@) =~= Seq::<Seq<char>>::empty());
                assert(texts(query.branches@) =~= Seq::<Seq<char>>::empty());
            }
            QueryStep::Run { query, args: current_branch_args() }
        } else {
            QueryStep::Finish(Err(GitError::NotARepository))
        }
    }

    /// Takes the outcome of the command that the query asked for, and says
    /// what comes next.
    pub fn advance(self, outcome: &CommandOutcome) -> (r: QueryStep)
        ensures
            r@ == self@.step(outcome@),
            r@.ends_well(),
    {
        proof {
            law_steps_make_progress(self@, outcome@);
        }
        let mut query = self;
        match query.phase {
            QueryPhase::Branch => match outcome {
                CommandOutcome::SpawnFailed(reason) => QueryStep::Finish(
                    Err(GitError::ProcessSpawnFailure(reason.clone())),
                ),
                CommandOutcome::Exited { stdout, .. } => {
                    query.current_branch = parse_current_branch(stdout.as_str());
                    query.phase = QueryPhase::Remotes;
                    QueryStep::Run { query, args: remotes_args() }
                },
            },
            QueryPhase::Remotes => {
                query.remotes = get_remotes(outcome);
                query.phase = QueryPhase::Branches;
                QueryStep::Run { query, args: branches_args() }
            },
            QueryPhase::Branches => {
                let listing = parse_branch_listing(outcome.data());
                query.branches = merge_branches(&listing, &query.remotes);
                query.phase = QueryPhase::Status;
                QueryStep::Run { query, args: status_args() }
            },
            QueryPhase::Status => {
                query.has_changes = parse_has_changes(outcome);
                query.track(0)
            },
            QueryPhase::Tracking => {
                if query.next_remote < query.remotes.len() {
                    if outcome.succeeded() && query.current_branch.is_some() {
                        let branch = clone_opt_text(&query.current_branch).unwrap();
                        let tracking = query.remotes[query.next_remote].clone().concat(
                            "/",
                        ).concat(branch.as_str());
                        let args = rev_list_args(branch.as_str(), tracking.as_str());
                        proof {
                            assert(texts(query.remotes@)[query.next_remote as int]
                                == query.remotes@[query.next_remote as int]@);
                        }
                        query.phase = QueryPhase::Counting;
                        QueryStep::Run { query, args }
                    } else {
                        let next = query.next_remote + 1;
                        query.track(next)
                    }
                } else {
                    query.finish(0, 0)
                }
            },
            QueryPhase::Counting => {
                if query.current_branch.is_some() {
                    let counts = parse_ahead_behind(outcome);
                    query.finish(counts.0, counts.1)
                } else {
                    query.finish(0, 0)
                }
            },
        }
    }
}

/// The views of a list of outcomes.
pub open spec fn outcome_views(v: Seq<CommandOutcome>) -> Seq<OutcomeView> {
    Seq::new(v.len(), |i: int| v[i]@)
}

/// The outcome in position `i` of a transcript; past its end, that of a
/// process that could not be started, with no reason given.
pub open spec fn outcome_at(outcomes: Seq<OutcomeView>, i: int) -> OutcomeView {
    if 0 <= i < outcomes.len() {
        outcomes[i]
    } else {
        OutcomeView::SpawnFailed(Seq::empty())
    }
}

/// Where a query ends that stands at `step` and takes its outcomes from
/// position `i` of the transcript on.
pub open spec fn replay(step: QueryStepView, outcomes: Seq<OutcomeView>, i: int) -> Result<
    GitInfoView,
    GitErrorView,
>
    decreases step.distance().0, step.distance().1,
{
    match step {
        QueryStepView::Finish(r) => r,
        QueryStepView::Run { query, .. } => replay(
            query.step(outcome_at(outcomes, i)),
            outcomes,
            i + 1,
        ),
    }
}

/// Where a query on a repository ends, by the outcome of its first command:
/// with a failure where the command could not be started, with a status
/// else.
pub open spec fn ends_as_owed(
    result: Result<GitInfoView, GitErrorView>,
    is_repository: bool,
    first: OutcomeView,
) -> bool {
    if !is_repository {
        result == Err::<GitInfoView, GitErrorView>(GitErrorView::NotARepository)
    } else {
        match first {
            OutcomeView::SpawnFailed(reason) => result == Err::<GitInfoView, GitErrorView>(
                GitErrorView::ProcessSpawnFailure(reason),
            ),
            OutcomeView::Exited { .. } => result is Ok,
        }
    }
}

/// After its first command a query cannot fail: whatever the later
/// commands answer, it ends with a status.
pub proof fn law_later_failures_are_swallowed(
    query: GitQueryView,
    args: Seq<Seq<char>>,
    outcomes: Seq<OutcomeView>,
    i: int,
)
    requires
        query.phase != QueryPhase::Branch,
    ensures
        replay(QueryStepView::Run { query, args }, outcomes, i) is Ok,
    decreases query.distance().0, query.distance().1,
{
    let next = query.step(outcome_at(outcomes, i));
    law_steps_make_progress(query, outcome_at(outcomes, i));
    assert(replay(QueryStepView::Run { query, args }, outcomes, i) == replay(
        next,
        outcomes,
        i + 1,
    ));
    match next {
        QueryStepView::Finish(result) => {
            assert(result is Ok);
        },
        QueryStepView::Run { query: later, args: later_args } => {
            law_later_failures_are_swallowed(later, later_args, outcomes, i + 1);
        },
    }
}

/// A query fails only at its precheck or where its first command cannot be
/// started.
pub proof fn law_query_ends_as_owed(is_repository: bool, outcomes: Seq<OutcomeView>)
    ensures
        ends_as_owed(
            replay(QueryStepView::begin(is_repository), outcomes, 0),
            is_repository,
            outcome_at(outcomes, 0),
        ),
{
    if is_repository {
        let first = GitQueryView::initial().step(outcome_at(outcomes, 0));
        assert(replay(QueryStepView::begin(true), outcomes, 0) == replay(first, outcomes, 1));
        match first {
            QueryStepView::Finish(_) => {},
            QueryStepView::Run { query, args } => {
                law_later_failures_are_swallowed(query, args, outcomes, 1);
            },
        }
    }
}

/// The status of a repository, from the outcomes of the commands that the
/// query asks for, in the order in which it asks. `is_repository` is the
/// precheck: whether the path holds a `.git` entry. An outcome that the
/// transcript lacks counts as that of a process that could not be started.
pub fn get_git_info(
    is_repository: bool,
    outcomes: &Vec<CommandOutcome>,
) -> (r: Result<GitInfo, GitError>)
    ensures
        result_view(r) == replay(QueryStepView::begin(is_repository), outcome_views(outcomes@), 0),
        ends_as_owed(result_view(r), is_repository, outcome_at(outcome_views(outcomes@), 0)),
        r matches Ok(info) ==> info@.well_formed(),
{
    let missing = CommandOutcome::SpawnFailed(String::new());
    let mut step = GitQuery::start(is_repository);
    let mut i: usize = 0;
    let ghost mut asked: int = 0;
    loop
        invariant
            i <= outcomes.len(),
            i <= asked,
            i < outcomes.len() ==> i == asked,
            missing@ == OutcomeView::SpawnFailed(Seq::empty()),
            step@.ends_well(),
            replay(step@, outcome_views(outcomes@), asked) == replay(
                QueryStepView::begin(is_repository),
                outcome_views(outcomes@),
                0,
            ),
        decreases step@.distance().0, step@.distance().1,
    {
        match step {
            QueryStep::Finish(r) => {
                proof {
                    law_query_ends_as_owed(is_repository, outcome_views(outcomes@));
                }
                return r;
            },
            QueryStep::Run { query, args } => {
                proof {
                    law_steps_make_progress(query@, outcome_at(outcome_views(outcomes@), asked));
                }
                if i < outcomes.len() {
                    step = query.advance(&outcomes[i]);
                    i += 1;
                } else {
                    step = query.advance(&missing);
                }
                proof {
                    asked = asked + 1;
                }
            },
        }
    }
}

/// What git prints for so many commits ahead and so many behind: the two
/// numbers with a tab between them.
pub open spec fn counts_text(ahead: nat, behind: nat) -> Seq<char> {
    decimal(ahead) + seq!['\t'] + decimal(behind)
}

/// The counts that git prints are the counts that the query reports: a
/// query that waits for the counts and has a current branch ends with
/// exactly the two numbers that the command wrote.
pub proof fn law_counts_round_trip(
    query: GitQueryView,
    ahead: nat,
    behind: nat,
    stderr: Seq<char>,
)
    requires
        query.phase == QueryPhase::Counting,
        query.current_branch is Some,
        ahead <= usize::MAX,
        behind <= usize::MAX,
    ensures
        counts_of(
            OutcomeView::Exited { success: true, stdout: counts_text(ahead, behind), stderr },
        ) == (ahead, behind),
        query.step(
            OutcomeView::Exited { success: true, stdout: counts_text(ahead, behind), stderr },
        ) == QueryStepView::Finish(Ok(query.info((ahead, behind)))),
{
    let a = decimal(ahead);
    let b = decimal(behind);
    let t = counts_text(ahead, behind);
    law_decimal_round_trip(ahead);
    law_decimal_round_trip(behind);
    assert(t[0] == a[0]);
    assert(t.last() == b.last());
    assert(is_digit(a[0]) && is_digit(b.last()));
    assert(!is_whitespace(t[0]) && !is_whitespace(t.last()));
    lemma_trim_start(t, 0);
    assert(t.skip(0) =~= t);
    lemma_trim_end(t, t.len() as int);
    assert(t.take(t.len() as int) =~= t);
    assert(trim(t) == t);
    assert forall|j: int| 0 <= j < a.len() implies t[j] != '\t' by {
        assert(t[j] == a[j]);
        assert(is_digit(a[j]));
    }
    assert(t[a.len() as int] == '\t');
    lemma_first_index_found(t, '\t', a.len() as int);
    assert(t.take(a.len() as int) =~= a);
    assert(t.skip(a.len() as int + 1) =~= b);
}

/// Without a counterpart at any remote nothing is ahead or behind: a query
/// that looks for the current branch's counterpart and finds none at the
/// remote it looks at, nor at any after it, ends with both counts at zero.
pub proof fn law_no_tracking_branch(
    query: GitQueryView,
    args: Seq<Seq<char>>,
    outcomes: Seq<OutcomeView>,
    i: int,
)
    requires
        query.phase == QueryPhase::Tracking,
        forall|j: int| j >= i ==> !(#[trigger] outcome_at(outcomes, j)).succeeded(),
    ensures
        replay(QueryStepView::Run { query, args }, outcomes, i) == Ok::<
            GitInfoView,
            GitErrorView,
        >(query.info((0, 0))),
    decreases query.distance().1,
{
    let next = query.step(outcome_at(outcomes, i));
    assert(!outcome_at(outcomes, i).succeeded());
    assert(replay(QueryStepView::Run { query, args }, outcomes, i) == replay(
        next,
        outcomes,
        i + 1,
    ));
    match next {
        QueryStepView::Finish(_) => {},
        QueryStepView::Run { query: later, args: later_args } => {
            law_no_tracking_branch(later, later_args, outcomes, i + 1);
            assert(later.info((0, 0)) == query.info((0, 0)));
        },
    }
}

/// Whatever the commands answer, a query that ends with a status ends with
/// a well-formed one: without a current branch nothing is ahead or behind.
pub proof fn law_status_is_well_formed(step: QueryStepView, outcomes: Seq<OutcomeView>, i: int)
    requires
        step.ends_well(),
    ensures
        replay(step, outcomes, i) matches Ok(info) ==> info.well_formed(),
    decreases step.distance().0, step.distance().1,
{
    match step {
        QueryStepView::Finish(_) => {},
        QueryStepView::Run { query, .. } => {
            law_steps_make_progress(query, outcome_at(outcomes, i));
            law_status_is_well_formed(query.step(outcome_at(outcomes, i)), outcomes, i + 1);
        },
    }
}

} // verus!
