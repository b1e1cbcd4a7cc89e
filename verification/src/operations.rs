//! The operations that change a repository: what to run, and how to read
//! what came back.

use vstd::prelude::*;
use crate::command::{
    argv_checkout, argv_checkout_tracking, argv_show_ref, checkout_args, checkout_tracking_args,
    interpret, show_ref_args, unit_result_view, verdict, CommandOutcome, GitError, GitErrorView,
    Operation, OutcomeView,
};
use crate::query::outcome_at;
use crate::query::outcome_views;
use crate::text::{
    chars_of, find_char, first_index, has_prefix, join, law_first_index_is_first,
    law_join_undoes_split, split, starts_with, texts,
};

verus! {

/// Reads the end of `git fetch`.
pub fn git_fetch(outcome: &CommandOutcome) -> (r: Result<(), GitError>)
    ensures
        unit_result_view(r) == verdict(Operation::Fetch, outcome@),
{
    interpret(Operation::Fetch, outcome)
}

/// Reads the end of `git pull`.
pub fn git_pull(outcome: &CommandOutcome) -> (r: Result<(), GitError>)
    ensures
        unit_result_view(r) == verdict(Operation::Pull, outcome@),
{
    interpret(Operation::Pull, outcome)
}

/// Reads the end of `git push`.
pub fn git_push(outcome: &CommandOutcome) -> (r: Result<(), GitError>)
    ensures
        unit_result_view(r) == verdict(Operation::Push, outcome@),
{
    interpret(Operation::Push, outcome)
}

/// Reads the end of `git reset --hard`.
pub fn git_reset_hard(outcome: &CommandOutcome) -> (r: Result<(), GitError>)
    ensures
        unit_result_view(r) == verdict(Operation::Reset, outcome@),
{
    interpret(Operation::Reset, outcome)
}

/// Reads the end of `git fetch` run under the pool.
pub fn git_fetch_fast(outcome: &CommandOutcome) -> (r: Result<(), GitError>)
    ensures
        unit_result_view(r) == verdict(Operation::Fetch, outcome@),
{
    interpret(Operation::Fetch, outcome)
}

/// Reads the end of `git pull` run under the pool.
pub fn git_pull_fast(outcome: &CommandOutcome) -> (r: Result<(), GitError>)
    ensures
        unit_result_view(r) == verdict(Operation::Pull, outcome@),
{
    interpret(Operation::Pull, outcome)
}

/// Reads the end of `git push` run under the pool.
pub fn git_push_fast(outcome: &CommandOutcome) -> (r: Result<(), GitError>)
    ensures
        unit_result_view(r) == verdict(Operation::Push, outcome@),
{
    interpret(Operation::Push, outcome)
}

/// Reads the end of `git reset --hard` run under the pool.
pub fn git_reset_hard_fast(outcome: &CommandOutcome) -> (r: Result<(), GitError>)
    ensures
        unit_result_view(r) == verdict(Operation::Reset, outcome@),
{
    interpret(Operation::Reset, outcome)
}

/// Reads the end of `git checkout <name>`, the plain switch to a branch.
pub fn switch_branch_fast(outcome: &CommandOutcome) -> (r: Result<(), GitError>)
    ensures
        unit_result_view(r) == verdict(Operation::Checkout, outcome@),
{
    interpret(Operation::Checkout, outcome)
}

/// The local name of a remote branch reference: what follows its second
/// `/`. None where the reference has fewer than three segments.
pub open spec fn local_of_remote_ref(name: Seq<char>) -> Option<Seq<char>> {
    let first = first_index(name, '/');
    if 0 <= first < name.len() {
        let second = first + 1 + first_index(name.skip(first + 1), '/');
        if first < second < name.len() {
            Some(name.skip(second + 1))
        } else {
            None
        }
    } else {
        None
    }
}

/// The local name of a remote branch reference.
pub fn local_branch_name(name: &str) -> (r: Option<String>)
    ensures
        crate::status::opt_text(r) == local_of_remote_ref(name@),
{
    let v = chars_of(name);
    let n = v.len();
    let first = find_char(&v, 0, n, '/');
    proof {
        assert(v@.subrange(0, n as int) =~= v@);
    }
    if first >= n {
        return None;
    }
    let second = find_char(&v, first + 1, n, '/');
    proof {
        assert(v@.subrange(first + 1, n as int) =~= v@.skip(first + 1));
    }
    if second >= n {
        return None;
    }
    let local = name.substring_char(second + 1, n).to_owned();
    proof {
        assert(local@ =~= name@.skip(second + 1));
    }
    Some(local)
}

/// A switch of branch under way.
#[derive(Debug)]
pub struct BranchSwitch {
    /// The branch that was asked for.
    pub branch_name: String,
    /// The local branch that is switched to.
    pub local_name: String,
    /// Whether the answer awaited says if the local branch exists.
    pub verifying: bool,
}

/// A `BranchSwitch` with its texts as character sequences.
pub struct BranchSwitchView {
    pub branch_name: Seq<char>,
    pub local_name: Seq<char>,
    pub verifying: bool,
}

impl View for BranchSwitch {
    type V = BranchSwitchView;

    open spec fn view(&self) -> BranchSwitchView {
        BranchSwitchView {
            branch_name: self.branch_name@,
            local_name: self.local_name@,
            verifying: self.verifying,
        }
    }
}

/// What a switch of branch asks of its caller.
#[derive(Debug)]
pub enum SwitchStep {
    /// Run git with `args` and hand the outcome to `switch`.
    Run { switch: BranchSwitch, args: Vec<String> },
    /// The switch has ended.
    Finish(Result<(), GitError>),
}

/// A `SwitchStep` with its texts as character sequences.
pub enum SwitchStepView {
    Run { switch: BranchSwitchView, args: Seq<Seq<char>> },
    Finish(Result<(), GitErrorView>),
}

impl View for SwitchStep {
    type V = SwitchStepView;

    open spec fn view(&self) -> SwitchStepView {
        match self {
            SwitchStep::Run { switch, args } => SwitchStepView::Run {
                switch: switch@,
                args: texts(args@),
            },
            SwitchStep::Finish(r) => SwitchStepView::Finish(unit_result_view(*r)),
        }
    }
}

impl SwitchStepView {
    /// The first step of a switch to `name`. A remote branch reference is
    /// first looked up as a local branch; one with fewer than three segments
    /// is refused before any command is run. Any other name is checked out as
    /// it is.
    pub open spec fn begin(name: Seq<char>) -> SwitchStepView {
        if starts_with(name, "remotes/"@) {
            match local_of_remote_ref(name) {
                Some(local) => SwitchStepView::Run {
                    switch: BranchSwitchView {
                        branch_name: name,
                        local_name: local,
                        verifying: true,
                    },
                    args: argv_show_ref(local),
                },
                None => SwitchStepView::Finish(Err(GitErrorView::InvalidBranchFormat)),
            }
        } else {
            SwitchStepView::Run {
                switch: BranchSwitchView { branch_name: name, local_name: name, verifying: false },
                args: argv_checkout(name),
            }
        }
    }
}

impl BranchSwitchView {
    /// What the switch does with the outcome of the command it waited for.
    /// Where the local branch exists it is checked out; where it does not, it
    /// is created to track the remote one. The checkout's end is the
    /// switch's.
    pub open spec fn step(self, outcome: OutcomeView) -> SwitchStepView {
        if self.verifying {
            match outcome {
                OutcomeView::SpawnFailed(reason) => SwitchStepView::Finish(
                    Err(GitErrorView::ProcessSpawnFailure(reason)),
                ),
                OutcomeView::Exited { success, .. } => SwitchStepView::Run {
                    switch: BranchSwitchView { verifying: false, ..self },
                    args: if success {
                        argv_checkout(self.local_name)
                    } else {
                        argv_checkout_tracking(self.local_name, self.branch_name)
                    },
                },
            }
        } else {
            SwitchStepView::Finish(verdict(Operation::Checkout, outcome))
        }
    }
}

impl BranchSwitch {
    /// Begins a switch to the branch `name`.
    pub fn start(name: &str) -> (r: SwitchStep)
        ensures
            r@ == SwitchStepView::begin(name@),
    {
        let v = chars_of(name);
        let prefix = chars_of("remotes/");
        if has_prefix(&v, &prefix) {
            match local_branch_name(name) {
                Some(local) => {
                    let args = show_ref_args(local.as_str());
                    SwitchStep::Run {
                        switch: BranchSwitch {
                            branch_name: name.to_owned(),
                            local_name: local,
                            verifying: true,
                        },
                        args,
                    }
                },
                None => SwitchStep::Finish(Err(GitError::InvalidBranchFormat)),
            }
        } else {
            SwitchStep::Run {
                switch: BranchSwitch {
                    branch_name: name.to_owned(),
                    local_name: name.to_owned(),
                    verifying: false,
                },
                args: checkout_args(name),
            }
        }
    }

    /// Takes the outcome of the command that the switch asked for, and says
    /// what comes next.
    pub fn advance(self, outcome: &CommandOutcome) -> (r: SwitchStep)
        ensures
            r@ == self@.step(outcome@),
            !self.verifying ==> r is Finish,
            r matches SwitchStep::Run { switch, .. } ==> !switch.verifying,
    {
        if self.verifying {
            match outcome {
                CommandOutcome::SpawnFailed(reason) => SwitchStep::Finish(
                    Err(GitError::ProcessSpawnFailure(reason.clone())),
                ),
                CommandOutcome::Exited { success, .. } => {
                    let args = if *success {
                        checkout_args(self.local_name.as_str())
                    } else {
                        checkout_tracking_args(
                            self.local_name.as_str(),
                            self.branch_name.as_str(),
                        )
                    };
                    let mut switch = self;
                    switch.verifying = false;
                    SwitchStep::Run { switch, args }
                },
            }
        } else {
            SwitchStep::Finish(interpret(Operation::Checkout, outcome))
        }
    }
}

/// Where a switch to `name` ends, given the outcomes of the commands that
/// it asks for, in order.
pub open spec fn switch_result(name: Seq<char>, outcomes: Seq<OutcomeView>) -> Result<
    (),
    GitErrorView,
> {
    match SwitchStepView::begin(name) {
        SwitchStepView::Finish(r) => r,
        SwitchStepView::Run { switch, .. } => match switch.step(outcome_at(outcomes, 0)) {
            SwitchStepView::Finish(r) => r,
            SwitchStepView::Run { switch: checkout, .. } => verdict(
                Operation::Checkout,
                outcome_at(outcomes, 1),
            ),
        },
    }
}

/// Switches to the branch `branch_name`, given the outcomes of the commands
/// that the switch asks for, in the order in which it asks. An outcome that
/// the transcript lacks counts as that of a process that could not be
/// started.
pub fn switch_branch(
    branch_name: &str,
    outcomes: &Vec<CommandOutcome>,
) -> (r: Result<(), GitError>)
    ensures
        unit_result_view(r) == switch_result(branch_name@, outcome_views(outcomes@)),
{
    let missing = CommandOutcome::SpawnFailed(String::new());
    match BranchSwitch::start(branch_name) {
        SwitchStep::Finish(r) => r,
        SwitchStep::Run { switch, .. } => {
            let first = if outcomes.len() > 0 {
                &outcomes[0]
            } else {
                &missing
            };
            match switch.advance(first) {
                SwitchStep::Finish(r) => r,
                SwitchStep::Run { switch: checkout, .. } => {
                    let second = if outcomes.len() > 1 {
                        &outcomes[1]
                    } else {
                        &missing
                    };
                    interpret(Operation::Checkout, second)
                },
            }
        },
    }
}

/// A remote branch without a local one is created, not merely checked out:
/// where the branch asked for is a remote reference with a local name, and
/// git finds no local branch of that name, the switch goes on with
/// `checkout -b` of the local name on the remote reference.
pub proof fn law_new_tracking_branch(name: Seq<char>, outcome: OutcomeView)
    requires
        starts_with(name, "remotes/"@),
        local_of_remote_ref(name) is Some,
        outcome matches OutcomeView::Exited { success, .. } && !success,
    ensures
        SwitchStepView::begin(name) matches SwitchStepView::Run { switch, args } && args
            == argv_show_ref(local_of_remote_ref(name).unwrap()) && switch.step(outcome)
            == (SwitchStepView::Run {
            switch: BranchSwitchView { verifying: false, ..switch },
            args: argv_checkout_tracking(local_of_remote_ref(name).unwrap(), name),
        }),
{
}

/// The local name of a remote branch reference is what its segments from
/// the third on give when they are joined again; a reference of fewer than
/// three segments has none.
pub proof fn law_local_name_is_the_tail_of_segments(name: Seq<char>)
    ensures
        local_of_remote_ref(name) == if split(name, '/').len() >= 3 {
            Some(join(split(name, '/').skip(2), '/'))
        } else {
            None
        },
{
    law_first_index_is_first(name, '/');
    let first = first_index(name, '/');
    if first < name.len() {
        let after_first = name.skip(first + 1);
        law_first_index_is_first(after_first, '/');
        law_join_undoes_split(after_first, '/');
        let inner = first_index(after_first, '/');
        let all = split(name, '/');
        assert(all == seq![name.take(first)] + split(after_first, '/'));
        if inner < after_first.len() {
            let after_second = after_first.skip(inner + 1);
            law_join_undoes_split(after_second, '/');
            assert(after_second =~= name.skip(first + 1 + inner + 1));
            assert(split(after_first, '/') == seq![after_first.take(inner)] + split(
                after_second,
                '/',
            ));
            assert(all.skip(2) =~= split(after_second, '/'));
        } else {
            assert(split(after_first, '/') == seq![after_first]);
            assert(all.len() == 2);
        }
    } else {
        assert(split(name, '/') == seq![name]);
    }
}

} // verus!
