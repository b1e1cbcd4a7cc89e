//! The fetch that is tried again when the network fails it.
//!
//! A worker first waits for a slot of the pool, for a bounded time. With a
//! slot it fetches, up to three times: a failure of the network is answered
//! with a notice, a wait that doubles from one second, and another attempt;
//! any other failure ends the work at once. After a fetch that succeeded the
//! worker queries the status and reports it.

use vstd::prelude::*;
use crate::command::{
    argv_operation, interpret, operation_args, verdict, CommandOutcome, GitError, GitErrorView,
    Operation, OutcomeView,
};
use crate::digits::decimal_string;
use crate::dispatch::{
    failure_report, is_transient, operation_failed, query_report, slot_timed_out, status_report,
    timeout_report, transient, FIRST_RETRY_DELAY_MS, MAX_FETCH_ATTEMPTS,
};
use crate::messages::{
    debug_quote, debug_text, text_exhausted, text_retrying, GitMessage, GitMessageView,
};
use crate::pool::{OperationPool, PoolGuard};
use crate::query::{get_git_info, outcome_at, outcome_views, replay, result_view, QueryStepView};
use crate::status::{GitInfo, GitInfoView};
use crate::text::texts;

verus! {

/// A fetch under way: the repository, and where the attempts stand.
#[derive(Debug)]
pub struct FetchRetry {
    pub repo_path: String,
    /// The path in quotes, as reports show it.
    pub quoted: String,
    /// The number of the attempt that is being made, from one.
    pub attempt: u64,
    /// How long the worker waits before the next attempt, in milliseconds.
    pub delay_ms: u64,
}

/// A `FetchRetry` with its texts as character sequences.
pub struct FetchRetryView {
    pub repo_path: Seq<char>,
    pub quoted: Seq<char>,
    pub attempt: nat,
    pub delay_ms: nat,
}

impl View for FetchRetry {
    type V = FetchRetryView;

    open spec fn view(&self) -> FetchRetryView {
        FetchRetryView {
            repo_path: self.repo_path@,
            quoted: self.quoted@,
            attempt: self.attempt as nat,
            delay_ms: self.delay_ms as nat,
        }
    }
}

/// What the fetch asks of its worker.
#[derive(Debug)]
pub enum RetryStep {
    /// Run git with `args` and hand the outcome to `retry`.
    Fetch { retry: FetchRetry, args: Vec<String> },
    /// Post `notice`, sleep for `sleep_ms` milliseconds, then run git with
    /// `args` and hand the outcome to `retry`.
    Retry { retry: FetchRetry, notice: GitMessage, sleep_ms: u64, args: Vec<String> },
    /// Query the repository's status and hand the result to `retry`.
    Query { retry: FetchRetry },
    /// Post the report: the work has ended.
    Finish(GitMessage),
}

/// A `RetryStep` with its texts as character sequences.
pub enum RetryStepView {
    Fetch { retry: FetchRetryView, args: Seq<Seq<char>> },
    Retry { retry: FetchRetryView, notice: GitMessageView, sleep_ms: nat, args: Seq<Seq<char>> },
    Query { retry: FetchRetryView },
    Finish(GitMessageView),
}

impl View for RetryStep {
    type V = RetryStepView;

    open spec fn view(&self) -> RetryStepView {
        match self {
            RetryStep::Fetch { retry, args } => RetryStepView::Fetch {
                retry: retry@,
                args: texts(args@),
            },
            RetryStep::Retry { retry, notice, sleep_ms, args } => RetryStepView::Retry {
                retry: retry@,
                notice: notice@,
                sleep_ms: *sleep_ms as nat,
                args: texts(args@),
            },
            RetryStep::Query { retry } => RetryStepView::Query { retry: retry@ },
            RetryStep::Finish(report) => RetryStepView::Finish(report@),
        }
    }
}

/// Twice `delay_ms`, or the largest delay there is where that is less.
pub open spec fn doubled(delay_ms: nat) -> nat {
    if delay_ms * 2 <= u64::MAX {
        delay_ms * 2
    } else {
        u64::MAX as nat
    }
}

impl FetchRetryView {
    /// The attempts are within their bound and the wait has doubled with
    /// each: one second before the second attempt, two before the third.
    pub open spec fn well_formed(self) -> bool {
        &&& 1 <= self.attempt <= MAX_FETCH_ATTEMPTS
        &&& self.attempt == 1 ==> self.delay_ms == 1000
        &&& self.attempt == 2 ==> self.delay_ms == 2000
        &&& self.attempt == 3 ==> self.delay_ms == 4000
    }

    /// What the fetch does with the outcome of `git fetch`.
    pub open spec fn fetched(self, outcome: OutcomeView) -> RetryStepView {
        match verdict(Operation::Fetch, outcome) {
            Ok(()) => RetryStepView::Query { retry: self },
            Err(error) => if !transient(error) {
                RetryStepView::Finish(
                    failure_report(Operation::Fetch, self.repo_path, self.quoted, error),
                )
            } else if self.attempt < MAX_FETCH_ATTEMPTS {
                RetryStepView::Retry {
                    retry: FetchRetryView {
                        attempt: self.attempt + 1,
                        delay_ms: doubled(self.delay_ms),
                        ..self
                    },
                    notice: GitMessageView::Error {
                        repo_path: self.repo_path,
                        message: text_retrying(
                            self.quoted,
                            self.attempt,
                            MAX_FETCH_ATTEMPTS as nat,
                            self.delay_ms,
                            error.text(self.quoted),
                        ),
                    },
                    sleep_ms: self.delay_ms,
                    args: argv_operation(Operation::Fetch),
                }
            } else {
                RetryStepView::Finish(
                    GitMessageView::Error {
                        repo_path: self.repo_path,
                        message: text_exhausted(
                            self.quoted,
                            MAX_FETCH_ATTEMPTS as nat,
                            error.text(self.quoted),
                        ),
                    },
                )
            },
        }
    }

    /// What the fetch reports on the status query that followed it.
    pub open spec fn queried(self, status: Result<GitInfoView, GitErrorView>) -> GitMessageView {
        query_report(self.repo_path, self.quoted, Some(Operation::Fetch), status)
    }
}

impl RetryStepView {
    /// The first step of the work on the repository at `repo_path`, whose
    /// path in quotes is `quoted`. `slot` says whether the worker got a slot
    /// of the pool in time.
    pub open spec fn begin(repo_path: Seq<char>, quoted: Seq<char>, slot: bool) -> RetryStepView {
        if slot {
            RetryStepView::Fetch {
                retry: FetchRetryView {
                    repo_path,
                    quoted,
                    attempt: 1,
                    delay_ms: FIRST_RETRY_DELAY_MS as nat,
                },
                args: argv_operation(Operation::Fetch),
            }
        } else {
            RetryStepView::Finish(timeout_report(repo_path, quoted))
        }
    }

    /// How many attempts the fetch has left at most, counting the one that
    /// the step asks for.
    pub open spec fn attempts_left(self) -> nat {
        match self {
            RetryStepView::Fetch { retry, .. } | RetryStepView::Retry { retry, .. } => {
                if retry.attempt <= MAX_FETCH_ATTEMPTS {
                    (MAX_FETCH_ATTEMPTS - retry.attempt + 1) as nat
                } else {
                    1
                }
            },
            _ => 0,
        }
    }

    /// The state of a fetch that goes on is well formed.
    pub open spec fn well_formed(self) -> bool {
        match self {
            RetryStepView::Fetch { retry, .. } => retry.well_formed(),
            RetryStepView::Retry { retry, .. } => retry.well_formed(),
            RetryStepView::Query { retry } => retry.well_formed(),
            RetryStepView::Finish(_) => true,
        }
    }
}

impl FetchRetry {
    /// Begins the work with the path already in quotes.
    pub fn begin(repo_path: &str, quoted: &str, slot: bool) -> (r: RetryStep)
        ensures
            r@ == RetryStepView::begin(repo_path@, quoted@, slot),
            r@.well_formed(),
    {
        if slot {
            RetryStep::Fetch {
                retry: FetchRetry {
                    repo_path: repo_path.to_owned(),
                    quoted: quoted.to_owned(),
                    attempt: 1,
                    delay_ms: FIRST_RETRY_DELAY_MS,
                },
                args: operation_args(Operation::Fetch),
            }
        } else {
            RetryStep::Finish(slot_timed_out(repo_path, quoted))
        }
    }

    /// Begins the work on the repository at `repo_path`. `slot` says whether
    /// the worker got a slot of the pool in time.
    pub fn start(repo_path: &str, slot: bool) -> (r: RetryStep)
        ensures
            r@ == RetryStepView::begin(repo_path@, debug_text(repo_path@), slot),
            r@.well_formed(),
    {
        let quoted = debug_quote(repo_path);
        FetchRetry::begin(repo_path, quoted.as_str(), slot)
    }

    /// Takes the outcome of `git fetch`, and says what comes next.
    pub fn fetched(self, outcome: &CommandOutcome) -> (r: RetryStep)
        ensures
            r@ == self@.fetched(outcome@),
            self@.well_formed() ==> r@.well_formed(),
            r@.attempts_left() < (RetryStepView::Fetch {
                retry: self@,
                args: Seq::empty(),
            }).attempts_left(),
    {
        match interpret(Operation::Fetch, outcome) {
            Ok(()) => RetryStep::Query { retry: self },
            Err(error) => {
                if !is_transient(&error) {
                    RetryStep::Finish(
                        operation_failed(
                            Operation::Fetch,
                            self.repo_path.as_str(),
                            self.quoted.as_str(),
                            &error,
                        ),
                    )
                } else if self.attempt < MAX_FETCH_ATTEMPTS {
                    let text = error.describe(self.quoted.as_str());
                    let message = "Fetch failed for ".to_owned().concat(
                        self.quoted.as_str(),
                    ).concat(" (attempt ").concat(decimal_string(self.attempt).as_str()).concat(
                        "/",
                    ).concat(decimal_string(MAX_FETCH_ATTEMPTS).as_str()).concat(
                        "), retrying in ",
                    ).concat(decimal_string(self.delay_ms).as_str()).concat("ms: ").concat(
                        text.as_str(),
                    );
                    let notice = GitMessage::Error {
                        repo_path: self.repo_path.clone(),
                        message,
                    };
                    let sleep_ms = self.delay_ms;
                    let next_delay = if self.delay_ms <= u64::MAX / 2 {
                        self.delay_ms * 2
                    } else {
                        u64::MAX
                    };
                    let mut retry = self;
                    retry.attempt = retry.attempt + 1;
                    retry.delay_ms = next_delay;
                    RetryStep::Retry {
                        retry,
                        notice,
                        sleep_ms,
                        args: operation_args(Operation::Fetch),
                    }
                } else {
                    let text = error.describe(self.quoted.as_str());
                    let message = "Fetch failed for ".to_owned().concat(
                        self.quoted.as_str(),
                    ).concat(" after ").concat(
                        decimal_string(MAX_FETCH_ATTEMPTS).as_str(),
                    ).concat(" attempts: ").concat(text.as_str());
                    RetryStep::Finish(
                        GitMessage::Error { repo_path: self.repo_path.clone(), message },
                    )
                }
            },
        }
    }

    /// Takes the result of the status query that followed the fetch, and
    /// gives the report that ends the work.
    pub fn queried(self, status: Result<GitInfo, GitError>) -> (r: GitMessage)
        ensures
            r@ == self@.queried(result_view(status)),
    {
        status_report(
            self.repo_path.as_str(),
            self.quoted.as_str(),
            Some(Operation::Fetch),
            status,
        )
    }
}

/// What a worker did: the reports it posted and the waits it made between
/// attempts, each in order, and how often it ran the fetch.
#[derive(Debug)]
pub struct FetchTrace {
    pub messages: Vec<GitMessage>,
    pub sleeps_ms: Vec<u64>,
    pub attempts: u64,
}

/// A `FetchTrace` with its texts as character sequences.
pub struct FetchTraceView {
    pub messages: Seq<GitMessageView>,
    pub sleeps_ms: Seq<nat>,
    pub attempts: nat,
}

/// The views of a list of reports.
pub open spec fn message_views(v: Seq<GitMessage>) -> Seq<GitMessageView> {
    Seq::new(v.len(), |i: int| v[i]@)
}

/// A list of waits as numbers.
pub open spec fn waits(v: Seq<u64>) -> Seq<nat> {
    Seq::new(v.len(), |i: int| v[i] as nat)
}

impl View for FetchTrace {
    type V = FetchTraceView;

    open spec fn view(&self) -> FetchTraceView {
        FetchTraceView {
            messages: message_views(self.messages@),
            sleeps_ms: waits(self.sleeps_ms@),
            attempts: self.attempts as nat,
        }
    }
}

/// What a worker does from `step` on, where its fetches end as the
/// transcript says from position `i` on, and the status query as `status`.
pub open spec fn run_from(
    step: RetryStepView,
    fetches: Seq<OutcomeView>,
    i: int,
    status: Result<GitInfoView, GitErrorView>,
) -> FetchTraceView
    decreases step.attempts_left(),
{
    match step {
        RetryStepView::Finish(report) => FetchTraceView {
            messages: seq![report],
            sleeps_ms: Seq::empty(),
            attempts: 0,
        },
        RetryStepView::Query { retry } => FetchTraceView {
            messages: seq![retry.queried(status)],
            sleeps_ms: Seq::empty(),
            attempts: 0,
        },
        RetryStepView::Fetch { retry, .. } => {
            let rest = run_from(retry.fetched(outcome_at(fetches, i)), fetches, i + 1, status);
            FetchTraceView { attempts: rest.attempts + 1, ..rest }
        },
        RetryStepView::Retry { retry, notice, sleep_ms, .. } => {
            let rest = run_from(retry.fetched(outcome_at(fetches, i)), fetches, i + 1, status);
            FetchTraceView {
                messages: seq![notice] + rest.messages,
                sleeps_ms: seq![sleep_ms] + rest.sleeps_ms,
                attempts: rest.attempts + 1,
            }
        },
    }
}

fn run_steps(
    step: RetryStep,
    fetches: &Vec<CommandOutcome>,
    i: usize,
    Ghost(asked): Ghost<int>,
    status: Result<GitInfo, GitError>,
) -> (r: FetchTrace)
    requires
        i <= fetches.len(),
        i <= asked,
        i < fetches.len() ==> i == asked,
        step@.well_formed(),
    ensures
        r@ == run_from(step@, outcome_views(fetches@), asked, result_view(status)),
        r.attempts <= step@.attempts_left(),
    decreases step@.attempts_left(),
{
    let missing = CommandOutcome::SpawnFailed(String::new());
    match step {
        RetryStep::Finish(report) => {
            let mut messages: Vec<GitMessage> = Vec::new();
            messages.push(report);
            let r = FetchTrace { messages, sleeps_ms: Vec::new(), attempts: 0 };
            proof {
                assert(r@.messages =~= seq![report@]);
                assert(r@.sleeps_ms =~= Seq::<nat>::empty());
            }
            r
        },
        RetryStep::Query { retry } => {
            let ghost expected = retry@.queried(result_view(status));
            let report = retry.queried(status);
            let mut messages: Vec<GitMessage> = Vec::new();
            messages.push(report);
            let r = FetchTrace { messages, sleeps_ms: Vec::new(), attempts: 0 };
            proof {
                assert(r@.messages =~= seq![expected]);
                assert(r@.sleeps_ms =~= Seq::<nat>::empty());
            }
            r
        },
        RetryStep::Fetch { retry, .. } => {
            let at_end = i >= fetches.len();
            let next = if at_end {
                retry.fetched(&missing)
            } else {
                retry.fetched(&fetches[i])
            };
            let j = if at_end {
                i
            } else {
                i + 1
            };
            let rest = run_steps(next, fetches, j, Ghost(asked + 1), status);
            FetchTrace {
                messages: rest.messages,
                sleeps_ms: rest.sleeps_ms,
                attempts: rest.attempts + 1,
            }
        },
        RetryStep::Retry { retry, notice, sleep_ms, .. } => {
            let at_end = i >= fetches.len();
            let next = if at_end {
                retry.fetched(&missing)
            } else {
                retry.fetched(&fetches[i])
            };
            let j = if at_end {
                i
            } else {
                i + 1
            };
            let rest = run_steps(next, fetches, j, Ghost(asked + 1), status);
            let ghost rest_view = rest@;
            let mut messages = rest.messages;
            let mut sleeps_ms = rest.sleeps_ms;
            messages.insert(0, notice);
            sleeps_ms.insert(0, sleep_ms);
            let r = FetchTrace { messages, sleeps_ms, attempts: rest.attempts + 1 };
            proof {
                assert(r@.messages =~= seq![notice@] + rest_view.messages);
                assert(r@.sleeps_ms =~= seq![sleep_ms as nat] + rest_view.sleeps_ms);
            }
            r
        },
    }
}

/// A worker that fetches for the repository at `repo_path`, trying again
/// when the network fails it. It asks the pool for a slot; with none free it
/// reports that it got none in time and fetches nothing. The slot is given
/// back whatever the end. `fetches` holds the outcomes of the fetches in
/// order; `is_repository` and `status` are the precheck and the transcript
/// of the query that follows a fetch that succeeded. An outcome that a
/// transcript lacks counts as that of a process that could not be started.
pub fn git_fetch_fast_async_with_retry(
    repo_path: &str,
    pool: &mut OperationPool,
    fetches: &Vec<CommandOutcome>,
    is_repository: bool,
    status: &Vec<CommandOutcome>,
) -> (r: FetchTrace)
    ensures
        r@ == run_from(
            RetryStepView::begin(repo_path@, debug_text(repo_path@), old(pool).available > 0),
            outcome_views(fetches@),
            0,
            replay(QueryStepView::begin(is_repository), outcome_views(status@), 0),
        ),
        r.attempts <= MAX_FETCH_ATTEMPTS,
        old(pool).available == 0 ==> r.attempts == 0,
        old(pool).wf() ==> *final(pool) == *old(pool),
{
    let permit = PoolGuard::acquire(pool);
    let step = FetchRetry::start(repo_path, permit.is_some());
    let info = get_git_info(is_repository, status);
    let r = run_steps(step, fetches, 0, Ghost(0), info);
    match permit {
        Some(guard) => {
            pool.release(guard);
        },
        None => {},
    }
    r
}

/// The notice that follows the failed attempt `attempt`, before a wait of
/// `delay_ms`.
pub open spec fn retry_notice(
    retry: FetchRetryView,
    attempt: nat,
    delay_ms: nat,
    error: GitErrorView,
) -> GitMessageView {
    GitMessageView::Error {
        repo_path: retry.repo_path,
        message: text_retrying(
            retry.quoted,
            attempt,
            MAX_FETCH_ATTEMPTS as nat,
            delay_ms,
            error.text(retry.quoted),
        ),
    }
}

/// The error that an outcome of `git fetch` stands for, if it is one.
pub open spec fn fetch_error(outcome: OutcomeView) -> GitErrorView {
    match verdict(Operation::Fetch, outcome) {
        Err(error) => error,
        Ok(()) => GitErrorView::PoolTimeout,
    }
}

/// The outcome is a failure of the network that may pass.
pub open spec fn fails_transiently(outcome: OutcomeView) -> bool {
    verdict(Operation::Fetch, outcome) is Err && transient(fetch_error(outcome))
}

/// Three failures of the network in a row: the worker fetches three times
/// and no more, waits one second and then two, posts a notice after the
/// first and after the second attempt, and a last report after the third.
pub proof fn law_backoff_schedule(
    repo_path: Seq<char>,
    quoted: Seq<char>,
    fetches: Seq<OutcomeView>,
    status: Result<GitInfoView, GitErrorView>,
)
    requires
        fetches.len() >= 3,
        fails_transiently(fetches[0]),
        fails_transiently(fetches[1]),
        fails_transiently(fetches[2]),
    ensures
        ({
            let first = FetchRetryView { repo_path, quoted, attempt: 1, delay_ms: 1000 };
            let trace = run_from(RetryStepView::begin(repo_path, quoted, true), fetches, 0, status);
            &&& trace.attempts == 3
            &&& trace.sleeps_ms == seq![1000nat, 2000nat]
            &&& trace.messages == seq![
                retry_notice(first, 1, 1000, fetch_error(fetches[0])),
                retry_notice(first, 2, 2000, fetch_error(fetches[1])),
                GitMessageView::Error {
                    repo_path,
                    message: text_exhausted(quoted, 3, fetch_error(fetches[2]).text(quoted)),
                },
            ]
        }),
{
    reveal_with_fuel(run_from, 5);
    let first = FetchRetryView { repo_path, quoted, attempt: 1, delay_ms: 1000 };
    assert(outcome_at(fetches, 0) == fetches[0]);
    assert(outcome_at(fetches, 1) == fetches[1]);
    assert(outcome_at(fetches, 2) == fetches[2]);
    let second = FetchRetryView { attempt: 2, delay_ms: 2000, ..first };
    let third = FetchRetryView { attempt: 3, delay_ms: 4000, ..first };
    assert(first.fetched(fetches[0]) == RetryStepView::Retry {
        retry: second,
        notice: retry_notice(first, 1, 1000, fetch_error(fetches[0])),
        sleep_ms: 1000,
        args: argv_operation(Operation::Fetch),
    });
    assert(second.fetched(fetches[1]) == RetryStepView::Retry {
        retry: third,
        notice: retry_notice(first, 2, 2000, fetch_error(fetches[1])),
        sleep_ms: 2000,
        args: argv_operation(Operation::Fetch),
    });
    let last = GitMessageView::Error {
        repo_path,
        message: text_exhausted(quoted, 3, fetch_error(fetches[2]).text(quoted)),
    };
    assert(third.fetched(fetches[2]) == RetryStepView::Finish(last));
    let end = run_from(RetryStepView::Finish(last), fetches, 3, status);
    assert(end.messages == seq![last]);
    let after_second = run_from(second.fetched(fetches[1]), fetches, 2, status);
    assert(after_second.messages =~= seq![
        retry_notice(first, 2, 2000, fetch_error(fetches[1])),
        last,
    ]);
    assert(after_second.sleeps_ms =~= seq![2000nat]);
    let after_first = run_from(first.fetched(fetches[0]), fetches, 1, status);
    assert(after_first.messages =~= seq![
        retry_notice(first, 1, 1000, fetch_error(fetches[0])),
        retry_notice(first, 2, 2000, fetch_error(fetches[1])),
        last,
    ]);
    assert(after_first.sleeps_ms =~= seq![1000nat, 2000nat]);
}

/// A failure that is not the network's is not tried again, however many
/// attempts are left: the worker posts the one report and ends.
pub proof fn law_no_retry_on_other_failures(
    retry: FetchRetryView,
    args: Seq<Seq<char>>,
    fetches: Seq<OutcomeView>,
    i: int,
    status: Result<GitInfoView, GitErrorView>,
)
    requires
        verdict(Operation::Fetch, outcome_at(fetches, i)) is Err,
        !transient(fetch_error(outcome_at(fetches, i))),
    ensures
        retry.fetched(outcome_at(fetches, i)) == RetryStepView::Finish(
            failure_report(
                Operation::Fetch,
                retry.repo_path,
                retry.quoted,
                fetch_error(outcome_at(fetches, i)),
            ),
        ),
        run_from(RetryStepView::Fetch { retry, args }, fetches, i, status) == (FetchTraceView {
            messages: seq![
                failure_report(
                    Operation::Fetch,
                    retry.repo_path,
                    retry.quoted,
                    fetch_error(outcome_at(fetches, i)),
                ),
            ],
            sleeps_ms: Seq::empty(),
            attempts: 1,
        }),
{
    reveal_with_fuel(run_from, 3);
}

/// However the fetches end, the worker fetches three times at most, and
/// posts one report more than it waits.
pub proof fn law_attempts_are_bounded(
    step: RetryStepView,
    fetches: Seq<OutcomeView>,
    i: int,
    status: Result<GitInfoView, GitErrorView>,
)
    requires
        step.well_formed(),
    ensures
        run_from(step, fetches, i, status).attempts <= step.attempts_left(),
        run_from(step, fetches, i, status).attempts <= MAX_FETCH_ATTEMPTS,
        run_from(step, fetches, i, status).messages.len() == run_from(
            step,
            fetches,
            i,
            status,
        ).sleeps_ms.len() + 1,
    decreases step.attempts_left(),
{
    match step {
        RetryStepView::Fetch { retry, .. } => {
            law_attempts_are_bounded(retry.fetched(outcome_at(fetches, i)), fetches, i + 1, status);
        },
        RetryStepView::Retry { retry, .. } => {
            law_attempts_are_bounded(retry.fetched(outcome_at(fetches, i)), fetches, i + 1, status);
        },
        _ => {},
    }
}

} // verus!
