use repo_manager::command::{CommandOutcome, GitError, Operation};
use repo_manager::dispatch::{
    dispatch_mutation, git_fetch_async, git_pull_async, git_pull_fast_async, git_push_async,
    git_push_fast_async, is_transient, mutation_report, operation_failed,
    refresh_repo_status_async, refresh_report, slot_timed_out, status_report, unpooled_report,
    FIRST_RETRY_DELAY_MS, MAX_FETCH_ATTEMPTS, SLOT_TIMEOUT_MS,
};
use repo_manager::messages::{error_message, AppMessage, GitMessage};
use repo_manager::pool::{OperationPool, PoolGuard};
use repo_manager::retry::{git_fetch_fast_async_with_retry, FetchRetry, RetryStep};
use repo_manager::status::GitInfo;

fn ok(stdout: &str) -> CommandOutcome {
    CommandOutcome::Exited { success: true, stdout: stdout.to_string(), stderr: String::new() }
}

fn failed(stderr: &str) -> CommandOutcome {
    CommandOutcome::Exited { success: false, stdout: String::new(), stderr: stderr.to_string() }
}

fn clean_status() -> Vec<CommandOutcome> {
    vec![ok("main\n"), ok("origin\n"), ok("* main\n"), ok(""), ok("tip"), ok("2\t1\n")]
}

fn error_text(message: &GitMessage) -> (String, String) {
    match message {
        GitMessage::Error { repo_path, message } => (repo_path.clone(), message.clone()),
        other => panic!("unexpected message {:?}", other),
    }
}

#[test]
fn constants_of_the_retry_policy() {
    assert_eq!(MAX_FETCH_ATTEMPTS, 3);
    assert_eq!(FIRST_RETRY_DELAY_MS, 1000);
    assert_eq!(SLOT_TIMEOUT_MS, 5000);
}

#[test]
fn transient_failures_are_recognised_by_what_git_wrote() {
    let of = |stderr: &str| GitError::CommandFailure {
        operation: Operation::Fetch,
        stderr: stderr.to_string(),
    };
    assert!(is_transient(&of("fatal: Connection closed by remote host")));
    assert!(is_transient(&of("ssh: connect to host x port 22: Connection refused")));
    assert!(is_transient(&of("fatal: Could not read from remote repository.")));
    assert!(!is_transient(&of("fatal: connection refused")));
    assert!(!is_transient(&of("fatal: repository not found")));
    assert!(!is_transient(&of("")));
    assert!(!is_transient(&GitError::ProcessSpawnFailure("Connection refused".to_string())));
    assert!(!is_transient(&GitError::PoolTimeout));
}

#[test]
fn three_transient_failures_give_two_notices_and_a_final_failure() {
    let mut pool = OperationPool::standard();
    let fetches = vec![
        failed("fatal: Connection refused"),
        failed("fatal: Connection closed"),
        failed("fatal: Could not read from remote repository."),
        ok(""),
    ];
    let trace = git_fetch_fast_async_with_retry("/tmp/r", &mut pool, &fetches, true, &clean_status());
    assert_eq!(trace.attempts, 3);
    assert_eq!(trace.sleeps_ms, vec![1000, 2000]);
    assert_eq!(trace.messages.len(), 3);
    assert_eq!(
        error_text(&trace.messages[0]),
        (
            "/tmp/r".to_string(),
            "Fetch failed for \"/tmp/r\" (attempt 1/3), retrying in 1000ms: Git fetch failed: fatal: Connection refused".to_string()
        )
    );
    assert_eq!(
        error_text(&trace.messages[1]),
        (
            "/tmp/r".to_string(),
            "Fetch failed for \"/tmp/r\" (attempt 2/3), retrying in 2000ms: Git fetch failed: fatal: Connection closed".to_string()
        )
    );
    assert_eq!(
        error_text(&trace.messages[2]),
        (
            "/tmp/r".to_string(),
            "Fetch failed for \"/tmp/r\" after 3 attempts: Git fetch failed: fatal: Could not read from remote repository.".to_string()
        )
    );
    assert_eq!(pool.in_use(), 0);
}

#[test]
fn non_transient_failure_is_not_retried() {
    let mut pool = OperationPool::standard();
    let fetches = vec![failed("fatal: repository not found"), ok("")];
    let trace = git_fetch_fast_async_with_retry("/tmp/r", &mut pool, &fetches, true, &clean_status());
    assert_eq!(trace.attempts, 1);
    assert!(trace.sleeps_ms.is_empty());
    assert_eq!(trace.messages.len(), 1);
    assert_eq!(
        error_text(&trace.messages[0]).1,
        "Fetch failed for \"/tmp/r\": Git fetch failed: fatal: repository not found"
    );
    assert_eq!(pool.in_use(), 0);
}

#[test]
fn non_transient_failure_after_a_retry_ends_the_work() {
    let mut pool = OperationPool::standard();
    let fetches = vec![failed("Connection refused"), failed("fatal: not a git repository"), ok("")];
    let trace = git_fetch_fast_async_with_retry("/tmp/r", &mut pool, &fetches, true, &clean_status());
    assert_eq!(trace.attempts, 2);
    assert_eq!(trace.sleeps_ms, vec![1000]);
    assert_eq!(trace.messages.len(), 2);
    assert_eq!(
        error_text(&trace.messages[1]).1,
        "Fetch failed for \"/tmp/r\": Git fetch failed: fatal: not a git repository"
    );
}

#[test]
fn fetch_that_succeeds_after_a_retry_reports_the_status() {
    let mut pool = OperationPool::standard();
    let fetches = vec![failed("Connection closed"), ok("")];
    let trace = git_fetch_fast_async_with_retry("/tmp/r", &mut pool, &fetches, true, &clean_status());
    assert_eq!(trace.attempts, 2);
    assert_eq!(trace.sleeps_ms, vec![1000]);
    assert_eq!(trace.messages.len(), 2);
    match &trace.messages[1] {
        GitMessage::RepoStatusUpdated { repo_path, git_info } => {
            assert_eq!(repo_path, "/tmp/r");
            assert_eq!((git_info.ahead, git_info.behind), (2, 1));
        }
        other => panic!("unexpected message {:?}", other),
    }
}

#[test]
fn fetch_that_succeeds_reports_a_failed_status_query() {
    let mut pool = OperationPool::standard();
    let trace = git_fetch_fast_async_with_retry("/tmp/r", &mut pool, &vec![ok("")], false, &Vec::new());
    assert_eq!(trace.attempts, 1);
    assert_eq!(
        error_text(&trace.messages[0]).1,
        "Failed to get git info after fetch for \"/tmp/r\": \"/tmp/r\" is not a git repository"
    );
}

#[test]
fn worker_without_a_slot_reports_a_timeout_and_fetches_nothing() {
    let mut pool = OperationPool::new(1);
    let held = PoolGuard::acquire(&mut pool).unwrap();
    let trace = git_fetch_fast_async_with_retry("/tmp/r", &mut pool, &vec![ok("")], true, &clean_status());
    assert_eq!(trace.attempts, 0);
    assert!(trace.sleeps_ms.is_empty());
    assert_eq!(trace.messages.len(), 1);
    assert_eq!(
        error_text(&trace.messages[0]),
        ("/tmp/r".to_string(), "Timeout waiting for available slot for \"/tmp/r\"".to_string())
    );
    assert_eq!(pool.in_use(), 1);
    pool.release(held);
}

#[test]
fn retry_steps_double_the_delay() {
    let retry = match FetchRetry::start("/tmp/r", true) {
        RetryStep::Fetch { retry, args } => {
            assert_eq!(args, vec!["fetch".to_string()]);
            retry
        }
        other => panic!("unexpected step {:?}", other),
    };
    assert_eq!((retry.attempt, retry.delay_ms), (1, 1000));
    assert_eq!(retry.quoted, "\"/tmp/r\"");
    let retry = match retry.fetched(&failed("Connection refused")) {
        RetryStep::Retry { retry, sleep_ms, args, .. } => {
            assert_eq!(sleep_ms, 1000);
            assert_eq!(args, vec!["fetch".to_string()]);
            retry
        }
        other => panic!("unexpected step {:?}", other),
    };
    assert_eq!((retry.attempt, retry.delay_ms), (2, 2000));
    let retry = match retry.fetched(&failed("Connection refused")) {
        RetryStep::Retry { retry, sleep_ms, .. } => {
            assert_eq!(sleep_ms, 2000);
            retry
        }
        other => panic!("unexpected step {:?}", other),
    };
    assert_eq!((retry.attempt, retry.delay_ms), (3, 4000));
    assert!(matches!(retry.fetched(&failed("Connection refused")), RetryStep::Finish(_)));
}

#[test]
fn retry_step_after_success_asks_for_the_status() {
    let retry = match FetchRetry::start("/tmp/r", true) {
        RetryStep::Fetch { retry, .. } => retry,
        other => panic!("unexpected step {:?}", other),
    };
    let retry = match retry.fetched(&ok("")) {
        RetryStep::Query { retry } => retry,
        other => panic!("unexpected step {:?}", other),
    };
    let report = retry.queried(Ok(GitInfo::default()));
    assert!(matches!(report, GitMessage::RepoStatusUpdated { .. }));
    assert!(matches!(FetchRetry::start("/tmp/r", false), RetryStep::Finish(GitMessage::Error { .. })));
}

#[test]
fn paths_in_reports_are_quoted_and_escaped() {
    let report = refresh_repo_status_async("C:\\repos\\my \"best\" one", false, &Vec::new());
    assert_eq!(
        error_text(&report),
        (
            "C:\\repos\\my \"best\" one".to_string(),
            "Git error for \"C:\\\\repos\\\\my \\\"best\\\" one\": \"C:\\\\repos\\\\my \\\"best\\\" one\" is not a git repository".to_string()
        )
    );
}

#[test]
fn error_message_names_the_repository_in_quotes() {
    assert_eq!(
        error_message(&GitError::NotARepository, "/tmp/my repo"),
        "\"/tmp/my repo\" is not a git repository"
    );
    assert_eq!(
        error_message(&GitError::PoolTimeout, "a\nb"),
        "Timeout waiting for available slot for \"a\\nb\""
    );
    assert_eq!(
        error_text(&refresh_report("/r", Err(GitError::InvalidBranchFormat))).1,
        "Git error for \"/r\": Invalid remote branch name format"
    );
}

#[test]
fn refresh_reports_the_status() {
    match refresh_repo_status_async("/tmp/r", true, &clean_status()) {
        GitMessage::RepoStatusUpdated { repo_path, git_info } => {
            assert_eq!(repo_path, "/tmp/r");
            assert_eq!(git_info.current_branch, Some("main".to_string()));
            assert_eq!((git_info.ahead, git_info.behind), (2, 1));
        }
        other => panic!("unexpected message {:?}", other),
    }
}

#[test]
fn report_builders_word_their_failures() {
    let quoted = "\"/r\"";
    let err = GitError::CommandFailure { operation: Operation::Pull, stderr: "boom".to_string() };
    assert_eq!(
        error_text(&operation_failed(Operation::Pull, "/r", quoted, &err)).1,
        "Pull failed for \"/r\": Git pull failed: boom"
    );
    assert_eq!(
        error_text(&operation_failed(Operation::Push, "/r", quoted, &GitError::ProcessSpawnFailure("no git".to_string()))).1,
        "Push failed for \"/r\": no git"
    );
    assert_eq!(
        error_text(&slot_timed_out("/r", quoted)).1,
        "Timeout waiting for available slot for \"/r\""
    );
    assert_eq!(
        error_text(&status_report("/r", quoted, None, Err(GitError::NotARepository))).1,
        "Git error for \"/r\": \"/r\" is not a git repository"
    );
    assert_eq!(
        error_text(&status_report("/r", quoted, Some(Operation::Push), Err(GitError::NotARepository))).1,
        "Failed to get git info after push for \"/r\": \"/r\" is not a git repository"
    );
    assert!(mutation_report(Operation::Pull, "/r", quoted, &ok("")).is_none());
    assert!(matches!(
        mutation_report(Operation::Pull, "/r", quoted, &failed("x")),
        Some(GitMessage::Error { .. })
    ));
}

#[test]
fn pooled_mutation_runs_only_with_a_slot() {
    let mut pool = OperationPool::new(1);
    let held = PoolGuard::acquire(&mut pool).unwrap();
    assert!(git_pull_fast_async("/r", &mut pool, &ok(""), true, &clean_status()).is_none());
    assert!(git_push_fast_async("/r", &mut pool, &ok(""), true, &clean_status()).is_none());
    assert_eq!(pool.in_use(), 1);
    pool.release(held);
    match git_pull_fast_async("/r", &mut pool, &ok(""), true, &clean_status()) {
        Some(GitMessage::RepoStatusUpdated { git_info, .. }) => {
            assert_eq!((git_info.ahead, git_info.behind), (2, 1))
        }
        other => panic!("unexpected message {:?}", other),
    }
    assert_eq!(pool.in_use(), 0);
    let report = git_push_fast_async("/r", &mut pool, &failed("rejected"), true, &clean_status());
    assert_eq!(
        error_text(&report.unwrap()).1,
        "Push failed for \"/r\": Git push failed: rejected"
    );
    assert_eq!(pool.in_use(), 0);
    let report = dispatch_mutation(Operation::Pull, "/r", &mut pool, &ok(""), false, &Vec::new());
    assert_eq!(
        error_text(&report.unwrap()).1,
        "Failed to get git info after pull for \"/r\": \"/r\" is not a git repository"
    );
}

#[test]
fn unpooled_workers_word_their_failures() {
    let none = CommandOutcome::SpawnFailed("no git".to_string());
    assert_eq!(
        error_text(&git_pull_async("/r", &none, true, &clean_status())).1,
        "Git pull command failed for \"/r\": no git"
    );
    assert_eq!(
        error_text(&git_push_async("/r", &failed("rejected"), true, &clean_status())).1,
        "Git push failed for \"/r\": rejected"
    );
    assert_eq!(
        error_text(&git_fetch_async("/r", &ok(""), false, &Vec::new())).1,
        "Git info update failed after fetch: \"/r\" is not a git repository"
    );
    assert!(matches!(
        git_fetch_async("/r", &ok(""), true, &clean_status()),
        GitMessage::RepoStatusUpdated { .. }
    ));
    assert!(matches!(
        unpooled_report(Operation::Pull, "/r", "\"/r\"", &ok(""), Ok(GitInfo::default())),
        GitMessage::RepoStatusUpdated { .. }
    ));
}

#[test]
fn git_message_becomes_app_message() {
    let message = GitMessage::Error { repo_path: "/r".to_string(), message: "m".to_string() };
    assert_eq!(message.path(), "/r");
    match AppMessage::from(message) {
        AppMessage::Git(GitMessage::Error { repo_path, message }) => {
            assert_eq!((repo_path.as_str(), message.as_str()), ("/r", "m"))
        }
        other => panic!("unexpected message {:?}", other),
    }
}
