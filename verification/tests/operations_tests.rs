use repo_manager::command::{
    branches_args, checkout_args, checkout_tracking_args, current_branch_args, interpret,
    operation_args, remotes_args, rev_list_args, show_branch_args, show_ref_args, status_args,
    CommandOutcome, GitError, Operation,
};
use repo_manager::operations::{
    git_fetch, git_fetch_fast, git_pull, git_pull_fast, git_push, git_push_fast, git_reset_hard,
    git_reset_hard_fast, local_branch_name, switch_branch, switch_branch_fast, BranchSwitch,
    SwitchStep,
};

fn done(success: bool, stderr: &str) -> CommandOutcome {
    CommandOutcome::Exited { success, stdout: String::new(), stderr: stderr.to_string() }
}

fn words(items: &[&str]) -> Vec<String> {
    items.iter().map(|s| s.to_string()).collect()
}

#[test]
fn argument_vectors_are_as_git_expects() {
    assert_eq!(current_branch_args(), words(&["branch", "--show-current"]));
    assert_eq!(remotes_args(), words(&["remote"]));
    assert_eq!(branches_args(), words(&["branch", "-a", "--sort=-committerdate"]));
    assert_eq!(status_args(), words(&["status", "--porcelain"]));
    assert_eq!(show_branch_args("origin/main"), words(&["show-branch", "origin/main"]));
    assert_eq!(
        rev_list_args("main", "origin/main"),
        words(&["rev-list", "--count", "--left-right", "main...origin/main"])
    );
    assert_eq!(operation_args(Operation::Fetch), words(&["fetch"]));
    assert_eq!(operation_args(Operation::Pull), words(&["pull"]));
    assert_eq!(operation_args(Operation::Push), words(&["push"]));
    assert_eq!(operation_args(Operation::Reset), words(&["reset", "--hard"]));
    assert_eq!(checkout_args("dev"), words(&["checkout", "dev"]));
    assert_eq!(
        checkout_tracking_args("feature-x", "remotes/origin/feature-x"),
        words(&["checkout", "-b", "feature-x", "remotes/origin/feature-x"])
    );
    assert_eq!(
        show_ref_args("feature-x"),
        words(&["show-ref", "--verify", "--quiet", "refs/heads/feature-x"])
    );
}

#[test]
fn outcome_tells_success_and_data() {
    let ok = CommandOutcome::Exited {
        success: true,
        stdout: "out".to_string(),
        stderr: "err".to_string(),
    };
    assert!(ok.succeeded());
    assert_eq!(ok.data(), "out");
    let bad = CommandOutcome::Exited {
        success: false,
        stdout: "out".to_string(),
        stderr: "err".to_string(),
    };
    assert!(!bad.succeeded());
    assert_eq!(bad.data(), "");
    let none = CommandOutcome::SpawnFailed("why".to_string());
    assert!(!none.succeeded());
    assert_eq!(none.data(), "");
}

#[test]
fn successful_operations_are_ok() {
    let ok = done(true, "warning: something");
    assert!(git_fetch(&ok).is_ok());
    assert!(git_pull(&ok).is_ok());
    assert!(git_push(&ok).is_ok());
    assert!(git_reset_hard(&ok).is_ok());
    assert!(git_fetch_fast(&ok).is_ok());
    assert!(git_pull_fast(&ok).is_ok());
    assert!(git_push_fast(&ok).is_ok());
    assert!(git_reset_hard_fast(&ok).is_ok());
    assert!(switch_branch_fast(&ok).is_ok());
}

fn failure_of(result: Result<(), GitError>) -> (Operation, String) {
    match result {
        Err(GitError::CommandFailure { operation, stderr }) => (operation, stderr),
        other => panic!("unexpected result {:?}", other),
    }
}

#[test]
fn failed_operations_carry_what_git_wrote() {
    let bad = done(false, "fatal: boom\n");
    assert_eq!(failure_of(git_fetch(&bad)), (Operation::Fetch, "fatal: boom\n".to_string()));
    assert_eq!(failure_of(git_pull(&bad)), (Operation::Pull, "fatal: boom\n".to_string()));
    assert_eq!(failure_of(git_push(&bad)), (Operation::Push, "fatal: boom\n".to_string()));
    assert_eq!(failure_of(git_reset_hard(&bad)), (Operation::Reset, "fatal: boom\n".to_string()));
    assert_eq!(failure_of(git_fetch_fast(&bad)), (Operation::Fetch, "fatal: boom\n".to_string()));
    assert_eq!(failure_of(git_pull_fast(&bad)), (Operation::Pull, "fatal: boom\n".to_string()));
    assert_eq!(failure_of(git_push_fast(&bad)), (Operation::Push, "fatal: boom\n".to_string()));
    assert_eq!(
        failure_of(git_reset_hard_fast(&bad)),
        (Operation::Reset, "fatal: boom\n".to_string())
    );
    assert_eq!(
        failure_of(switch_branch_fast(&bad)),
        (Operation::Checkout, "fatal: boom\n".to_string())
    );
}

#[test]
fn operation_that_cannot_start_is_a_spawn_failure() {
    let none = CommandOutcome::SpawnFailed("permission denied".to_string());
    match interpret(Operation::Push, &none) {
        Err(GitError::ProcessSpawnFailure(reason)) => assert_eq!(reason, "permission denied"),
        other => panic!("unexpected result {:?}", other),
    }
}

#[test]
fn error_texts_are_sentences() {
    let quoted = "\"/tmp/r\"";
    assert_eq!(GitError::NotARepository.describe(quoted), "\"/tmp/r\" is not a git repository");
    assert_eq!(GitError::ProcessSpawnFailure("no git".to_string()).describe(quoted), "no git");
    assert_eq!(
        GitError::CommandFailure { operation: Operation::Fetch, stderr: "boom".to_string() }
            .describe(quoted),
        "Git fetch failed: boom"
    );
    assert_eq!(
        GitError::CommandFailure { operation: Operation::Checkout, stderr: "x".to_string() }
            .describe(quoted),
        "Git checkout failed: x"
    );
    assert_eq!(
        GitError::CommandFailure { operation: Operation::Reset, stderr: "x".to_string() }
            .describe(quoted),
        "Git reset failed: x"
    );
    assert_eq!(GitError::InvalidBranchFormat.describe(quoted), "Invalid remote branch name format");
    assert_eq!(
        GitError::PoolTimeout.describe(quoted),
        "Timeout waiting for available slot for \"/tmp/r\""
    );
}

#[test]
fn local_name_of_a_remote_reference_is_what_follows_the_second_slash() {
    assert_eq!(local_branch_name("remotes/origin/feature-x"), Some("feature-x".to_string()));
    assert_eq!(local_branch_name("remotes/origin/feature/x"), Some("feature/x".to_string()));
    assert_eq!(local_branch_name("remotes/origin/"), Some(String::new()));
    assert_eq!(local_branch_name("remotes/origin"), None);
    assert_eq!(local_branch_name("remotes"), None);
}

#[test]
fn switch_to_remote_branch_without_local_creates_tracking_branch() {
    let (switch, args) = match BranchSwitch::start("remotes/origin/feature-x") {
        SwitchStep::Run { switch, args } => (switch, args),
        other => panic!("unexpected step {:?}", other),
    };
    assert_eq!(args, words(&["show-ref", "--verify", "--quiet", "refs/heads/feature-x"]));
    let (switch, args) = match switch.advance(&done(false, "")) {
        SwitchStep::Run { switch, args } => (switch, args),
        other => panic!("unexpected step {:?}", other),
    };
    assert_eq!(args, words(&["checkout", "-b", "feature-x", "remotes/origin/feature-x"]));
    assert!(matches!(switch.advance(&done(true, "")), SwitchStep::Finish(Ok(()))));
}

#[test]
fn switch_to_remote_branch_with_local_checks_the_local_one_out() {
    let (switch, _) = match BranchSwitch::start("remotes/origin/dev") {
        SwitchStep::Run { switch, args } => (switch, args),
        other => panic!("unexpected step {:?}", other),
    };
    let (switch, args) = match switch.advance(&done(true, "")) {
        SwitchStep::Run { switch, args } => (switch, args),
        other => panic!("unexpected step {:?}", other),
    };
    assert_eq!(args, words(&["checkout", "dev"]));
    match switch.advance(&done(false, "error: local changes")) {
        SwitchStep::Finish(Err(GitError::CommandFailure { operation, stderr })) => {
            assert_eq!(operation, Operation::Checkout);
            assert_eq!(stderr, "error: local changes");
        }
        other => panic!("unexpected step {:?}", other),
    }
}

#[test]
fn switch_to_local_branch_is_one_checkout() {
    let (switch, args) = match BranchSwitch::start("dev") {
        SwitchStep::Run { switch, args } => (switch, args),
        other => panic!("unexpected step {:?}", other),
    };
    assert_eq!(args, words(&["checkout", "dev"]));
    assert!(matches!(switch.advance(&done(true, "")), SwitchStep::Finish(Ok(()))));
}

#[test]
fn switch_refuses_a_short_remote_reference_without_running_anything() {
    assert!(matches!(
        BranchSwitch::start("remotes/origin"),
        SwitchStep::Finish(Err(GitError::InvalidBranchFormat))
    ));
    assert!(matches!(
        switch_branch("remotes/origin", &vec![done(true, ""), done(true, "")]),
        Err(GitError::InvalidBranchFormat)
    ));
}

#[test]
fn switch_branch_runs_from_a_transcript() {
    assert!(switch_branch("dev", &vec![done(true, "")]).is_ok());
    assert!(switch_branch("remotes/origin/x", &vec![done(false, ""), done(true, "")]).is_ok());
    assert!(matches!(
        switch_branch("remotes/origin/x", &vec![done(false, ""), done(false, "boom")]),
        Err(GitError::CommandFailure { .. })
    ));
    assert!(matches!(
        switch_branch(
            "remotes/origin/x",
            &vec![CommandOutcome::SpawnFailed("no git".to_string())]
        ),
        Err(GitError::ProcessSpawnFailure(_))
    ));
    assert!(matches!(switch_branch("dev", &Vec::new()), Err(GitError::ProcessSpawnFailure(_))));
}
