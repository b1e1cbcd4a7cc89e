use repo_manager::command::{CommandOutcome, GitError};
use repo_manager::query::{get_git_info, GitQuery, QueryPhase, QueryStep};
use repo_manager::status::{
    get_remotes, merge_branches, parse_ahead_behind, parse_branch_listing, parse_current_branch,
    parse_has_changes, BranchListing, GitInfo,
};

fn ok(stdout: &str) -> CommandOutcome {
    CommandOutcome::Exited { success: true, stdout: stdout.to_string(), stderr: String::new() }
}

fn failed(stderr: &str) -> CommandOutcome {
    CommandOutcome::Exited { success: false, stdout: String::new(), stderr: stderr.to_string() }
}

fn no_process() -> CommandOutcome {
    CommandOutcome::SpawnFailed("No such file or directory (os error 2)".to_string())
}

fn strings(items: &[&str]) -> Vec<String> {
    items.iter().map(|s| s.to_string()).collect()
}

#[test]
fn git_info_default_is_empty() {
    let info = GitInfo::default();
    assert_eq!(info.current_branch, None);
    assert!(info.branches.is_empty());
    assert_eq!((info.ahead, info.behind), (0, 0));
    assert!(!info.has_changes);
}

#[test]
fn git_info_clone_keeps_every_field() {
    let info = GitInfo {
        current_branch: Some("main".to_string()),
        branches: strings(&["main", "dev"]),
        ahead: 2,
        behind: 7,
        has_changes: true,
    };
    let copy = info.clone();
    assert_eq!(copy.current_branch, Some("main".to_string()));
    assert_eq!(copy.branches, strings(&["main", "dev"]));
    assert_eq!((copy.ahead, copy.behind, copy.has_changes), (2, 7, true));
}

#[test]
fn current_branch_is_trimmed_and_absent_when_empty() {
    assert_eq!(parse_current_branch("main\n"), Some("main".to_string()));
    assert_eq!(parse_current_branch("  feature/x \r\n"), Some("feature/x".to_string()));
    assert_eq!(parse_current_branch(""), None);
    assert_eq!(parse_current_branch(" \n"), None);
}

#[test]
fn remotes_fall_back_to_origin() {
    assert_eq!(get_remotes(&ok("origin\nupstream\n")), strings(&["origin", "upstream"]));
    assert_eq!(get_remotes(&ok("")), strings(&["origin"]));
    assert_eq!(get_remotes(&ok("\n  \n")), strings(&["origin"]));
    assert_eq!(get_remotes(&failed("fatal")), strings(&["origin"]));
    assert_eq!(get_remotes(&no_process()), strings(&["origin"]));
}

#[test]
fn branch_listing_sorts_lines_into_buckets() {
    let listing = parse_branch_listing(
        "  dev\n* main\n  remotes/origin/HEAD -> origin/main\n  remotes/origin/main\n  remotes/origin/feature-x\n  dev\n",
    );
    assert_eq!(listing.local, strings(&["dev", "main"]));
    assert_eq!(listing.remote, strings(&["remotes/origin/main", "remotes/origin/feature-x"]));
}

#[test]
fn branch_listing_keeps_detached_head_line_as_local() {
    let listing = parse_branch_listing("* (HEAD detached at 1a2b3c4)\n  main\n");
    assert_eq!(listing.local, strings(&["(HEAD detached at 1a2b3c4)", "main"]));
    assert!(listing.remote.is_empty());
}

#[test]
fn merge_drops_remote_branches_that_have_a_local_one() {
    let listing = BranchListing {
        local: strings(&["main", "dev"]),
        remote: strings(&[
            "remotes/origin/main",
            "remotes/origin/feature-x",
            "remotes/upstream/dev",
            "remotes/fork/dev",
            "remotes/origin/feature-x",
        ]),
    };
    let merged = merge_branches(&listing, &strings(&["origin", "upstream"]));
    assert_eq!(merged, strings(&["main", "dev", "remotes/origin/feature-x", "remotes/fork/dev"]));
}

#[test]
fn merge_matches_the_whole_name_after_the_remote_prefix() {
    let listing = BranchListing {
        local: strings(&["x"]),
        remote: strings(&["remotes/origin/feature/x", "remotes/origin/x"]),
    };
    let merged = merge_branches(&listing, &strings(&["origin"]));
    assert_eq!(merged, strings(&["x", "remotes/origin/feature/x"]));
}

#[test]
fn has_changes_is_any_output_of_a_successful_status() {
    assert!(parse_has_changes(&ok(" M src/lib.rs\n")));
    assert!(parse_has_changes(&ok("?? new.txt\n")));
    assert!(!parse_has_changes(&ok("")));
    assert!(!parse_has_changes(&failed("fatal")));
    assert!(!parse_has_changes(&no_process()));
}

#[test]
fn ahead_behind_reads_two_counts_parted_by_a_tab() {
    assert_eq!(parse_ahead_behind(&ok("3\t5\n")), (3, 5));
    assert_eq!(parse_ahead_behind(&ok("0\t0")), (0, 0));
    assert_eq!(parse_ahead_behind(&ok("12\t0\n")), (12, 0));
    assert_eq!(parse_ahead_behind(&ok("x\t5\n")), (0, 5));
    assert_eq!(parse_ahead_behind(&ok("3\ty\n")), (3, 0));
    assert_eq!(parse_ahead_behind(&ok("3 5\n")), (0, 0));
    assert_eq!(parse_ahead_behind(&ok("")), (0, 0));
    assert_eq!(parse_ahead_behind(&failed("fatal: bad revision")), (0, 0));
    assert_eq!(parse_ahead_behind(&no_process()), (0, 0));
}

#[test]
fn query_reports_ahead_three_behind_five_for_a_known_remote() {
    let outcomes = vec![
        ok("main\n"),
        ok("origin\n"),
        ok("* main\n  remotes/origin/main\n"),
        ok(""),
        ok("[origin/main] tip\n"),
        ok("3\t5\n"),
    ];
    let info = get_git_info(true, &outcomes).expect("the query succeeds");
    assert_eq!(info.current_branch, Some("main".to_string()));
    assert_eq!((info.ahead, info.behind), (3, 5));
    assert_eq!(info.branches, strings(&["main"]));
    assert!(!info.has_changes);
}

#[test]
fn query_reports_zero_when_no_remote_matches() {
    let outcomes = vec![
        ok("main\n"),
        ok("origin\nupstream\n"),
        ok("* main\n"),
        ok(" M file\n"),
        failed("fatal: bad sha1 reference origin/main"),
        failed("fatal: bad sha1 reference upstream/main"),
        ok("3\t5\n"),
    ];
    let info = get_git_info(true, &outcomes).expect("the query succeeds");
    assert_eq!((info.ahead, info.behind), (0, 0));
    assert!(info.has_changes);
}

#[test]
fn query_takes_counts_from_the_first_remote_that_tracks() {
    let outcomes = vec![
        ok("dev\n"),
        ok("origin\nupstream\n"),
        ok("* dev\n  main\n  remotes/upstream/dev\n  remotes/upstream/extra\n"),
        ok(""),
        failed(""),
        ok("[upstream/dev] tip\n"),
        ok("1\t2\n"),
    ];
    let info = get_git_info(true, &outcomes).expect("the query succeeds");
    assert_eq!((info.ahead, info.behind), (1, 2));
    assert_eq!(info.branches, strings(&["dev", "main", "remotes/upstream/extra"]));
}

#[test]
fn query_stops_at_the_first_remote_that_tracks() {
    let outcomes = vec![
        ok("dev\n"),
        ok("origin\nupstream\n"),
        ok("* dev\n"),
        ok(""),
        ok("[origin/dev] tip\n"),
        failed("fatal"),
        ok("[upstream/dev] tip\n"),
        ok("1\t2\n"),
    ];
    let info = get_git_info(true, &outcomes).expect("the query succeeds");
    assert_eq!((info.ahead, info.behind), (0, 0));
}

#[test]
fn query_without_current_branch_reports_zero() {
    let outcomes = vec![ok("\n"), ok("origin\n"), ok("* (HEAD detached at 1a2b3c4)\n"), ok(""), ok("x"), ok("3\t5\n")];
    let info = get_git_info(true, &outcomes).expect("the query succeeds");
    assert_eq!(info.current_branch, None);
    assert_eq!((info.ahead, info.behind), (0, 0));
}

#[test]
fn query_fails_for_a_path_without_git_entry() {
    let outcomes = vec![ok("main\n")];
    assert!(matches!(get_git_info(false, &outcomes), Err(GitError::NotARepository)));
}

#[test]
fn query_fails_when_git_cannot_be_started() {
    let outcomes = vec![no_process()];
    match get_git_info(true, &outcomes) {
        Err(GitError::ProcessSpawnFailure(reason)) => {
            assert_eq!(reason, "No such file or directory (os error 2)")
        }
        other => panic!("unexpected result {:?}", other),
    }
    assert!(matches!(get_git_info(true, &Vec::new()), Err(GitError::ProcessSpawnFailure(_))));
}

#[test]
fn query_tolerates_failures_after_the_first_step() {
    let outcomes = vec![ok("main\n"), no_process(), failed("x"), no_process(), no_process()];
    let info = get_git_info(true, &outcomes).expect("the query succeeds");
    assert_eq!(info.current_branch, Some("main".to_string()));
    assert!(info.branches.is_empty());
    assert_eq!((info.ahead, info.behind, info.has_changes), (0, 0, false));
}

#[test]
fn query_asks_for_its_commands_in_order() {
    let step = GitQuery::start(true);
    let (query, args) = match step {
        QueryStep::Run { query, args } => (query, args),
        other => panic!("unexpected step {:?}", other),
    };
    assert_eq!(args, strings(&["branch", "--show-current"]));
    assert_eq!(query.phase, QueryPhase::Branch);
    let (query, args) = match query.advance(&ok("main\n")) {
        QueryStep::Run { query, args } => (query, args),
        other => panic!("unexpected step {:?}", other),
    };
    assert_eq!(args, strings(&["remote"]));
    let (query, args) = match query.advance(&ok("origin\n")) {
        QueryStep::Run { query, args } => (query, args),
        other => panic!("unexpected step {:?}", other),
    };
    assert_eq!(args, strings(&["branch", "-a", "--sort=-committerdate"]));
    let (query, args) = match query.advance(&ok("* main\n")) {
        QueryStep::Run { query, args } => (query, args),
        other => panic!("unexpected step {:?}", other),
    };
    assert_eq!(args, strings(&["status", "--porcelain"]));
    let (query, args) = match query.advance(&ok("")) {
        QueryStep::Run { query, args } => (query, args),
        other => panic!("unexpected step {:?}", other),
    };
    assert_eq!(args, strings(&["show-branch", "origin/main"]));
    assert_eq!(query.phase, QueryPhase::Tracking);
    let (query, args) = match query.advance(&ok("tip")) {
        QueryStep::Run { query, args } => (query, args),
        other => panic!("unexpected step {:?}", other),
    };
    assert_eq!(args, strings(&["rev-list", "--count", "--left-right", "main...origin/main"]));
    match query.advance(&ok("4\t1\n")) {
        QueryStep::Finish(Ok(info)) => assert_eq!((info.ahead, info.behind), (4, 1)),
        other => panic!("unexpected step {:?}", other),
    }
}
