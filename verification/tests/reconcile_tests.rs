use repo_manager::logging::LogLevel;
use repo_manager::messages::{AppMessage, GitMessage};
use repo_manager::planning::{paths_of, FETCH_STAGGER_MS};
use repo_manager::reconcile::{
    count_repositories, record_status, LogNote, StateReconciler, StatusNote,
};
use repo_manager::status::GitInfo;
use repo_manager::workspace::Workspace;

fn workspace(name: &str, repos: &[&str]) -> Workspace {
    let mut w = Workspace::new(name);
    for r in repos {
        assert!(w.add_repository(r.to_string()));
    }
    w
}

fn status(ahead: usize) -> GitInfo {
    GitInfo {
        current_branch: Some("main".to_string()),
        branches: vec!["main".to_string()],
        ahead,
        behind: 0,
        has_changes: false,
    }
}

fn updated(path: &str, ahead: usize) -> AppMessage {
    AppMessage::Git(GitMessage::RepoStatusUpdated { repo_path: path.to_string(), git_info: status(ahead) })
}

fn failure(path: &str, message: &str) -> AppMessage {
    AppMessage::Git(GitMessage::Error { repo_path: path.to_string(), message: message.to_string() })
}

fn two_workspaces() -> StateReconciler {
    StateReconciler::new(vec![workspace("one", &["/a", "/b"]), workspace("two", &["/b", "/c"])], 0)
}

#[test]
fn new_state_is_idle() {
    let state = two_workspaces();
    assert_eq!(state.active_workspace_idx, 0);
    assert!(state.syncing_repos.is_empty());
    assert!(state.error_repos.is_empty());
    assert_eq!(state.pending_git_loads, 0);
    assert!(!state.is_loading_on_startup);
    assert!(!state.is_searching);
    assert_eq!(count_repositories(&state.workspaces), 4);
}

#[test]
fn status_update_reaches_the_first_workspace_that_holds_the_path() {
    let mut state = two_workspaces();
    state.syncing_repos.insert("/b".to_string());
    state.error_repos.insert("/b".to_string());
    state.pending_git_loads = 2;
    let reaction = state.apply(updated("/b", 3));
    assert_eq!(state.workspaces[0].repositories[1].git_info.ahead, 3);
    assert_eq!(state.workspaces[1].repositories[0].git_info.ahead, 0);
    assert!(!state.syncing_repos.contains(&"/b".to_string()));
    assert!(!state.error_repos.contains(&"/b".to_string()));
    assert_eq!(state.pending_git_loads, 1);
    assert_eq!(reaction.logs.len(), 1);
    match &reaction.logs[0] {
        LogNote::RepoLoadedRemaining { name, remaining } => {
            assert_eq!((name.as_str(), *remaining), ("b", 1))
        }
        other => panic!("unexpected note {:?}", other),
    }
    assert_eq!(reaction.logs[0].level(), LogLevel::Info);
    assert_eq!(reaction.status, None);
    assert!(!reaction.restart_timer);
    assert!(reaction.refresh.is_empty());
    assert!(!reaction.save_config);
}

#[test]
fn last_awaited_status_is_logged_as_such() {
    let mut state = two_workspaces();
    state.pending_git_loads = 1;
    let reaction = state.apply(updated("/c", 0));
    assert_eq!(state.pending_git_loads, 0);
    assert!(matches!(&reaction.logs[0], LogNote::RepoLoadedLast { name } if name == "c"));
    let reaction = state.apply(updated("/c", 0));
    assert_eq!(state.pending_git_loads, 0);
    assert!(matches!(&reaction.logs[0], LogNote::RepoLoadedLast { .. }));
}

#[test]
fn status_for_an_unknown_repository_is_dropped() {
    let mut state = two_workspaces();
    state.is_loading_on_startup = true;
    state.pending_git_loads = 3;
    let reaction = state.apply(updated("/gone", 5));
    assert_eq!(state.pending_git_loads, 2);
    assert_eq!(state.startup_loaded_repos, 0);
    assert!(state.is_loading_on_startup);
    assert_eq!(reaction.status, None);
    for w in &state.workspaces {
        for r in &w.repositories {
            assert_eq!(r.git_info.ahead, 0);
        }
    }
}

#[test]
fn startup_answers_are_counted_until_all_have_come() {
    let mut state = two_workspaces();
    let started = state.refresh_all_loaded_repos();
    assert_eq!(started, vec!["/a", "/b", "/b", "/c"]);
    assert!(state.is_loading_on_startup);
    let reaction = state.apply(updated("/a", 0));
    assert_eq!(reaction.status, Some(StatusNote::LoadedCount { loaded: 1, total: 4 }));
    assert!(!reaction.restart_timer);
    let reaction = state.apply(failure("/b", "boom"));
    assert_eq!(reaction.status, Some(StatusNote::LoadedCount { loaded: 2, total: 4 }));
    let reaction = state.apply(updated("/c", 0));
    assert_eq!(reaction.status, Some(StatusNote::LoadedCount { loaded: 3, total: 4 }));
    let reaction = state.apply(updated("/b", 0));
    assert_eq!(reaction.status, Some(StatusNote::AllReposLoaded));
    assert!(reaction.restart_timer);
    assert!(!state.is_loading_on_startup);
    assert_eq!(state.startup_loaded_repos, 4);
    let reaction = state.apply(updated("/b", 0));
    assert_eq!(reaction.status, None);
}

#[test]
fn startup_that_ends_with_a_failure_says_so() {
    let mut state = StateReconciler::new(vec![workspace("one", &["/a"])], 0);
    state.refresh_all_loaded_repos();
    let reaction = state.apply(failure("/a", "boom"));
    assert_eq!(reaction.status, Some(StatusNote::LoadingCompleteErrors));
    assert!(reaction.restart_timer);
    assert!(!state.is_loading_on_startup);
}

#[test]
fn failure_marks_the_repository_and_is_logged() {
    let mut state = two_workspaces();
    state.syncing_repos.insert("/a".to_string());
    let reaction = state.apply(failure("/a", "Fetch failed"));
    assert!(!state.syncing_repos.contains(&"/a".to_string()));
    assert!(state.error_repos.contains(&"/a".to_string()));
    assert!(matches!(&reaction.logs[0], LogNote::GitError { message } if message == "Fetch failed"));
    assert_eq!(reaction.logs[0].level(), LogLevel::Error);
    assert_eq!(reaction.status, None);
    let _ = state.apply(updated("/a", 1));
    assert!(!state.error_repos.contains(&"/a".to_string()));
}

#[test]
fn found_repositories_are_added_once_and_refreshed() {
    let mut state = two_workspaces();
    state.is_searching = true;
    let reaction = state.apply(AppMessage::ReposFound {
        repos: vec!["/x".to_string(), "/a".to_string(), "/y".to_string(), "/x".to_string()],
    });
    assert!(!state.is_searching);
    assert_eq!(paths_of(&state.workspaces[0]), vec!["/a", "/b", "/x", "/y"]);
    assert_eq!(paths_of(&state.workspaces[1]), vec!["/b", "/c"]);
    assert_eq!(reaction.refresh, vec!["/x", "/y"]);
    assert!(reaction.save_config);
    assert!(reaction.restart_timer);
    assert_eq!(reaction.status, Some(StatusNote::AddedRepos { count: 2 }));
    assert!(matches!(&reaction.logs[0], LogNote::AddedRepos { count: 2 }));
}

#[test]
fn search_that_adds_nothing_warns() {
    let mut state = two_workspaces();
    let reaction = state.apply(AppMessage::ReposFound { repos: vec!["/a".to_string()] });
    assert!(reaction.refresh.is_empty());
    assert!(!reaction.save_config);
    assert_eq!(reaction.status, Some(StatusNote::NoReposFound));
    assert!(matches!(&reaction.logs[0], LogNote::NoNewRepos));
    assert_eq!(reaction.logs[0].level(), LogLevel::Warning);
    let mut none = StateReconciler::new(Vec::new(), 0);
    let reaction = none.apply(AppMessage::ReposFound { repos: vec!["/a".to_string()] });
    assert!(reaction.refresh.is_empty());
    assert_eq!(reaction.status, Some(StatusNote::NoReposFound));
}

#[test]
fn search_complete_sets_the_status_line() {
    let mut state = two_workspaces();
    state.is_searching = true;
    let reaction = state.apply(AppMessage::SearchComplete { total_found: 7 });
    assert!(!state.is_searching);
    assert_eq!(reaction.status, Some(StatusNote::FoundRepos { total: 7 }));
    assert!(reaction.restart_timer);
    assert!(reaction.logs.is_empty());
}

#[test]
fn record_status_reports_whether_a_workspace_holds_the_path() {
    let mut workspaces = vec![workspace("one", &["/a"]), workspace("two", &["/a", "/b"])];
    assert!(record_status(&mut workspaces, &"/b".to_string(), status(2)));
    assert_eq!(workspaces[1].repositories[1].git_info.ahead, 2);
    assert!(record_status(&mut workspaces, &"/a".to_string(), status(5)));
    assert_eq!(workspaces[0].repositories[0].git_info.ahead, 5);
    assert_eq!(workspaces[1].repositories[0].git_info.ahead, 0);
    assert!(!record_status(&mut workspaces, &"/zz".to_string(), status(1)));
}

#[test]
fn workspace_is_loaded_once() {
    let mut state = two_workspaces();
    assert_eq!(state.load_workspace(1), vec!["/b", "/c"]);
    assert!(state.workspaces[1].is_loaded);
    assert!(!state.workspaces[0].is_loaded);
    assert_eq!(state.pending_git_loads, 2);
    assert!(state.load_workspace(1).is_empty());
    assert_eq!(state.pending_git_loads, 2);
    assert!(state.load_workspace(9).is_empty());
}

#[test]
fn switching_shows_the_workspace_and_loads_it() {
    let mut state = two_workspaces();
    assert_eq!(state.switch_to_workspace(1), Some(vec!["/b".to_string(), "/c".to_string()]));
    assert_eq!(state.active_workspace_idx, 1);
    assert_eq!(state.switch_to_workspace(1), Some(Vec::new()));
    assert_eq!(state.switch_to_workspace(2), None);
    assert_eq!(state.active_workspace_idx, 1);
    assert_eq!(state.refresh_all_repos(), vec!["/b", "/c"]);
}

#[test]
fn refresh_without_workspaces_starts_nothing() {
    let mut state = StateReconciler::new(Vec::new(), 0);
    assert!(state.refresh_all_repos().is_empty());
    assert!(state.refresh_all_loaded_repos().is_empty());
    assert!(!state.is_loading_on_startup);
    assert!(state.fetch_all().is_empty());
}

#[test]
fn fetch_all_staggers_its_fetches() {
    let mut state = StateReconciler::new(vec![workspace("one", &["/a", "/b", "/c"])], 0);
    let plan = state.fetch_all();
    assert_eq!(FETCH_STAGGER_MS, 200);
    let seen: Vec<(String, u64)> = plan.iter().map(|p| (p.repo_path.clone(), p.delay_ms)).collect();
    assert_eq!(
        seen,
        vec![("/a".to_string(), 0), ("/b".to_string(), 200), ("/c".to_string(), 400)]
    );
    for p in ["/a", "/b", "/c"] {
        assert!(state.syncing_repos.contains(&p.to_string()));
    }
}

#[test]
fn restore_takes_names_from_paths_and_the_last_workspace_shown() {
    let mut first = workspace("one", &["/home/u/api"]);
    first.repositories[0].name = String::new();
    let second = workspace("two", &["/srv/web/"]);
    let state = StateReconciler::restore(vec![first, second], Some(1));
    assert_eq!(state.active_workspace_idx, 1);
    assert_eq!(state.workspaces[0].repositories[0].name, "api");
    assert_eq!(state.workspaces[1].repositories[0].name, "web");
    assert_eq!(state.workspaces[1].repositories[0].path, "/srv/web/");
    assert!(!state.is_loading_on_startup);
    let state = StateReconciler::restore(vec![workspace("one", &[])], Some(1));
    assert_eq!(state.active_workspace_idx, 0);
    let state = StateReconciler::restore(Vec::new(), None);
    assert_eq!(state.active_workspace_idx, 0);
}

#[test]
fn new_workspace_is_named_after_its_number() {
    let mut state = StateReconciler::new(Vec::new(), 0);
    state.add_workspace();
    state.add_workspace();
    assert_eq!(state.workspaces[0].name, "Workspace 1");
    assert_eq!(state.workspaces[1].name, "Workspace 2");
    assert!(state.workspaces[1].is_empty());
    assert!(!state.workspaces[1].is_loaded);
}

#[test]
fn removing_a_workspace_keeps_the_shown_one_in_range() {
    let mut state = StateReconciler::new(
        vec![workspace("a", &[]), workspace("b", &[]), workspace("c", &[])],
        2,
    );
    let removed = state.remove_workspace(0).expect("there is a workspace");
    assert_eq!(removed.name, "a");
    assert_eq!(state.active_workspace_idx, 1);
    assert!(state.remove_workspace(5).is_none());
    assert_eq!(state.workspaces.len(), 2);
    state.active_workspace_idx = 0;
    let _ = state.remove_workspace(1);
    assert_eq!(state.active_workspace_idx, 0);
    let _ = state.remove_workspace(0);
    assert_eq!(state.active_workspace_idx, 0);
    assert!(state.workspaces.is_empty());
}
