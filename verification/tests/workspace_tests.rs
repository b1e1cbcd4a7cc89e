use repo_manager::logging::{LogLevel, Logger};
use repo_manager::pathset::PathSet;
use repo_manager::search::{join_path, DirTree, RepositorySearcher};
use repo_manager::status::GitInfo;
use repo_manager::workspace::{RepositoryState, Workspace};

fn dir(name: &str, is_repository: bool, children: Vec<DirTree>) -> DirTree {
    DirTree { name: name.to_string(), is_repository, children }
}

fn paths(workspace: &Workspace) -> Vec<String> {
    workspace.repositories.iter().map(|r| r.path.clone()).collect()
}

#[test]
fn repository_state_takes_its_name_from_the_path() {
    let repo = RepositoryState::new("/home/user/project".to_string());
    assert_eq!(repo.path, "/home/user/project");
    assert_eq!(repo.name, "project");
    assert_eq!(repo.git_info.current_branch, None);
    let empty = RepositoryState::default();
    assert_eq!((empty.path.as_str(), empty.name.as_str()), ("", ""));
}

#[test]
fn repository_state_takes_a_new_status() {
    let mut repo = RepositoryState::new("/r".to_string());
    repo.update_git_info(GitInfo {
        current_branch: Some("main".to_string()),
        branches: vec!["main".to_string()],
        ahead: 1,
        behind: 2,
        has_changes: true,
    });
    assert_eq!(repo.git_info.current_branch, Some("main".to_string()));
    assert_eq!((repo.git_info.ahead, repo.git_info.behind), (1, 2));
    assert_eq!(repo.path, "/r");
    let copy = repo.clone();
    assert_eq!(copy.git_info.branches, vec!["main".to_string()]);
}

#[test]
fn adding_a_present_path_is_a_no_op() {
    let mut workspace = Workspace::new("work");
    assert!(workspace.is_empty());
    assert!(workspace.add_repository("/a".to_string()));
    assert!(workspace.add_repository("/b".to_string()));
    assert!(!workspace.add_repository("/a".to_string()));
    assert_eq!(paths(&workspace), vec!["/a".to_string(), "/b".to_string()]);
    assert_eq!(workspace.repository_count(), 2);
    assert!(!workspace.is_empty());
    assert_eq!(workspace.name, "work");
}

#[test]
fn removed_path_can_be_added_again() {
    let mut workspace = Workspace::new("work");
    assert!(workspace.add_repository("/a".to_string()));
    assert!(workspace.add_repository("/b".to_string()));
    let removed = workspace.remove_repository(0).expect("there is a repository");
    assert_eq!(removed.path, "/a");
    assert_eq!(paths(&workspace), vec!["/b".to_string()]);
    assert!(workspace.add_repository("/a".to_string()));
    assert_eq!(paths(&workspace), vec!["/b".to_string(), "/a".to_string()]);
    assert!(workspace.remove_repository(2).is_none());
    assert_eq!(workspace.repository_count(), 2);
}

#[test]
fn find_repository_mut_changes_the_repository_in_place() {
    let mut workspace = Workspace::new("work");
    workspace.add_repository("/a".to_string());
    workspace.add_repository("/b".to_string());
    let repo = workspace.find_repository_mut(&"/b".to_string()).expect("it is there");
    repo.git_info.ahead = 4;
    assert_eq!(workspace.repositories[1].git_info.ahead, 4);
    assert_eq!(workspace.repositories[0].git_info.ahead, 0);
    assert!(workspace.find_repository_mut(&"/c".to_string()).is_none());
    assert_eq!(workspace.position_of(&"/b".to_string()), 1);
    assert_eq!(workspace.position_of(&"/c".to_string()), 2);
}

#[test]
fn record_status_updates_the_first_repository_at_the_path() {
    let mut workspace = Workspace::new("work");
    workspace.add_repository("/a".to_string());
    let mut info = GitInfo::default();
    info.behind = 9;
    assert!(workspace.record_status(&"/a".to_string(), info));
    assert_eq!(workspace.repositories[0].git_info.behind, 9);
    assert!(!workspace.record_status(&"/zz".to_string(), GitInfo::default()));
}

#[test]
fn workspace_remembers_whether_it_was_loaded() {
    let mut workspace = Workspace::default();
    assert!(!workspace.is_loaded);
    workspace.mark_as_loaded();
    assert!(workspace.is_loaded);
    let copy = workspace.clone();
    assert!(copy.is_loaded);
    workspace.mark_as_unloaded();
    assert!(!workspace.is_loaded);
}

#[test]
fn discovery_returns_the_root_alone_when_it_is_a_repository() {
    let tree = dir("root", true, vec![dir("sub", true, vec![]), dir("other", false, vec![dir("deep", true, vec![])])]);
    assert_eq!(
        RepositorySearcher::find_git_repositories("/work/root", &tree),
        vec!["/work/root".to_string()]
    );
}

#[test]
fn discovery_does_not_descend_into_a_repository() {
    let tree = dir(
        "root",
        false,
        vec![
            dir("parent", true, vec![dir("nested", true, vec![])]),
            dir("plain", false, vec![dir("inner", true, vec![]), dir("empty", false, vec![])]),
        ],
    );
    assert_eq!(
        RepositorySearcher::find_git_repositories("/work", &tree),
        vec!["/work/parent".to_string(), "/work/plain/inner".to_string()]
    );
}

#[test]
fn discovery_skips_excluded_directories() {
    let tree = dir(
        "root",
        false,
        vec![
            dir("node_modules", true, vec![]),
            dir(".hidden", true, vec![]),
            dir("build", true, vec![]),
        ],
    );
    assert_eq!(RepositorySearcher::find_git_repositories("/work", &tree), Vec::<String>::new());
}

#[test]
fn discovery_skips_what_lies_beneath_excluded_directories() {
    let tree = dir(
        "root",
        false,
        vec![
            dir("Target", false, vec![dir("a", true, vec![])]),
            dir("NODE_MODULES", false, vec![dir("b", true, vec![])]),
            dir(".cache", false, vec![dir("c", true, vec![])]),
            dir("Build", false, vec![dir("d", true, vec![])]),
            dir("builder", false, vec![dir("e", true, vec![])]),
        ],
    );
    assert_eq!(
        RepositorySearcher::find_git_repositories("/work", &tree),
        vec!["/work/builder/e".to_string()]
    );
}

#[test]
fn excluded_names_are_matched_without_regard_to_ascii_case() {
    for name in [".git", ".", "node_modules", "Node_Modules", "target", "TARGET", "build", "BuIlD"] {
        assert!(RepositorySearcher::is_excluded_name(name), "name {:?}", name);
    }
    for name in ["", "src", "targets", "rebuild", "node-modules", "a.b"] {
        assert!(!RepositorySearcher::is_excluded_name(name), "name {:?}", name);
    }
}

#[test]
fn scan_appends_to_what_was_found_before() {
    let tree = dir("root", false, vec![dir("a", true, vec![])]);
    let mut found = vec!["/earlier".to_string()];
    RepositorySearcher::scan_for_repositories("/w", &tree, &mut found);
    assert_eq!(found, vec!["/earlier".to_string(), "/w/a".to_string()]);
    assert!(!RepositorySearcher::is_git_repository(&tree));
}

#[test]
fn join_path_adds_one_separator() {
    assert_eq!(join_path("/work", "a"), "/work/a");
    assert_eq!(join_path("/", "a"), "/a");
    assert_eq!(join_path("", "a"), "a");
    assert_eq!(join_path("rel/", "a"), "rel/a");
}

#[test]
fn logger_keeps_the_newest_entries() {
    let mut logger = Logger::new(3);
    logger.info("one".to_string());
    logger.warning("two".to_string());
    logger.error("three".to_string());
    assert_eq!(logger.total_count(), 3);
    logger.info("four".to_string());
    assert_eq!(logger.total_count(), 3);
    let texts: Vec<&str> = logger.logs().iter().map(|e| e.message.as_str()).collect();
    assert_eq!(texts, vec!["two", "three", "four"]);
    assert_eq!(logger.logs()[0].level, LogLevel::Warning);
    assert_eq!(logger.warning_count(), 1);
    assert_eq!(logger.error_count(), 1);
    logger.add_log(LogLevel::Error, "five".to_string());
    assert_eq!(logger.error_count(), 2);
    assert_eq!(logger.warning_count(), 0);
    logger.clear();
    assert_eq!(logger.total_count(), 0);
    assert_eq!(logger.error_count(), 0);
}

#[test]
fn default_logger_keeps_a_thousand_entries() {
    let mut logger = Logger::default();
    for i in 0..1005 {
        logger.info(format!("entry {}", i));
    }
    assert_eq!(logger.total_count(), 1000);
    assert_eq!(logger.logs()[0].message, "entry 5");
    assert_eq!(logger.logs()[999].message, "entry 1004");
}

#[test]
fn log_levels_have_marks() {
    assert_eq!(LogLevel::Info.icon(), "[I]");
    assert_eq!(LogLevel::Warning.icon(), "[!]");
    assert_eq!(LogLevel::Error.icon(), "[E]");
}

#[test]
fn path_set_holds_each_path_once() {
    let mut set = PathSet::new();
    assert!(set.is_empty());
    assert!(set.insert("/a".to_string()));
    assert!(!set.insert("/a".to_string()));
    assert!(set.insert("/b".to_string()));
    assert!(set.contains(&"/a".to_string()));
    assert!(set.remove(&"/a".to_string()));
    assert!(!set.remove(&"/a".to_string()));
    assert!(!set.contains(&"/a".to_string()));
    assert!(set.contains(&"/b".to_string()));
    assert!(!set.is_empty());
}
