//! The owner of the application's state, and what each message does to it.
//!
//! Workers never touch this state: they post messages, and the owner takes
//! them one by one. What the owner is to log, to show and to start in answer
//! comes back as a `Reaction`; how that is worded, drawn and run is the
//! caller's business.

use vstd::prelude::*;
use crate::logging::LogLevel;
use crate::messages::{AppMessage, AppMessageView, GitMessage, GitMessageView};
use crate::paths::{display_name, file_name};
use crate::pathset::PathSet;
use crate::status::{GitInfo, GitInfoView};
use crate::text::texts;
use crate::workspace::{Workspace, WorkspaceView};

verus! {

/// What the status line is to say.
#[derive(Debug, Clone, Copy, PartialEq, Eq, Structural)]
pub enum StatusNote {
    /// Every repository has answered after the start of the program.
    AllReposLoaded,
    /// Every repository has answered or failed after the start.
    LoadingCompleteErrors,
    /// So many of so many repositories have answered after the start.
    LoadedCount { loaded: usize, total: usize },
    /// A search added so many repositories.
    AddedRepos { count: usize },
    /// A search added none.
    NoReposFound,
    /// A search found so many repositories.
    FoundRepos { total: usize },
}

/// What is to be written to the log.
#[derive(Debug)]
pub enum LogNote {
    /// The repository `name` has answered, and none is awaited.
    RepoLoadedLast { name: String },
    /// The repository `name` has answered, and so many are awaited.
    RepoLoadedRemaining { name: String, remaining: usize },
    /// A worker reported a failure in these words.
    GitError { message: String },
    /// A search added so many repositories.
    AddedRepos { count: usize },
    /// A search added none.
    NoNewRepos,
}

/// A `LogNote` with its texts as character sequences.
pub enum LogNoteView {
    RepoLoadedLast { name: Seq<char> },
    RepoLoadedRemaining { name: Seq<char>, remaining: nat },
    GitError { message: Seq<char> },
    AddedRepos { count: nat },
    NoNewRepos,
}

impl View for LogNote {
    type V = LogNoteView;

    open spec fn view(&self) -> LogNoteView {
        match self {
            LogNote::RepoLoadedLast { name } => LogNoteView::RepoLoadedLast { name: name@ },
            LogNote::RepoLoadedRemaining { name, remaining } => LogNoteView::RepoLoadedRemaining {
                name: name@,
                remaining: *remaining as nat,
            },
            LogNote::GitError { message } => LogNoteView::GitError { message: message@ },
            LogNote::AddedRepos { count } => LogNoteView::AddedRepos { count: *count as nat },
            LogNote::NoNewRepos => LogNoteView::NoNewRepos,
        }
    }
}

impl LogNoteView {
    /// How grave the note is: a failure is an error, a search that added
    /// nothing a warning, all else information.
    pub open spec fn level(self) -> LogLevel {
        match self {
            LogNoteView::GitError { .. } => LogLevel::Error,
            LogNoteView::NoNewRepos => LogLevel::Warning,
            _ => LogLevel::Info,
        }
    }
}

impl LogNote {
    /// How grave the note is.
    pub fn level(&self) -> (r: LogLevel)
        ensures
            r == self@.level(),
    {
        match self {
            LogNote::GitError { .. } => LogLevel::Error,
            LogNote::NoNewRepos => LogLevel::Warning,
            _ => LogLevel::Info,
        }
    }
}

/// What the owner is to do in answer to a message.
#[derive(Debug)]
pub struct Reaction {
    /// What to write to the log, in order.
    pub logs: Vec<LogNote>,
    /// What the status line is to say from now on, if that changes.
    pub status: Option<StatusNote>,
    /// Whether the time for which the status line stays begins anew.
    pub restart_timer: bool,
    /// The repositories whose status is to be queried.
    pub refresh: Vec<String>,
    /// Whether the workspaces are to be written to disk.
    pub save_config: bool,
}

/// A `Reaction` with its texts as character sequences.
pub struct ReactionView {
    pub logs: Seq<LogNoteView>,
    pub status: Option<StatusNote>,
    pub restart_timer: bool,
    pub refresh: Seq<Seq<char>>,
    pub save_config: bool,
}

/// The views of a list of notes.
pub open spec fn note_views(v: Seq<LogNote>) -> Seq<LogNoteView> {
    Seq::new(v.len(), |i: int| v[i]@)
}

impl View for Reaction {
    type V = ReactionView;

    open spec fn view(&self) -> ReactionView {
        ReactionView {
            logs: note_views(self.logs@),
            status: self.status,
            restart_timer: self.restart_timer,
            refresh: texts(self.refresh@),
            save_config: self.save_config,
        }
    }
}

/// The state that only its owner changes.
#[derive(Debug)]
pub struct StateReconciler {
    pub workspaces: Vec<Workspace>,
    /// The position of the workspace that is shown.
    pub active_workspace_idx: usize,
    /// The repositories on which a worker is busy.
    pub syncing_repos: PathSet,
    /// The repositories whose last work failed.
    pub error_repos: PathSet,
    /// How many status queries were started and have not answered.
    pub pending_git_loads: usize,
    /// Whether the answers to the queries made at the start are counted.
    pub is_loading_on_startup: bool,
    /// How many of those answers have come.
    pub startup_loaded_repos: usize,
    /// Whether a search of the file system is under way.
    pub is_searching: bool,
}

/// A `StateReconciler` with its texts as character sequences.
pub struct StateView {
    pub workspaces: Seq<WorkspaceView>,
    pub active_workspace_idx: nat,
    pub syncing_repos: Set<Seq<char>>,
    pub error_repos: Set<Seq<char>>,
    pub pending_git_loads: nat,
    pub is_loading_on_startup: bool,
    pub startup_loaded_repos: nat,
    pub is_searching: bool,
}

/// The views of a list of workspaces.
pub open spec fn workspace_views(v: Seq<Workspace>) -> Seq<WorkspaceView> {
    Seq::new(v.len(), |i: int| v[i]@)
}

impl View for StateReconciler {
    type V = StateView;

    open spec fn view(&self) -> StateView {
        StateView {
            workspaces: workspace_views(self.workspaces@),
            active_workspace_idx: self.active_workspace_idx as nat,
            syncing_repos: self.syncing_repos@,
            error_repos: self.error_repos@,
            pending_git_loads: self.pending_git_loads as nat,
            is_loading_on_startup: self.is_loading_on_startup,
            startup_loaded_repos: self.startup_loaded_repos as nat,
            is_searching: self.is_searching,
        }
    }
}

/// How many repositories the workspaces hold together.
pub open spec fn total_repositories(workspaces: Seq<WorkspaceView>) -> nat
    decreases workspaces.len(),
{
    if workspaces.len() == 0 {
        0
    } else {
        total_repositories(workspaces.drop_last()) + workspaces.last().repositories.len()
    }
}

/// `n`, or the largest number there is where `n` is larger.
pub open spec fn capped(n: nat) -> usize {
    if n <= usize::MAX {
        n as usize
    } else {
        usize::MAX
    }
}

/// The position of the first workspace that holds a repository at `path`,
/// or the number of workspaces if none does.
pub open spec fn first_holder(workspaces: Seq<WorkspaceView>, path: Seq<char>) -> int
    decreases workspaces.len(),
{
    if workspaces.len() == 0 || workspaces[0].has_path(path) {
        0
    } else {
        1 + first_holder(workspaces.drop_first(), path)
    }
}

proof fn lemma_first_holder(workspaces: Seq<WorkspaceView>, path: Seq<char>, k: int)
    requires
        0 <= k <= workspaces.len(),
        forall|j: int| 0 <= j < k ==> !(#[trigger] workspaces[j]).has_path(path),
        k < workspaces.len() ==> workspaces[k].has_path(path),
    ensures
        first_holder(workspaces, path) == k,
    decreases workspaces.len(),
{
    if k > 0 {
        let rest = workspaces.drop_first();
        assert(!workspaces[0].has_path(path));
        assert forall|j: int| 0 <= j < k - 1 implies !(#[trigger] rest[j]).has_path(path) by {
            assert(rest[j] == workspaces[j + 1]);
        }
        lemma_first_holder(rest, path, k - 1);
    }
}

/// The workspaces after a status arrived for `path`: the first one that
/// holds a repository there takes it; the others stay as they are.
pub open spec fn status_recorded(
    workspaces: Seq<WorkspaceView>,
    path: Seq<char>,
    git_info: GitInfoView,
) -> Seq<WorkspaceView> {
    let k = first_holder(workspaces, path);
    if 0 <= k < workspaces.len() {
        workspaces.update(k, workspaces[k].with_status(path, git_info))
    } else {
        workspaces
    }
}

/// The workspace after each of `paths` was offered to it in turn.
pub open spec fn offered(workspace: WorkspaceView, paths: Seq<Seq<char>>) -> WorkspaceView
    decreases paths.len(),
{
    if paths.len() == 0 {
        workspace
    } else {
        offered(workspace, paths.drop_last()).added(paths.last())
    }
}

/// Those of `paths` that the workspace took when each was offered to it in
/// turn, in order.
pub open spec fn taken(workspace: WorkspaceView, paths: Seq<Seq<char>>) -> Seq<Seq<char>>
    decreases paths.len(),
{
    if paths.len() == 0 {
        Seq::empty()
    } else if offered(workspace, paths.drop_last()).has_path(paths.last()) {
        taken(workspace, paths.drop_last())
    } else {
        taken(workspace, paths.drop_last()).push(paths.last())
    }
}

impl StateView {
    /// The state and the status line after one more answer to the queries
    /// made at the start; `done` is the line for the last of them.
    pub open spec fn counted(self, done: StatusNote) -> (StateView, Option<StatusNote>, bool) {
        if !self.is_loading_on_startup {
            (self, None, false)
        } else {
            let loaded = capped(self.startup_loaded_repos + 1);
            let total = capped(total_repositories(self.workspaces));
            if loaded >= total {
                (
                    StateView {
                        is_loading_on_startup: false,
                        startup_loaded_repos: loaded as nat,
                        ..self
                    },
                    Some(done),
                    true,
                )
            } else {
                (
                    StateView { startup_loaded_repos: loaded as nat, ..self },
                    Some(StatusNote::LoadedCount { loaded, total }),
                    false,
                )
            }
        }
    }

    /// What the log says when the repository at `path` has answered and
    /// `pending` queries are still awaited: nothing where the path has no
    /// name.
    pub open spec fn loaded_notes(path: Seq<char>, pending: nat) -> Seq<LogNoteView> {
        if file_name(path).len() == 0 {
            Seq::empty()
        } else if pending == 0 {
            seq![LogNoteView::RepoLoadedLast { name: file_name(path) }]
        } else {
            seq![LogNoteView::RepoLoadedRemaining { name: file_name(path), remaining: pending }]
        }
    }

    /// A status arrived: the repository is no longer busy nor failed, one
    /// query less is awaited, and the first workspace that holds the
    /// repository takes the status. A status for a repository that no
    /// workspace holds is dropped.
    pub open spec fn status_arrived(self, path: Seq<char>, git_info: GitInfoView) -> (
        StateView,
        ReactionView,
    ) {
        let pending = if self.pending_git_loads > 0 {
            (self.pending_git_loads - 1) as nat
        } else {
            0
        };
        let cleared = StateView {
            syncing_repos: self.syncing_repos.remove(path),
            error_repos: self.error_repos.remove(path),
            pending_git_loads: pending,
            ..self
        };
        let logs = StateView::loaded_notes(path, pending);
        if first_holder(self.workspaces, path) < self.workspaces.len() {
            let recorded = StateView {
                workspaces: status_recorded(self.workspaces, path, git_info),
                ..cleared
            };
            let (state, status, restart_timer) = recorded.counted(StatusNote::AllReposLoaded);
            (
                state,
                ReactionView {
                    logs,
                    status,
                    restart_timer,
                    refresh: Seq::empty(),
                    save_config: false,
                },
            )
        } else {
            (
                cleared,
                ReactionView {
                    logs,
                    status: None,
                    restart_timer: false,
                    refresh: Seq::empty(),
                    save_config: false,
                },
            )
        }
    }

    /// A failure arrived: it is logged, and the repository is no longer
    /// busy but failed.
    pub open spec fn failure_arrived(self, path: Seq<char>, message: Seq<char>) -> (
        StateView,
        ReactionView,
    ) {
        let marked = StateView {
            syncing_repos: self.syncing_repos.remove(path),
            error_repos: self.error_repos.insert(path),
            ..self
        };
        let (state, status, restart_timer) = marked.counted(StatusNote::LoadingCompleteErrors);
        (
            state,
            ReactionView {
                logs: seq![LogNoteView::GitError { message }],
                status,
                restart_timer,
                refresh: Seq::empty(),
                save_config: false,
            },
        )
    }

    /// A search ended with these repositories: the workspace that is shown
    /// takes those that it does not hold yet, and their status is to be
    /// queried.
    pub open spec fn repos_found(self, repos: Seq<Seq<char>>) -> (StateView, ReactionView) {
        let idx = self.active_workspace_idx as int;
        let added = if idx < self.workspaces.len() {
            taken(self.workspaces[idx], repos)
        } else {
            Seq::empty()
        };
        let workspaces = if idx < self.workspaces.len() {
            self.workspaces.update(idx, offered(self.workspaces[idx], repos))
        } else {
            self.workspaces
        };
        (
            StateView { workspaces, is_searching: false, ..self },
            ReactionView {
                logs: if added.len() > 0 {
                    seq![LogNoteView::AddedRepos { count: added.len() }]
                } else {
                    seq![LogNoteView::NoNewRepos]
                },
                status: if added.len() > 0 {
                    Some(StatusNote::AddedRepos { count: capped(added.len()) })
                } else {
                    Some(StatusNote::NoReposFound)
                },
                restart_timer: true,
                refresh: added,
                save_config: added.len() > 0,
            },
        )
    }

    /// What a message does to the state, and what is to be done in answer.
    pub open spec fn applied(self, message: AppMessageView) -> (StateView, ReactionView) {
        match message {
            AppMessageView::Git(GitMessageView::RepoStatusUpdated { repo_path, git_info }) => {
                self.status_arrived(repo_path, git_info)
            },
            AppMessageView::Git(GitMessageView::Error { repo_path, message }) => {
                self.failure_arrived(repo_path, message)
            },
            AppMessageView::ReposFound { repos } => self.repos_found(repos),
            AppMessageView::SearchComplete { total_found } => (
                StateView { is_searching: false, ..self },
                ReactionView {
                    logs: Seq::empty(),
                    status: Some(StatusNote::FoundRepos { total: capped(total_found) }),
                    restart_timer: true,
                    refresh: Seq::empty(),
                    save_config: false,
                },
            ),
        }
    }

    /// No workspace holds a path twice.
    pub open spec fn well_formed(self) -> bool {
        forall|i: int| 0 <= i < self.workspaces.len() ==> (#[trigger] self.workspaces[i]).well_formed()
    }
}

/// How many repositories the workspaces hold together; the largest number
/// there is where they hold more.
pub fn count_repositories(workspaces: &Vec<Workspace>) -> (r: usize)
    ensures
        r == capped(total_repositories(workspace_views(workspaces@))),
{
    let ghost all = workspace_views(workspaces@);
    let mut total: usize = 0;
    let mut i: usize = 0;
    proof {
        assert(all.take(0) =~= Seq::<WorkspaceView>::empty());
    }
    while i < workspaces.len()
        invariant
            i <= workspaces.len(),
            all == workspace_views(workspaces@),
            total == capped(total_repositories(all.take(i as int))),
        decreases workspaces.len() - i,
    {
        let n = workspaces[i].repository_count();
        proof {
            assert(all.take(i + 1).drop_last() =~= all.take(i as int));
            assert(all.take(i + 1).last() == workspaces@[i as int]@);
        }
        total = if total <= usize::MAX - n {
            total + n
        } else {
            usize::MAX
        };
        i += 1;
    }
    proof {
        assert(all.take(i as int) =~= all);
    }
    total
}

/// Hands `git_info` to the first workspace that holds a repository at
/// `path`, and says whether there is one.
pub fn record_status(workspaces: &mut Vec<Workspace>, path: &String, git_info: GitInfo) -> (r: bool)
    ensures
        r == (first_holder(workspace_views(old(workspaces)@), path@) < old(workspaces)@.len()),
        workspace_views(final(workspaces)@) == status_recorded(
            workspace_views(old(workspaces)@),
            path@,
            git_info@,
        ),
        final(workspaces)@.len() == old(workspaces)@.len(),
        total_repositories(workspace_views(final(workspaces)@)) == total_repositories(
            workspace_views(old(workspaces)@),
        ),
{
    let ghost before = workspace_views(workspaces@);
    let mut k: usize = 0;
    let mut found = false;
    while k < workspaces.len() && !found
        invariant
            k <= workspaces.len(),
            before == workspace_views(workspaces@),
            forall|j: int| 0 <= j < k ==> !(#[trigger] before[j]).has_path(path@),
            found ==> k < workspaces.len() && before[k as int].has_path(path@),
        decreases workspaces.len() - k + (if found { 0int } else { 1int }),
    {
        let n = workspaces[k].repository_count();
        assert(before[k as int] == workspaces@[k as int]@);
        if workspaces[k].position_of(path) < n {
            found = true;
        } else {
            k += 1;
        }
    }
    proof {
        lemma_first_holder(before, path@, k as int);
    }
    if k < workspaces.len() {
        let found = workspaces[k].record_status(path, git_info);
        proof {
            assert(before[k as int].has_path(path@));
            let after = workspace_views(workspaces@);
            assert(after =~= before.update(k as int, before[k as int].with_status(path@, git_info@)));
            lemma_total_after_update(before, k as int, after[k as int]);
        }
        found
    } else {
        false
    }
}

proof fn lemma_total_after_update(workspaces: Seq<WorkspaceView>, k: int, changed: WorkspaceView)
    requires
        0 <= k < workspaces.len(),
        changed.repositories.len() == workspaces[k].repositories.len(),
    ensures
        total_repositories(workspaces.update(k, changed)) == total_repositories(workspaces),
    decreases workspaces.len(),
{
    let updated = workspaces.update(k, changed);
    if k == workspaces.len() - 1 {
        assert(updated.drop_last() =~= workspaces.drop_last());
    } else {
        assert(updated.drop_last() =~= workspaces.drop_last().update(k, changed));
        lemma_total_after_update(workspaces.drop_last(), k, changed);
    }
}

impl StateReconciler {
    /// The state at the start of the program, with the workspaces that were
    /// read from disk.
    pub fn new(workspaces: Vec<Workspace>, active_workspace_idx: usize) -> (r: StateReconciler)
        ensures
            r@ == (StateView {
                workspaces: workspace_views(workspaces@),
                active_workspace_idx: active_workspace_idx as nat,
                syncing_repos: Set::empty(),
                error_repos: Set::empty(),
                pending_git_loads: 0,
                is_loading_on_startup: false,
                startup_loaded_repos: 0,
                is_searching: false,
            }),
    {
        StateReconciler {
            workspaces,
            active_workspace_idx,
            syncing_repos: PathSet::new(),
            error_repos: PathSet::new(),
            pending_git_loads: 0,
            is_loading_on_startup: false,
            startup_loaded_repos: 0,
            is_searching: false,
        }
    }

    fn count_answer(&mut self, done: StatusNote) -> (r: (Option<StatusNote>, bool))
        ensures
            (final(self)@, r.0, r.1) == old(self)@.counted(done),
    {
        if !self.is_loading_on_startup {
            return (None, false);
        }
        let loaded = if self.startup_loaded_repos < usize::MAX {
            self.startup_loaded_repos + 1
        } else {
            usize::MAX
        };
        let total = count_repositories(&self.workspaces);
        self.startup_loaded_repos = loaded;
        if loaded >= total {
            self.is_loading_on_startup = false;
            (Some(done), true)
        } else {
            (Some(StatusNote::LoadedCount { loaded, total }), false)
        }
    }

    fn status_arrived(&mut self, repo_path: String, git_info: GitInfo) -> (r: Reaction)
        ensures
            (final(self)@, r@) == old(self)@.status_arrived(repo_path@, git_info@),
    {
        let _ = self.syncing_repos.remove(&repo_path);
        let _ = self.error_repos.remove(&repo_path);
        if self.pending_git_loads > 0 {
            self.pending_git_loads = self.pending_git_loads - 1;
        }
        let mut logs: Vec<LogNote> = Vec::new();
        let name = display_name(repo_path.as_str());
        if name.as_str().unicode_len() > 0 {
            if self.pending_git_loads == 0 {
                logs.push(LogNote::RepoLoadedLast { name });
            } else {
                logs.push(
                    LogNote::RepoLoadedRemaining { name, remaining: self.pending_git_loads },
                );
            }
        }
        proof {
            assert(note_views(logs@) =~= StateView::loaded_notes(
                repo_path@,
                self.pending_git_loads as nat,
            ));
        }
        let held = record_status(&mut self.workspaces, &repo_path, git_info);
        let refresh: Vec<String> = Vec::new();
        proof {
            assert(texts(refresh@) =~= Seq::<Seq<char>>::empty());
        }
        if held {
            let (status, restart_timer) = self.count_answer(StatusNote::AllReposLoaded);
            Reaction { logs, status, restart_timer, refresh, save_config: false }
        } else {
            Reaction { logs, status: None, restart_timer: false, refresh, save_config: false }
        }
    }

    fn failure_arrived(&mut self, repo_path: String, message: String) -> (r: Reaction)
        ensures
            (final(self)@, r@) == old(self)@.failure_arrived(repo_path@, message@),
    {
        let _ = self.syncing_repos.remove(&repo_path);
        let _ = self.error_repos.insert(repo_path);
        let mut logs: Vec<LogNote> = Vec::new();
        logs.push(LogNote::GitError { message });
        let refresh: Vec<String> = Vec::new();
        proof {
            assert(note_views(logs@) =~= seq![LogNoteView::GitError { message: message@ }]);
            assert(texts(refresh@) =~= Seq::<Seq<char>>::empty());
        }
        let (status, restart_timer) = self.count_answer(StatusNote::LoadingCompleteErrors);
        Reaction { logs, status, restart_timer, refresh, save_config: false }
    }

    fn repos_found(&mut self, repos: Vec<String>) -> (r: Reaction)
        ensures
            (final(self)@, r@) == old(self)@.repos_found(texts(repos@)),
    {
        self.is_searching = false;
        let ghost before = self@;
        let ghost paths = texts(repos@);
        let idx = self.active_workspace_idx;
        let mut refresh: Vec<String> = Vec::new();
        if idx < self.workspaces.len() {
            let ghost start = self.workspaces@[idx as int]@;
            let mut i: usize = 0;
            proof {
                assert(paths.take(0) =~= Seq::<Seq<char>>::empty());
                assert(texts(refresh@) =~= taken(start, paths.take(0)));
                assert(workspace_views(self.workspaces@) =~= before.workspaces.update(
                    idx as int,
                    offered(start, paths.take(0)),
                ));
            }
            while i < repos.len()
                invariant
                    i <= repos.len(),
                    idx < self.workspaces.len(),
                    idx == self.active_workspace_idx,
                    paths == texts(repos@),
                    start == before.workspaces[idx as int],
                    before.workspaces.len() == self.workspaces.len(),
                    workspace_views(self.workspaces@) == before.workspaces.update(
                        idx as int,
                        offered(start, paths.take(i as int)),
                    ),
                    texts(refresh@) == taken(start, paths.take(i as int)),
                    self@ == (StateView { workspaces: workspace_views(self.workspaces@), ..before }),
                decreases repos.len() - i,
            {
                let ghost views = workspace_views(self.workspaces@);
                let path = repos[i].clone();
                proof {
                    assert(paths[i as int] == path@);
                    assert(paths.take(i + 1).drop_last() =~= paths.take(i as int));
                    assert(paths.take(i + 1).last() == path@);
                    assert(views[idx as int] == offered(start, paths.take(i as int)));
                }
                let added = self.workspaces[idx].add_repository(repos[i].clone());
                proof {
                    let now = workspace_views(self.workspaces@);
                    assert(now.len() == views.len());
                    assert(now[idx as int] == views[idx as int].added(path@));
                    assert(offered(start, paths.take(i + 1)) == offered(
                        start,
                        paths.take(i as int),
                    ).added(path@));
                    assert forall|j: int| 0 <= j < now.len() && j != idx implies now[j]
                        == views[j] by {}
                    assert(workspace_views(self.workspaces@) =~= before.workspaces.update(
                        idx as int,
                        offered(start, paths.take(i + 1)),
                    ));
                }
                if added {
                    proof {
                        assert(texts(refresh@.push(path)) =~= texts(refresh@).push(path@));
                    }
                    refresh.push(path);
                }
                i += 1;
            }
            proof {
                assert(paths.take(i as int) =~= paths);
            }
        } else {
            proof {
                assert(texts(refresh@) =~= Seq::<Seq<char>>::empty());
            }
        }
        let count = refresh.len();
        let mut logs: Vec<LogNote> = Vec::new();
        if count > 0 {
            logs.push(LogNote::AddedRepos { count });
            proof {
                assert(note_views(logs@) =~= seq![LogNoteView::AddedRepos { count: count as nat }]);
                assert(texts(refresh@).len() == count);
            }
            Reaction {
                logs,
                status: Some(StatusNote::AddedRepos { count }),
                restart_timer: true,
                refresh,
                save_config: true,
            }
        } else {
            logs.push(LogNote::NoNewRepos);
            proof {
                assert(note_views(logs@) =~= seq![LogNoteView::NoNewRepos]);
                assert(texts(refresh@).len() == count);
            }
            Reaction {
                logs,
                status: Some(StatusNote::NoReposFound),
                restart_timer: true,
                refresh,
                save_config: false,
            }
        }
    }

    /// Takes one message: changes the state as the message says, and tells
    /// what is to be done in answer.
    pub fn apply(&mut self, message: AppMessage) -> (r: Reaction)
        ensures
            (final(self)@, r@) == old(self)@.applied(message@),
    {
        match message {
            AppMessage::Git(GitMessage::RepoStatusUpdated { repo_path, git_info }) => {
                self.status_arrived(repo_path, git_info)
            },
            AppMessage::Git(GitMessage::Error { repo_path, message }) => {
                self.failure_arrived(repo_path, message)
            },
            AppMessage::ReposFound { repos } => self.repos_found(repos),
            AppMessage::SearchComplete { total_found } => {
                self.is_searching = false;
                let logs: Vec<LogNote> = Vec::new();
                let refresh: Vec<String> = Vec::new();
                proof {
                    assert(note_views(logs@) =~= Seq::<LogNoteView>::empty());
                    assert(texts(refresh@) =~= Seq::<Seq<char>>::empty());
                }
                Reaction {
                    logs,
                    status: Some(StatusNote::FoundRepos { total: total_found }),
                    restart_timer: true,
                    refresh,
                    save_config: false,
                }
            },
        }
    }
}

proof fn lemma_offered_keeps_paths_unique(workspace: WorkspaceView, paths: Seq<Seq<char>>)
    requires
        workspace.well_formed(),
    ensures
        offered(workspace, paths).well_formed(),
    decreases paths.len(),
{
    if paths.len() > 0 {
        lemma_offered_keeps_paths_unique(workspace, paths.drop_last());
        let before = offered(workspace, paths.drop_last());
        let path = paths.last();
        if !before.has_path(path) {
            let after = before.added(path);
            assert forall|i: int, j: int| 0 <= i < j < after.repositories.len() implies after.repositories[i].path
                != after.repositories[j].path by {
                if j < before.repositories.len() {
                    assert(after.repositories[i] == before.repositories[i]);
                    assert(after.repositories[j] == before.repositories[j]);
                } else {
                    assert(after.repositories[i] == before.repositories[i]);
                }
            }
        }
    }
}

proof fn lemma_status_keeps_paths_unique(
    workspace: WorkspaceView,
    path: Seq<char>,
    git_info: GitInfoView,
)
    requires
        workspace.well_formed(),
    ensures
        workspace.with_status(path, git_info).well_formed(),
{
    workspace.paths().index_of_first_ensures(path);
    let after = workspace.with_status(path, git_info);
    assert forall|i: int, j: int| 0 <= i < j < after.repositories.len() implies after.repositories[i].path
        != after.repositories[j].path by {
        assert(after.repositories[i].path == workspace.repositories[i].path);
        assert(after.repositories[j].path == workspace.repositories[j].path);
    }
}

/// No message makes a workspace hold a path twice: where no workspace did
/// before a message was taken, none does after.
pub proof fn law_paths_stay_unique(state: StateView, message: AppMessageView)
    requires
        state.well_formed(),
    ensures
        state.applied(message).0.well_formed(),
{
    let after = state.applied(message).0;
    match message {
        AppMessageView::Git(GitMessageView::RepoStatusUpdated { repo_path, git_info }) => {
            let k = first_holder(state.workspaces, repo_path);
            if 0 <= k < state.workspaces.len() {
                lemma_status_keeps_paths_unique(state.workspaces[k], repo_path, git_info);
            }
            assert forall|i: int| 0 <= i < after.workspaces.len() implies (
            #[trigger] after.workspaces[i]).well_formed() by {
                if i != k {
                    assert(after.workspaces[i] == state.workspaces[i]);
                }
            }
        },
        AppMessageView::Git(GitMessageView::Error { .. }) => {
            assert(after.workspaces == state.workspaces);
        },
        AppMessageView::ReposFound { repos } => {
            let idx = state.active_workspace_idx as int;
            if idx < state.workspaces.len() {
                lemma_offered_keeps_paths_unique(state.workspaces[idx], repos);
            }
            assert forall|i: int| 0 <= i < after.workspaces.len() implies (
            #[trigger] after.workspaces[i]).well_formed() by {
                if i != idx {
                    assert(after.workspaces[i] == state.workspaces[i]);
                }
            }
        },
        AppMessageView::SearchComplete { .. } => {},
    }
}

} // verus!
