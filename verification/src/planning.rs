//! What the owner of the state starts on its own account: the queries for a
//! workspace that is shown for the first time, and the fetches of a whole
//! workspace, spread over time.

use vstd::prelude::*;
use crate::reconcile::{capped, workspace_views, StateReconciler, StateView};
use crate::digits::{decimal, decimal_string};
use crate::paths::{display_name, file_name};
use crate::pathset::PathSet;
use crate::text::texts;
use crate::workspace::{RepositoryStateView, Workspace, WorkspaceView};

verus! {

/// The time between the starts of two fetches of one workspace, in
/// milliseconds.
pub const FETCH_STAGGER_MS: u64 = 200;

/// A fetch to start, and how long to wait before starting it.
#[derive(Debug)]
pub struct PlannedFetch {
    pub repo_path: String,
    pub delay_ms: u64,
}

/// The paths of all repositories of all the workspaces, workspace by
/// workspace.
pub open spec fn every_path(workspaces: Seq<WorkspaceView>) -> Seq<Seq<char>>
    decreases workspaces.len(),
{
    if workspaces.len() == 0 {
        Seq::empty()
    } else {
        every_path(workspaces.drop_last()) + workspaces.last().paths()
    }
}

/// How long the fetch in position `index` of a workspace waits: so many
/// times the stagger, or the longest wait there is where that is less.
pub open spec fn stagger(index: nat) -> u64 {
    if index * FETCH_STAGGER_MS <= u64::MAX {
        (index * FETCH_STAGGER_MS) as u64
    } else {
        u64::MAX
    }
}

/// `n` more than `pending`, or the largest number there is where that is
/// less.
pub open spec fn raised(pending: nat, n: nat) -> nat {
    capped(pending + n) as nat
}

impl StateView {
    /// The workspace that is shown, if the position names one.
    pub open spec fn active(self) -> Option<WorkspaceView> {
        if self.active_workspace_idx < self.workspaces.len() {
            Some(self.workspaces[self.active_workspace_idx as int])
        } else {
            None
        }
    }

    /// The state after the workspace in position `index` was asked to load:
    /// one that was not loaded yet is marked as loaded, and as many queries
    /// more are awaited as it holds repositories.
    pub open spec fn loaded(self, index: int) -> StateView {
        if 0 <= index < self.workspaces.len() && !self.workspaces[index].is_loaded {
            StateView {
                workspaces: self.workspaces.update(
                    index,
                    WorkspaceView { is_loaded: true, ..self.workspaces[index] },
                ),
                pending_git_loads: raised(
                    self.pending_git_loads,
                    self.workspaces[index].repositories.len(),
                ),
                ..self
            }
        } else {
            self
        }
    }

    /// The repositories to query when the workspace in position `index` is
    /// asked to load: all of one that was not loaded yet.
    pub open spec fn to_load(self, index: int) -> Seq<Seq<char>> {
        if 0 <= index < self.workspaces.len() && !self.workspaces[index].is_loaded {
            self.workspaces[index].paths()
        } else {
            Seq::empty()
        }
    }
}

/// The paths of the workspace's repositories, in order.
pub fn paths_of(workspace: &Workspace) -> (r: Vec<String>)
    ensures
        texts(r@) == workspace@.paths(),
{
    let mut r: Vec<String> = Vec::new();
    let mut i: usize = 0;
    while i < workspace.repositories.len()
        invariant
            i <= workspace.repositories.len(),
            texts(r@) == workspace@.paths().take(i as int),
        decreases workspace.repositories.len() - i,
    {
        let path = workspace.repositories[i].path.clone();
        proof {
            assert(workspace@.paths()[i as int] == path@);
            assert(texts(r@.push(path)) =~= texts(r@).push(path@));
            assert(workspace@.paths().take(i as int).push(path@) =~= workspace@.paths().take(
                i + 1,
            ));
        }
        r.push(path);
        i += 1;
    }
    proof {
        assert(workspace@.paths().take(i as int) =~= workspace@.paths());
    }
    r
}

impl StateReconciler {
    /// Asks the workspace in position `index` to load, and gives the
    /// repositories whose status is to be queried: all of a workspace that
    /// was not loaded yet, none of one that was, and none where the position
    /// names no workspace.
    pub fn load_workspace(&mut self, index: usize) -> (r: Vec<String>)
        ensures
            final(self)@ == old(self)@.loaded(index as int),
            texts(r@) == old(self)@.to_load(index as int),
    {
        if index >= self.workspaces.len() || self.workspaces[index].is_loaded {
            let r: Vec<String> = Vec::new();
            proof {
                assert(texts(r@) =~= Seq::<Seq<char>>::empty());
            }
            return r;
        }
        let ghost before = workspace_views(self.workspaces@);
        let r = paths_of(&self.workspaces[index]);
        let n = self.workspaces[index].repository_count();
        self.pending_git_loads = if self.pending_git_loads <= usize::MAX - n {
            self.pending_git_loads + n
        } else {
            usize::MAX
        };
        self.workspaces[index].mark_as_loaded();
        proof {
            assert(workspace_views(self.workspaces@) =~= before.update(
                index as int,
                WorkspaceView { is_loaded: true, ..before[index as int] },
            ));
        }
        r
    }

    /// Shows the workspace in position `index` and asks it to load. Gives
    /// the repositories whose status is to be queried; nothing, and no
    /// change, where the position names no workspace. After a switch the
    /// workspaces are to be written to disk.
    pub fn switch_to_workspace(&mut self, index: usize) -> (r: Option<Vec<String>>)
        ensures
            r is Some <==> index < old(self).workspaces.len(),
            r is None ==> final(self)@ == old(self)@,
            r matches Some(paths) ==> texts(paths@) == old(self)@.to_load(index as int)
                && final(self)@ == (StateView {
                active_workspace_idx: index as nat,
                ..old(self)@.loaded(index as int)
            }),
    {
        if index >= self.workspaces.len() {
            return None;
        }
        self.active_workspace_idx = index;
        Some(self.load_workspace(index))
    }

    /// The repositories of the workspace that is shown: those whose status a
    /// refresh of the workspace queries.
    pub fn refresh_all_repos(&self) -> (r: Vec<String>)
        ensures
            texts(r@) == match self@.active() {
                Some(workspace) => workspace.paths(),
                None => Seq::empty(),
            },
    {
        if self.active_workspace_idx < self.workspaces.len() {
            paths_of(&self.workspaces[self.active_workspace_idx])
        } else {
            let r: Vec<String> = Vec::new();
            proof {
                assert(texts(r@) =~= Seq::<Seq<char>>::empty());
            }
            r
        }
    }

    /// The repositories of all workspaces, whose status is queried at the
    /// start of the program. Where there are any, their answers are counted
    /// from none on.
    pub fn refresh_all_loaded_repos(&mut self) -> (r: Vec<String>)
        ensures
            texts(r@) == every_path(old(self)@.workspaces),
            r.len() == 0 ==> final(self)@ == old(self)@,
            r.len() > 0 ==> final(self)@ == (StateView {
                is_loading_on_startup: true,
                startup_loaded_repos: 0,
                ..old(self)@
            }),
    {
        let ghost all = workspace_views(self.workspaces@);
        let mut r: Vec<String> = Vec::new();
        let mut i: usize = 0;
        proof {
            assert(all.take(0) =~= Seq::<WorkspaceView>::empty());
            assert(texts(r@) =~= every_path(all.take(0)));
        }
        while i < self.workspaces.len()
            invariant
                i <= self.workspaces.len(),
                all == workspace_views(self.workspaces@),
                texts(r@) == every_path(all.take(i as int)),
            decreases self.workspaces.len() - i,
        {
            let mut paths = paths_of(&self.workspaces[i]);
            proof {
                assert(all.take(i + 1).drop_last() =~= all.take(i as int));
                assert(all.take(i + 1).last() == self.workspaces@[i as int]@);
                assert(texts(r@ + paths@) =~= texts(r@) + texts(paths@));
            }
            r.append(&mut paths);
            i += 1;
        }
        proof {
            assert(all.take(i as int) =~= all);
        }
        if r.len() > 0 {
            self.is_loading_on_startup = true;
            self.startup_loaded_repos = 0;
        }
        r
    }

    /// The fetches of the workspace that is shown, one for each repository
    /// in order, each starting a stagger later than the one before. Every
    /// repository of the workspace counts as busy from now on.
    pub fn fetch_all(&mut self) -> (r: Vec<PlannedFetch>)
        ensures
            final(self)@ == (StateView {
                syncing_repos: final(self)@.syncing_repos,
                ..old(self)@
            }),
            match old(self)@.active() {
                Some(workspace) => {
                    &&& r.len() == workspace.repositories.len()
                    &&& forall|i: int|
                        0 <= i < r.len() ==> (#[trigger] r[i]).repo_path@ == workspace.paths()[i]
                            && r[i].delay_ms == stagger(i as nat)
                    &&& final(self)@.syncing_repos == old(self)@.syncing_repos.union(
                        workspace.paths().to_set(),
                    )
                },
                None => r.len() == 0 && final(self)@.syncing_repos == old(self)@.syncing_repos,
            },
    {
        let mut r: Vec<PlannedFetch> = Vec::new();
        if self.active_workspace_idx >= self.workspaces.len() {
            return r;
        }
        let paths = paths_of(&self.workspaces[self.active_workspace_idx]);
        let ghost workspace = self.workspaces@[self.active_workspace_idx as int]@;
        let ghost before = self@;
        let mut i: usize = 0;
        proof {
            assert(workspace.paths().take(0).to_set() =~= Set::<Seq<char>>::empty());
            assert(before.syncing_repos.union(Set::<Seq<char>>::empty()) =~= before.syncing_repos);
        }
        while i < paths.len()
            invariant
                i <= paths.len(),
                texts(paths@) == workspace.paths(),
                r.len() == i,
                self@ == (StateView { syncing_repos: self@.syncing_repos, ..before }),
                forall|k: int|
                    0 <= k < i ==> (#[trigger] r[k]).repo_path@ == workspace.paths()[k]
                        && r[k].delay_ms == stagger(k as nat),
                self@.syncing_repos == before.syncing_repos.union(
                    workspace.paths().take(i as int).to_set(),
                ),
            decreases paths.len() - i,
        {
            let path = paths[i].clone();
            proof {
                assert(workspace.paths()[i as int] == path@);
            }
            let _ = self.syncing_repos.insert(paths[i].clone());
            let delay_ms: u64 = if (i as u64) <= u64::MAX / FETCH_STAGGER_MS {
                (i as u64) * FETCH_STAGGER_MS
            } else {
                u64::MAX
            };
            proof {
                let shorter = workspace.paths().take(i as int);
                shorter.lemma_push_to_set_commute(path@);
                assert(shorter.push(path@) =~= workspace.paths().take(i + 1));
                assert(before.syncing_repos.union(shorter.to_set()).insert(path@)
                    =~= before.syncing_repos.union(shorter.to_set().insert(path@)));
            }
            r.push(PlannedFetch { repo_path: path, delay_ms });
            i += 1;
        }
        proof {
            assert(workspace.paths().take(i as int) =~= workspace.paths());
        }
        r
    }
}

/// The repositories with the name of each taken from its path.
pub open spec fn renamed(repos: Seq<RepositoryStateView>) -> Seq<RepositoryStateView> {
    Seq::new(
        repos.len(),
        |i: int| RepositoryStateView { name: file_name(repos[i].path), ..repos[i] },
    )
}

/// The workspaces with the name of each repository taken from its path.
pub open spec fn restored(workspaces: Seq<WorkspaceView>) -> Seq<WorkspaceView> {
    Seq::new(
        workspaces.len(),
        |i: int| WorkspaceView { repositories: renamed(workspaces[i].repositories), ..workspaces[i] },
    )
}

/// The name that a new workspace gets where `count` workspaces exist: it
/// bears the next number, or the largest number there is.
pub open spec fn new_workspace_name(count: nat) -> Seq<char> {
    "Workspace "@ + decimal(
        if count + 1 <= u64::MAX {
            count + 1
        } else {
            u64::MAX as nat
        },
    )
}

/// Gives each repository of the workspace the name that its path ends in.
pub fn restore_names(workspace: &mut Workspace)
    ensures
        final(workspace)@ == (WorkspaceView {
            repositories: renamed(old(workspace)@.repositories),
            ..old(workspace)@
        }),
{
    let ghost before = workspace@.repositories;
    let mut i: usize = 0;
    while i < workspace.repositories.len()
        invariant
            i <= workspace.repositories.len(),
            workspace.repositories@.len() == before.len(),
            workspace.name == old(workspace).name,
            workspace.is_loaded == old(workspace).is_loaded,
            forall|j: int| 0 <= j < i ==> (#[trigger] workspace@.repositories[j]) == renamed(before)[j],
            forall|j: int| i <= j < before.len() ==> (#[trigger] workspace@.repositories[j]) == before[j],
        decreases workspace.repositories.len() - i,
    {
        let ghost views = workspace@.repositories;
        let name = display_name(workspace.repositories[i].path.as_str());
        assert(views[i as int] == before[i as int]);
        workspace.repositories[i].name = name;
        proof {
            assert forall|j: int| 0 <= j < i + 1 implies (#[trigger] workspace@.repositories[j])
                == renamed(before)[j] by {
                if j < i {
                    assert(views[j] == renamed(before)[j]);
                }
            }
            assert forall|j: int| i + 1 <= j < before.len() implies (
            #[trigger] workspace@.repositories[j]) == before[j] by {
                assert(views[j] == before[j]);
            }
        }
        i += 1;
    }
    proof {
        assert(workspace@.repositories =~= renamed(before));
    }
}

impl StateReconciler {
    /// The state at the start of the program, from what was read from disk:
    /// the workspaces, with the name of each repository taken from its path,
    /// and the workspace that was shown last, if the position still names
    /// one; the first workspace else.
    pub fn restore(workspaces: Vec<Workspace>, last_active: Option<usize>) -> (r: StateReconciler)
        ensures
            r@ == (StateView {
                workspaces: restored(workspace_views(workspaces@)),
                active_workspace_idx: match last_active {
                    Some(index) if index < workspaces@.len() => index as nat,
                    _ => 0,
                },
                syncing_repos: Set::empty(),
                error_repos: Set::empty(),
                pending_git_loads: 0,
                is_loading_on_startup: false,
                startup_loaded_repos: 0,
                is_searching: false,
            }),
    {
        let ghost before = workspace_views(workspaces@);
        let mut workspaces = workspaces;
        let mut i: usize = 0;
        while i < workspaces.len()
            invariant
                i <= workspaces.len(),
                workspaces@.len() == before.len(),
                forall|j: int|
                    0 <= j < i ==> (#[trigger] workspace_views(workspaces@)[j]) == restored(
                        before,
                    )[j],
                forall|j: int|
                    i <= j < before.len() ==> (#[trigger] workspace_views(workspaces@)[j])
                        == before[j],
            decreases workspaces.len() - i,
        {
            let ghost views = workspace_views(workspaces@);
            assert(views[i as int] == before[i as int]);
            restore_names(&mut workspaces[i]);
            proof {
                let now = workspace_views(workspaces@);
                assert forall|j: int| 0 <= j < i + 1 implies (#[trigger] now[j]) == restored(
                    before,
                )[j] by {
                    if j < i {
                        assert(views[j] == restored(before)[j]);
                    }
                }
                assert forall|j: int| i + 1 <= j < before.len() implies (#[trigger] now[j])
                    == before[j] by {
                    assert(views[j] == before[j]);
                }
            }
            i += 1;
        }
        proof {
            assert(workspace_views(workspaces@) =~= restored(before));
        }
        let active_workspace_idx = match last_active {
            Some(index) => if index < workspaces.len() {
                index
            } else {
                0
            },
            None => 0,
        };
        StateReconciler {
            workspaces,
            active_workspace_idx,
            syncing_repos: PathSet::new(),
            error_repos: PathSet::new(),
            pending_git_loads: 0,
            is_loading_on_startup: false,
            startup_loaded_repos: 0,
            is_searching: false,
        }
    }

    /// Adds an empty workspace, named after its number, at the end.
    pub fn add_workspace(&mut self)
        ensures
            final(self)@ == (StateView {
                workspaces: old(self)@.workspaces.push(
                    WorkspaceView {
                        name: new_workspace_name(old(self)@.workspaces.len()),
                        repositories: Seq::empty(),
                        is_loaded: false,
                    },
                ),
                ..old(self)@
            }),
    {
        let count = self.workspaces.len();
        let number: u64 = if (count as u64) < u64::MAX {
            count as u64 + 1
        } else {
            u64::MAX
        };
        let name = "Workspace ".to_owned().concat(decimal_string(number).as_str());
        let workspace = Workspace::new(name.as_str());
        proof {
            assert(workspace_views(self.workspaces@.push(workspace)) =~= workspace_views(
                self.workspaces@,
            ).push(workspace@));
        }
        self.workspaces.push(workspace);
    }

    /// Takes the workspace in position `index` away, if there is one, and
    /// shows the last workspace where the one shown is past the end.
    pub fn remove_workspace(&mut self, index: usize) -> (r: Option<Workspace>)
        ensures
            r is Some <==> index < old(self).workspaces@.len(),
            r is None ==> final(self)@ == old(self)@,
            r matches Some(workspace) ==> workspace@ == old(self)@.workspaces[index as int]
                && final(self)@ == (StateView {
                workspaces: old(self)@.workspaces.remove(index as int),
                active_workspace_idx: if old(self)@.active_workspace_idx + 1 >= old(
                    self,
                )@.workspaces.len() {
                    if old(self)@.workspaces.len() >= 2 {
                        (old(self)@.workspaces.len() - 2) as nat
                    } else {
                        0
                    }
                } else {
                    old(self)@.active_workspace_idx
                },
                ..old(self)@
            }),
    {
        if index >= self.workspaces.len() {
            return None;
        }
        proof {
            assert(workspace_views(self.workspaces@.remove(index as int)) =~= workspace_views(
                self.workspaces@,
            ).remove(index as int));
        }
        let workspace = self.workspaces.remove(index);
        if self.active_workspace_idx >= self.workspaces.len() {
            self.active_workspace_idx = if self.workspaces.len() > 0 {
                self.workspaces.len() - 1
            } else {
                0
            };
        }
        Some(workspace)
    }
}

} // verus!
