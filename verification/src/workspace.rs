//! Workspaces: named lists of repositories, no path twice in one.

use vstd::prelude::*;
use crate::paths::{display_name, file_name};
use crate::status::{GitInfo, GitInfoView};

verus! {

/// A repository as the workspace keeps it.
#[derive(Debug)]
pub struct RepositoryState {
    /// Where the repository lies; what it is known by within a workspace.
    pub path: String,
    /// The name shown for it: the last segment of its path.
    pub name: String,
    /// Its last known status.
    pub git_info: GitInfo,
}

/// A `RepositoryState` with its texts as character sequences.
pub struct RepositoryStateView {
    pub path: Seq<char>,
    pub name: Seq<char>,
    pub git_info: GitInfoView,
}

impl RepositoryStateView {
    /// A repository that has not been queried yet.
    pub open spec fn fresh(path: Seq<char>) -> RepositoryStateView {
        RepositoryStateView { path, name: file_name(path), git_info: GitInfoView::empty() }
    }
}

impl View for RepositoryState {
    type V = RepositoryStateView;

    open spec fn view(&self) -> RepositoryStateView {
        RepositoryStateView { path: self.path@, name: self.name@, git_info: self.git_info@ }
    }
}

impl Default for RepositoryState {
    fn default() -> (r: RepositoryState)
        ensures
            r@ == (RepositoryStateView {
                path: Seq::empty(),
                name: Seq::empty(),
                git_info: GitInfoView::empty(),
            }),
    {
        RepositoryState { path: String::new(), name: String::new(), git_info: GitInfo::default() }
    }
}

impl Clone for RepositoryState {
    fn clone(&self) -> (r: RepositoryState)
        ensures
            r@ == self@,
    {
        RepositoryState {
            path: self.path.clone(),
            name: self.name.clone(),
            git_info: self.git_info.clone(),
        }
    }
}

impl RepositoryState {
    /// The repository at `path`, not queried yet.
    pub fn new(path: String) -> (r: RepositoryState)
        ensures
            r@ == RepositoryStateView::fresh(path@),
    {
        let name = display_name(path.as_str());
        RepositoryState { path, name, git_info: GitInfo::default() }
    }

    /// Replaces the status by a newer one.
    pub fn update_git_info(&mut self, git_info: GitInfo)
        ensures
            final(self)@ == (RepositoryStateView { git_info: git_info@, ..old(self)@ }),
    {
        self.git_info = git_info;
    }
}

/// A named list of repositories.
#[derive(Debug)]
pub struct Workspace {
    pub name: String,
    pub repositories: Vec<RepositoryState>,
    /// Whether the status of its repositories was asked for since the
    /// program started.
    pub is_loaded: bool,
}

/// A `Workspace` with its texts as character sequences.
pub struct WorkspaceView {
    pub name: Seq<char>,
    pub repositories: Seq<RepositoryStateView>,
    pub is_loaded: bool,
}

/// The views of a list of repositories.
pub open spec fn repository_views(v: Seq<RepositoryState>) -> Seq<RepositoryStateView> {
    Seq::new(v.len(), |i: int| v[i]@)
}

impl View for Workspace {
    type V = WorkspaceView;

    open spec fn view(&self) -> WorkspaceView {
        WorkspaceView {
            name: self.name@,
            repositories: repository_views(self.repositories@),
            is_loaded: self.is_loaded,
        }
    }
}

impl WorkspaceView {
    /// No two repositories of the workspace share a path.
    pub open spec fn well_formed(self) -> bool {
        forall|i: int, j: int|
            0 <= i < j < self.repositories.len() ==> self.repositories[i].path
                != self.repositories[j].path
    }

    /// The workspace holds a repository at `path`.
    pub open spec fn has_path(self, path: Seq<char>) -> bool {
        exists|i: int| 0 <= i < self.repositories.len() && self.repositories[i].path == path
    }

    /// The paths of the repositories, in order.
    pub open spec fn paths(self) -> Seq<Seq<char>> {
        Seq::new(self.repositories.len(), |i: int| self.repositories[i].path)
    }

    /// The workspace with `git_info` as the status of its first repository
    /// at `path`; itself where it holds none there.
    pub open spec fn with_status(self, path: Seq<char>, git_info: GitInfoView) -> WorkspaceView {
        match self.paths().index_of_first(path) {
            Some(i) => WorkspaceView {
                repositories: self.repositories.update(
                    i,
                    RepositoryStateView { git_info, ..self.repositories[i] },
                ),
                ..self
            },
            None => self,
        }
    }

    /// The workspace after `path` was offered to it: with a repository at
    /// `path` at its end, not queried yet, unless it held one already.
    pub open spec fn added(self, path: Seq<char>) -> WorkspaceView {
        if self.has_path(path) {
            self
        } else {
            WorkspaceView {
                repositories: self.repositories.push(RepositoryStateView::fresh(path)),
                ..self
            }
        }
    }

    /// The workspace without the repository in position `index`; itself
    /// where it has none there.
    pub open spec fn removed(self, index: int) -> WorkspaceView {
        if 0 <= index < self.repositories.len() {
            WorkspaceView { repositories: self.repositories.remove(index), ..self }
        } else {
            self
        }
    }
}

impl Default for Workspace {
    fn default() -> (r: Workspace)
        ensures
            r@ == (WorkspaceView {
                name: Seq::empty(),
                repositories: Seq::empty(),
                is_loaded: false,
            }),
            r@.well_formed(),
    {
        let r = Workspace { name: String::new(), repositories: Vec::new(), is_loaded: false };
        assert(repository_views(r.repositories@) =~= Seq::<RepositoryStateView>::empty());
        r
    }
}

impl Clone for Workspace {
    fn clone(&self) -> (r: Workspace)
        ensures
            r@ == self@,
    {
        let mut repositories: Vec<RepositoryState> = Vec::new();
        let mut i: usize = 0;
        while i < self.repositories.len()
            invariant
                i <= self.repositories.len(),
                repository_views(repositories@) == repository_views(self.repositories@).take(
                    i as int,
                ),
            decreases self.repositories.len() - i,
        {
            let repo = self.repositories[i].clone();
            proof {
                assert(repository_views(self.repositories@)[i as int] == repo@);
                assert(repository_views(repositories@.push(repo)) =~= repository_views(
                    repositories@,
                ).push(repo@));
                assert(repository_views(self.repositories@).take(i as int).push(repo@)
                    =~= repository_views(self.repositories@).take(i + 1));
            }
            repositories.push(repo);
            i += 1;
        }
        proof {
            assert(repository_views(self.repositories@).take(i as int) =~= repository_views(
                self.repositories@,
            ));
        }
        Workspace { name: self.name.clone(), repositories, is_loaded: self.is_loaded }
    }
}

impl Workspace {
    /// An empty workspace called `name`.
    pub fn new(name: &str) -> (r: Workspace)
        ensures
            r@ == (WorkspaceView {
                name: name@,
                repositories: Seq::empty(),
                is_loaded: false,
            }),
            r@.well_formed(),
    {
        let r = Workspace { name: name.to_owned(), repositories: Vec::new(), is_loaded: false };
        assert(repository_views(r.repositories@) =~= Seq::<RepositoryStateView>::empty());
        r
    }

    /// The position of the first repository at `path`, or the number of
    /// repositories if there is none.
    pub fn position_of(&self, path: &String) -> (r: usize)
        ensures
            r <= self.repositories.len(),
            r < self.repositories.len() <==> self@.has_path(path@),
            r < self.repositories.len() ==> self@.paths().index_of_first(path@) == Some(r as int),
            r == self.repositories.len() ==> self@.paths().index_of_first(path@) is None,
    {
        proof {
            self@.paths().index_of_first_ensures(path@);
        }
        let mut i: usize = 0;
        while i < self.repositories.len()
            invariant
                i <= self.repositories.len(),
                forall|j: int| 0 <= j < i ==> self@.paths()[j] != path@,
            decreases self.repositories.len() - i,
        {
            if self.repositories[i].path == *path {
                proof {
                    assert(self@.repositories[i as int].path == path@);
                    assert(self@.paths()[i as int] == path@);
                    assert(self@.paths().contains(path@));
                    self@.paths().index_of_first_ensures(path@);
                }
                return i;
            }
            assert(self@.paths()[i as int] != path@);
            i += 1;
        }
        proof {
            assert forall|j: int| 0 <= j < self@.repositories.len() implies self@.repositories[j].path
                != path@ by {
                assert(self@.paths()[j] != path@);
            }
            self@.paths().index_of_first_ensures(path@);
        }
        i
    }

    /// Adds the repository at `repo_path` unless the workspace holds it
    /// already, and says whether it did.
    pub fn add_repository(&mut self, repo_path: String) -> (added: bool)
        ensures
            added == !old(self)@.has_path(repo_path@),
            final(self)@ == old(self)@.added(repo_path@),
            old(self)@.well_formed() ==> final(self)@.well_formed(),
    {
        if self.position_of(&repo_path) < self.repositories.len() {
            return false;
        }
        let repo = RepositoryState::new(repo_path);
        proof {
            assert(repository_views(self.repositories@.push(repo)) =~= repository_views(
                self.repositories@,
            ).push(repo@));
        }
        self.repositories.push(repo);
        true
    }

    /// Takes the repository in position `index` out of the workspace, if
    /// there is one.
    pub fn remove_repository(&mut self, index: usize) -> (r: Option<RepositoryState>)
        ensures
            final(self)@ == old(self)@.removed(index as int),
            r is Some <==> index < old(self).repositories.len(),
            r matches Some(repo) ==> repo@ == old(self)@.repositories[index as int],
            old(self)@.well_formed() ==> final(self)@.well_formed(),
    {
        if index < self.repositories.len() {
            proof {
                assert(repository_views(self.repositories@.remove(index as int))
                    =~= repository_views(self.repositories@).remove(index as int));
            }
            let repo = self.repositories.remove(index);
            Some(repo)
        } else {
            None
        }
    }

    /// The first repository at `path`, to be changed in place.
    pub fn find_repository_mut(&mut self, path: &String) -> (r: Option<&mut RepositoryState>)
        ensures
            r is Some <==> old(self)@.has_path(path@),
            r is None ==> *final(self) == *old(self),
            r matches Some(repo) ==> ({
                let i = old(self)@.paths().index_of_first(path@).unwrap();
                &&& 0 <= i < old(self).repositories.len()
                &&& old(self).repositories[i] == *repo
                &&& repo.path@ == path@
                &&& final(self).repositories@ == old(self).repositories@.update(i, *final(repo))
                &&& final(self).name == old(self).name
                &&& final(self).is_loaded == old(self).is_loaded
            }),
    {
        let i = self.position_of(path);
        if i < self.repositories.len() {
            proof {
                self@.paths().index_of_first_ensures(path@);
                assert(self@.paths()[i as int] == self.repositories[i as int].path@);
            }
            Some(&mut self.repositories[i])
        } else {
            None
        }
    }

    /// Takes `git_info` as the status of the first repository at `path`, and
    /// says whether there is one.
    pub fn record_status(&mut self, path: &String, git_info: GitInfo) -> (r: bool)
        ensures
            r == old(self)@.has_path(path@),
            final(self)@ == old(self)@.with_status(path@, git_info@),
            final(self)@.repositories.len() == old(self)@.repositories.len(),
            old(self)@.well_formed() ==> final(self)@.well_formed(),
    {
        let ghost before = self@;
        proof {
            before.paths().index_of_first_ensures(path@);
            if before.has_path(path@) {
                let i = choose|i: int|
                    0 <= i < before.repositories.len() && before.repositories[i].path == path@;
                assert(before.paths()[i] == path@);
                assert(before.paths().contains(path@));
            }
            if before.paths().contains(path@) {
                let i = choose|i: int| 0 <= i < before.paths().len() && before.paths()[i] == path@;
                assert(before.repositories[i].path == path@);
            }
        }
        match self.find_repository_mut(path) {
            Some(repo) => {
                repo.update_git_info(git_info);
                proof {
                    let i = before.paths().index_of_first(path@).unwrap();
                    assert(self@.repositories =~= before.repositories.update(
                        i,
                        RepositoryStateView { git_info: git_info@, ..before.repositories[i] },
                    ));
                }
                true
            },
            None => false,
        }
    }

    /// How many repositories the workspace holds.
    pub fn repository_count(&self) -> (r: usize)
        ensures
            r == self@.repositories.len(),
    {
        self.repositories.len()
    }

    /// Whether the workspace holds no repository.
    pub fn is_empty(&self) -> (r: bool)
        ensures
            r == (self@.repositories.len() == 0),
    {
        self.repositories.len() == 0
    }

    /// Notes that the status of the repositories was asked for.
    pub fn mark_as_loaded(&mut self)
        ensures
            final(self)@ == (WorkspaceView { is_loaded: true, ..old(self)@ }),
    {
        self.is_loaded = true;
    }

    /// Notes that the status of the repositories is to be asked for again.
    pub fn mark_as_unloaded(&mut self)
        ensures
            final(self)@ == (WorkspaceView { is_loaded: false, ..old(self)@ }),
    {
        self.is_loaded = false;
    }
}

/// Offering a workspace a path that it holds changes nothing; and once a
/// repository is taken out, its path can be added again.
pub proof fn law_paths_are_unique(workspace: WorkspaceView, index: int)
    requires
        workspace.well_formed(),
        0 <= index < workspace.repositories.len(),
    ensures
        workspace.added(workspace.repositories[index].path) == workspace,
        !workspace.removed(index).has_path(workspace.repositories[index].path),
        workspace.removed(index).added(workspace.repositories[index].path).repositories.len()
            == workspace.repositories.len(),
        workspace.removed(index).added(workspace.repositories[index].path).well_formed(),
{
    let path = workspace.repositories[index].path;
    let rest = workspace.removed(index);
    assert forall|i: int| 0 <= i < rest.repositories.len() implies rest.repositories[i].path
        != path by {
        if i < index {
            assert(rest.repositories[i] == workspace.repositories[i]);
        } else {
            assert(rest.repositories[i] == workspace.repositories[i + 1]);
        }
    }
    assert forall|i: int, j: int| 0 <= i < j < rest.repositories.len() implies rest.repositories[i].path
        != rest.repositories[j].path by {
        let a = if i < index { i } else { i + 1 };
        let b = if j < index { j } else { j + 1 };
        assert(rest.repositories[i] == workspace.repositories[a]);
        assert(rest.repositories[j] == workspace.repositories[b]);
    }
}

} // verus!
