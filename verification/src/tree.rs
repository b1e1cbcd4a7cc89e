//! The repositories of a workspace as a tree of the directories that hold
//! them.

use vstd::prelude::*;
use crate::paths::{components, normal_components};
use crate::search::{child_path, join_path};
use crate::sorting::{in_order, names_of, sort_tree_node};
use crate::text::{contains, str_contains, texts};
use crate::workspace::{repository_views, RepositoryState, RepositoryStateView};

verus! {

/// A directory of the tree.
#[derive(Debug)]
pub struct TreeNode {
    /// The directory's own name.
    pub name: String,
    /// The names from the top of the tree down to this directory, parted by
    /// `/`.
    pub path: String,
    /// The directories within it.
    pub children: Vec<TreeNode>,
    /// The repositories that lie in it: each with its position in the
    /// workspace and its path.
    pub repositories: Vec<(usize, String)>,
    /// Whether the directory is shown open.
    pub is_expanded: bool,
}

/// A `TreeNode` with its texts as character sequences.
pub struct TreeView {
    pub name: Seq<char>,
    pub path: Seq<char>,
    pub children: Seq<TreeView>,
    pub repositories: Seq<(nat, Seq<char>)>,
    pub is_expanded: bool,
}

/// The repositories of a directory as numbers and texts.
pub open spec fn entries_view(v: Seq<(usize, String)>) -> Seq<(nat, Seq<char>)> {
    Seq::new(v.len(), |i: int| (v[i].0 as nat, v[i].1@))
}

/// The view of a directory with all that lies beneath it.
pub open spec fn tree_view(node: TreeNode) -> TreeView
    decreases node, node.children@.len() + 1,
{
    TreeView {
        name: node.name@,
        path: node.path@,
        children: forest_view(node, node.children@.len()),
        repositories: entries_view(node.repositories@),
        is_expanded: node.is_expanded,
    }
}

/// The views of the first `n` directories within `node`.
pub open spec fn forest_view(node: TreeNode, n: nat) -> Seq<TreeView>
    decreases node, n,
{
    if n == 0 || n > node.children@.len() {
        Seq::empty()
    } else {
        forest_view(node, (n - 1) as nat).push(tree_view(node.children@[n - 1]))
    }
}

impl View for TreeNode {
    type V = TreeView;

    open spec fn view(&self) -> TreeView {
        tree_view(*self)
    }
}

/// The views of a list of directories.
pub open spec fn views_of(nodes: Seq<TreeNode>) -> Seq<TreeView> {
    Seq::new(nodes.len(), |i: int| tree_view(nodes[i]))
}

/// The views of the first `n` directories are those of the first `n` members.
pub(crate) proof fn lemma_forest_view(node: TreeNode, n: nat)
    requires
        n <= node.children@.len(),
    ensures
        forest_view(node, n) == views_of(node.children@.take(n as int)),
    decreases n,
{
    if n > 0 {
        lemma_forest_view(node, (n - 1) as nat);
        assert(views_of(node.children@.take(n - 1)).push(tree_view(node.children@[n - 1]))
            =~= views_of(node.children@.take(n as int)));
    } else {
        assert(views_of(node.children@.take(0)) =~= Seq::<TreeView>::empty());
    }
}

/// The view of a directory holds the views of the directories within it.
pub(crate) proof fn lemma_children_view(node: TreeNode)
    ensures
        node@.children == views_of(node.children@),
{
    lemma_forest_view(node, node.children@.len());
    assert(node.children@.take(node.children@.len() as int) =~= node.children@);
}

impl TreeView {
    /// A directory that holds nothing, shown open.
    pub open spec fn leaf(name: Seq<char>, path: Seq<char>) -> TreeView {
        TreeView {
            name,
            path,
            children: Seq::empty(),
            repositories: Seq::empty(),
            is_expanded: true,
        }
    }

    /// The position of the first directory called `name` within this one,
    /// or the number of directories within it if none is called so.
    pub open spec fn child_position(self, name: Seq<char>) -> int
        decreases self.children.len(),
    {
        if self.children.len() == 0 || self.children[0].name == name {
            0
        } else {
            1 + (TreeView { children: self.children.drop_first(), ..self }).child_position(name)
        }
    }
}

proof fn lemma_child_position(tree: TreeView, name: Seq<char>, k: int)
    requires
        0 <= k <= tree.children.len(),
        forall|j: int| 0 <= j < k ==> (#[trigger] tree.children[j]).name != name,
        k < tree.children.len() ==> tree.children[k].name == name,
    ensures
        tree.child_position(name) == k,
    decreases tree.children.len(),
{
    if k > 0 {
        let rest = TreeView { children: tree.children.drop_first(), ..tree };
        assert(tree.children[0].name != name);
        assert forall|j: int| 0 <= j < k - 1 implies (#[trigger] rest.children[j]).name
            != name by {
            assert(rest.children[j] == tree.children[j + 1]);
        }
        lemma_child_position(rest, name, k - 1);
    }
}

impl TreeNode {
    /// A directory that holds nothing, shown open.
    pub fn new(name: String, path: String) -> (r: TreeNode)
        ensures
            r@ == TreeView::leaf(name@, path@),
            r.name == name,
            r.path == path,
            r.children@.len() == 0,
            r.repositories@.len() == 0,
            r.is_expanded,
    {
        let r = TreeNode {
            name,
            path,
            children: Vec::new(),
            repositories: Vec::new(),
            is_expanded: true,
        };
        proof {
            assert(r@.children =~= Seq::<TreeView>::empty());
            assert(r@.repositories =~= Seq::<(nat, Seq<char>)>::empty());
        }
        r
    }

    /// The position of the first directory called `name` within this one,
    /// or the number of directories within it if none is called so.
    pub fn child_position(&self, name: &String) -> (r: usize)
        ensures
            r == self@.child_position(name@),
            r <= self.children@.len(),
            r < self.children@.len() ==> self.children@[r as int].name@ == name@,
            forall|j: int| 0 <= j < r ==> (#[trigger] self.children@[j]).name@ != name@,
    {
        let mut i: usize = 0;
        let mut found = false;
        while i < self.children.len() && !found
            invariant
                i <= self.children.len(),
                forall|j: int| 0 <= j < i ==> (#[trigger] self.children@[j]).name@ != name@,
                found ==> i < self.children.len() && self.children@[i as int].name@ == name@,
            decreases self.children.len() - i + (if found { 0int } else { 1int }),
        {
            if self.children[i].name == *name {
                found = true;
            } else {
                i += 1;
            }
        }
        proof {
            lemma_children_view(*self);
            assert forall|j: int| 0 <= j < i implies (#[trigger] self@.children[j]).name
                != name@ by {
                assert(self@.children[j] == tree_view(self.children@[j]));
            }
            if i < self.children@.len() {
                assert(self@.children[i as int] == tree_view(self.children@[i as int]));
            }
            lemma_child_position(self@, name@, i as int);
        }
        i
    }

    /// The first directory called `name` within this one, to be changed in
    /// place.
    pub fn find_child_mut(&mut self, name: &String) -> (r: Option<&mut TreeNode>)
        ensures
            r is Some <==> old(self)@.child_position(name@) < old(self).children@.len(),
            r is None ==> *final(self) == *old(self),
            r matches Some(child) ==> ({
                let i = old(self)@.child_position(name@);
                &&& 0 <= i < old(self).children@.len()
                &&& *child == old(self).children@[i]
                &&& child.name@ == name@
                &&& final(self).children@ == old(self).children@.update(i, *final(child))
                &&& final(self).name == old(self).name
                &&& final(self).path == old(self).path
                &&& final(self).repositories == old(self).repositories
                &&& final(self).is_expanded == old(self).is_expanded
            }),
    {
        let i = self.child_position(name);
        if i < self.children.len() {
            Some(&mut self.children[i])
        } else {
            None
        }
    }

    /// The first directory called `name` within this one, to be changed in
    /// place; where none is called so, a new one at `path` that holds
    /// nothing is put at the end first.
    pub fn get_or_create_child(&mut self, name: String, path: String) -> (r: &mut TreeNode)
        ensures
            ({
                let i = old(self)@.child_position(name@);
                let before = if i < old(self).children@.len() {
                    old(self).children@
                } else {
                    old(self).children@.push(*r)
                };
                &&& 0 <= i <= old(self).children@.len()
                &&& i < old(self).children@.len() ==> *r == old(self).children@[i]
                &&& i == old(self).children@.len() ==> r@ == TreeView::leaf(name@, path@)
                &&& r.name@ == name@
                &&& final(self).children@ == before.update(i, *final(r))
                &&& final(self).name == old(self).name
                &&& final(self).path == old(self).path
                &&& final(self).repositories == old(self).repositories
                &&& final(self).is_expanded == old(self).is_expanded
            }),
    {
        let i = self.child_position(&name);
        if i >= self.children.len() {
            self.children.push(TreeNode::new(name, path));
        }
        &mut self.children[i]
    }
}

impl TreeView {
    /// The tree with one repository more: it lies beneath the directories
    /// `dirs`, counted from this one, which stands at `at`; those that the
    /// tree lacks are made on the way.
    pub open spec fn with_repository(
        self,
        dirs: Seq<Seq<char>>,
        at: Seq<char>,
        index: nat,
        repo_path: Seq<char>,
    ) -> TreeView
        decreases dirs.len(),
    {
        if dirs.len() == 0 {
            TreeView { repositories: self.repositories.push((index, repo_path)), ..self }
        } else {
            let below = child_path(at, dirs[0]);
            let i = self.child_position(dirs[0]);
            let children = if 0 <= i < self.children.len() {
                self.children
            } else {
                self.children.push(TreeView::leaf(dirs[0], below))
            };
            let k = if 0 <= i < self.children.len() {
                i
            } else {
                self.children.len() as int
            };
            TreeView {
                children: children.update(
                    k,
                    children[k].with_repository(dirs.drop_first(), below, index, repo_path),
                ),
                ..self
            }
        }
    }
}

/// The lower-case form of a text, as `str::to_lowercase` gives it.
pub uninterp spec fn lowercase(s: Seq<char>) -> Seq<char>;

/// Calls `str::to_lowercase`. The result is named, not described: the
/// standard library's mapping of letters is taken as it is.
#[verifier::external_body]
fn to_lower(s: &str) -> (r: String)
    ensures
        r@ == lowercase(s@),
{
    s.to_lowercase()
}

/// A repository is shown for a query: the query is empty, or its lower-case
/// form occurs in that of the repository's name or of its path.
pub open spec fn query_matches(
    query: Seq<char>,
    query_lower: Seq<char>,
    name_lower: Seq<char>,
    path_lower: Seq<char>,
) -> bool {
    query.len() == 0 || contains(name_lower, query_lower) || contains(path_lower, query_lower)
}

/// Whether a repository is shown for a query, given the lower-case forms of
/// the query, of the repository's name and of its path.
pub fn matches_query(query: &str, query_lower: &str, name_lower: &str, path_lower: &str) -> (r: bool)
    ensures
        r == query_matches(query@, query_lower@, name_lower@, path_lower@),
{
    query.unicode_len() == 0 || str_contains(name_lower, query_lower) || str_contains(
        path_lower,
        query_lower,
    )
}

/// A repository is shown for a query.
pub open spec fn shown(repo: RepositoryStateView, query: Seq<char>) -> bool {
    query_matches(query, lowercase(query), lowercase(repo.name), lowercase(repo.path))
}

/// The tree of the first `n` of `repos` that are shown for `query`: each
/// beneath the directories that its path names before its last.
pub open spec fn built(repos: Seq<RepositoryStateView>, query: Seq<char>, n: nat) -> TreeView
    decreases n,
{
    if n == 0 || n > repos.len() {
        TreeView::leaf("Root"@, Seq::empty())
    } else {
        let repo = repos[n - 1];
        if shown(repo, query) && components(repo.path).len() > 0 {
            built(repos, query, (n - 1) as nat).with_repository(
                components(repo.path).drop_last(),
                Seq::empty(),
                (n - 1) as nat,
                repo.path,
            )
        } else {
            built(repos, query, (n - 1) as nat)
        }
    }
}

proof fn lemma_views_update(nodes: Seq<TreeNode>, i: int, node: TreeNode)
    requires
        0 <= i < nodes.len(),
    ensures
        views_of(nodes.update(i, node)) == views_of(nodes).update(i, node@),
{
    assert(views_of(nodes.update(i, node)) =~= views_of(nodes).update(i, node@));
}

proof fn lemma_views_push(nodes: Seq<TreeNode>, node: TreeNode)
    ensures
        views_of(nodes.push(node)) == views_of(nodes).push(node@),
{
    assert(views_of(nodes.push(node)) =~= views_of(nodes).push(node@));
}

/// Builds the tree.
pub struct TreeBuilder;

impl TreeBuilder {
    /// Puts a repository into the tree, beneath the directories `dirs`,
    /// counted from `node`, which stands at `at`.
    pub fn insert(
        node: &mut TreeNode,
        dirs: &Vec<String>,
        at: &str,
        index: usize,
        repo_path: String,
    )
        ensures
            final(node)@ == old(node)@.with_repository(
                texts(dirs@),
                at@,
                index as nat,
                repo_path@,
            ),
    {
        proof {
            assert(texts(dirs@).skip(0) =~= texts(dirs@));
        }
        TreeBuilder::insert_from(node, dirs, 0, at, index, repo_path);
    }

    /// Puts a repository into the tree, beneath the directories of `dirs`
    /// from position `k` on, counted from `node`, which stands at `at`.
    fn insert_from(
        node: &mut TreeNode,
        dirs: &Vec<String>,
        k: usize,
        at: &str,
        index: usize,
        repo_path: String,
    )
        requires
            k <= dirs.len(),
        ensures
            final(node)@ == old(node)@.with_repository(
                texts(dirs@).skip(k as int),
                at@,
                index as nat,
                repo_path@,
            ),
        decreases dirs.len() - k,
    {
        let ghost before = node@;
        let ghost rest = texts(dirs@).skip(k as int);
        proof {
            lemma_children_view(*node);
        }
        if k == dirs.len() {
            proof {
                assert(entries_view(node.repositories@.push((index, repo_path))) =~= entries_view(
                    node.repositories@,
                ).push((index as nat, repo_path@)));
            }
            node.repositories.push((index, repo_path));
            proof {
                lemma_children_view(*node);
            }
        } else {
            let below = join_path(at, dirs[k].as_str());
            let ghost old_children = node.children@;
            let ghost i = before.child_position(dirs@[k as int]@);
            proof {
                assert(rest[0] == dirs@[k as int]@);
                assert(rest.drop_first() =~= texts(dirs@).skip(k + 1));
            }
            let child = node.get_or_create_child(dirs[k].clone(), below.clone());
            let ghost child_before = *child;
            TreeBuilder::insert_from(child, dirs, k + 1, below.as_str(), index, repo_path);
            proof {
                lemma_children_view(*node);
                if i < old_children.len() {
                    lemma_views_update(old_children, i, node.children@[i]);
                } else {
                    lemma_views_push(old_children, child_before);
                    lemma_views_update(
                        old_children.push(child_before),
                        old_children.len() as int,
                        node.children@[old_children.len() as int],
                    );
                }
                assert(node@.children =~= before.with_repository(
                    rest,
                    at@,
                    index as nat,
                    repo_path@,
                ).children);
            }
        }
    }

    /// Puts the tree in order: the directories within each directory by
    /// their names, the repositories of each by theirs.
    pub fn sort_tree_node(node: &mut TreeNode, repositories: &Vec<RepositoryState>)
        ensures
            final(node)@ == in_order(old(node)@, names_of(repository_views(repositories@))),
    {
        sort_tree_node(node, repositories);
    }

    /// The tree of the repositories that are shown for `search_query`, put
    /// in the order of names where `sort_by_name` asks for it.
    pub fn build_tree(
        repositories: &Vec<RepositoryState>,
        search_query: &str,
        sort_by_name: bool,
    ) -> (r: TreeNode)
        ensures
            !sort_by_name ==> r@ == built(
                repository_views(repositories@),
                search_query@,
                repositories@.len() as nat,
            ),
            sort_by_name ==> r@ == in_order(
                built(repository_views(repositories@), search_query@, repositories@.len() as nat),
                names_of(repository_views(repositories@)),
            ),
    {
        let ghost repos = repository_views(repositories@);
        let mut root = TreeNode::new("Root".to_owned(), String::new());
        let query_lower = to_lower(search_query);
        let mut idx: usize = 0;
        while idx < repositories.len()
            invariant
                idx <= repositories.len(),
                repos == repository_views(repositories@),
                query_lower@ == lowercase(search_query@),
                root@ == built(repos, search_query@, idx as nat),
            decreases repositories.len() - idx,
        {
            let repo = &repositories[idx];
            proof {
                assert(repos[idx as int] == repo@);
            }
            let name_lower = to_lower(repo.name.as_str());
            let path_lower = to_lower(repo.path.as_str());
            if matches_query(
                search_query,
                query_lower.as_str(),
                name_lower.as_str(),
                path_lower.as_str(),
            ) {
                let mut dirs = normal_components(repo.path.as_str());
                if dirs.len() > 0 {
                    let ghost all = texts(dirs@);
                    let _ = dirs.pop();
                    proof {
                        assert(texts(dirs@) =~= all.drop_last());
                        assert(texts(dirs@).skip(0) =~= texts(dirs@));
                    }
                    TreeBuilder::insert(&mut root, &dirs, "", idx, repo.path.clone());
                    proof {
                        reveal_strlit("");
                        assert(""@ =~= Seq::<char>::empty());
                    }
                }
            }
            idx += 1;
        }
        if sort_by_name {
            TreeBuilder::sort_tree_node(&mut root, repositories);
        }
        root
    }
}

} // verus!
