//! The search for repositories beneath a directory.
//!
//! The file system is read by the caller, who hands over what it saw as a
//! tree of directories. The rules of the search are applied to that tree.

use vstd::prelude::*;
use crate::text::{
    chars_of, eq_ignore_ascii_case, same_ignoring_ascii_case, starts_with, texts,
};

verus! {

/// A directory as the caller saw it.
#[derive(Debug)]
pub struct DirTree {
    /// The directory's own name, without the path that leads to it.
    pub name: String,
    /// Whether the directory holds a `.git` entry.
    pub is_repository: bool,
    /// The directories within it, in the order in which they were listed.
    pub children: Vec<DirTree>,
}

/// A directory of this name is passed over with all that it holds: one
/// whose name begins with a dot, or is `node_modules`, `target` or `build`
/// in capital or small letters.
pub open spec fn is_excluded(name: Seq<char>) -> bool {
    (name.len() > 0 && name[0] == '.') || eq_ignore_ascii_case(name, "node_modules"@)
        || eq_ignore_ascii_case(name, "target"@) || eq_ignore_ascii_case(name, "build"@)
}

/// The path of the entry `name` of the directory at `dir`.
pub open spec fn child_path(dir: Seq<char>, name: Seq<char>) -> Seq<char> {
    if dir.len() == 0 {
        name
    } else if dir.last() == '/' {
        dir + name
    } else {
        dir + seq!['/'] + name
    }
}

/// The repositories beneath the directory at `path`, which is none itself:
/// those that its directories lead to, in their order.
pub open spec fn found_in(tree: DirTree, path: Seq<char>) -> Seq<Seq<char>>
    decreases tree, tree.children@.len() + 2,
{
    found_among(tree, path, tree.children@.len())
}

/// The repositories that the first `n` directories within `tree` lead to.
/// A directory with an excluded name leads to none. Another one that is a
/// repository leads to itself and is not entered. Any other leads to the
/// repositories beneath it.
pub open spec fn found_among(tree: DirTree, path: Seq<char>, n: nat) -> Seq<Seq<char>>
    decreases tree, n + 1,
{
    if n == 0 || n > tree.children@.len() {
        Seq::empty()
    } else {
        let child = tree.children@[n - 1];
        let below = child_path(path, child.name@);
        found_among(tree, path, (n - 1) as nat) + (if is_excluded(child.name@) {
            Seq::empty()
        } else if child.is_repository {
            seq![below]
        } else {
            found_in(child, below)
        })
    }
}

/// The repositories at and beneath `root_path`: the directory itself where
/// it is a repository, else those beneath it.
pub open spec fn repositories_of(tree: DirTree, root_path: Seq<char>) -> Seq<Seq<char>> {
    if tree.is_repository {
        seq![root_path]
    } else {
        found_in(tree, root_path)
    }
}

/// The path of the entry `name` of the directory at `dir`.
pub fn join_path(dir: &str, name: &str) -> (r: String)
    ensures
        r@ == child_path(dir@, name@),
{
    let v = chars_of(dir);
    proof {
        reveal_strlit("/");
        assert("/"@ =~= seq!['/']);
    }
    if v.len() == 0 {
        name.to_owned()
    } else if v[v.len() - 1] == '/' {
        dir.to_owned().concat(name)
    } else {
        dir.to_owned().concat("/").concat(name)
    }
}

/// The search for repositories.
pub struct RepositorySearcher;

impl RepositorySearcher {
    /// Whether the search passes over a directory of this name.
    pub fn is_excluded_name(name: &str) -> (r: bool)
        ensures
            r == is_excluded(name@),
    {
        let v = chars_of(name);
        if v.len() > 0 && v[0] == '.' {
            return true;
        }
        let node_modules = chars_of("node_modules");
        let target = chars_of("target");
        let build = chars_of("build");
        same_ignoring_ascii_case(&v, &node_modules) || same_ignoring_ascii_case(&v, &target)
            || same_ignoring_ascii_case(&v, &build)
    }

    /// Whether the directory is a repository: whether it holds a `.git`
    /// entry.
    pub fn is_git_repository(tree: &DirTree) -> (r: bool)
        ensures
            r == tree.is_repository,
    {
        tree.is_repository
    }

    /// Adds to `repositories` the repositories beneath the directory at
    /// `dir`.
    pub fn scan_for_repositories(dir: &str, tree: &DirTree, repositories: &mut Vec<String>)
        ensures
            texts(final(repositories)@) == texts(old(repositories)@) + found_in(*tree, dir@),
        decreases tree,
    {
        let ghost before = texts(repositories@);
        let mut i: usize = 0;
        proof {
            assert(before + found_among(*tree, dir@, 0) =~= before);
        }
        while i < tree.children.len()
            invariant
                i <= tree.children.len(),
                texts(repositories@) == before + found_among(*tree, dir@, i as nat),
            decreases tree.children.len() - i,
        {
            let child = &tree.children[i];
            let below = join_path(dir, child.name.as_str());
            let ghost so_far = texts(repositories@);
            if RepositorySearcher::is_excluded_name(child.name.as_str()) {
                proof {
                    assert(so_far + Seq::<Seq<char>>::empty() =~= so_far);
                }
            } else if child.is_repository {
                proof {
                    assert(texts(repositories@.push(below)) =~= so_far + seq![below@]);
                }
                repositories.push(below);
            } else {
                RepositorySearcher::scan_for_repositories(below.as_str(), child, repositories);
            }
            proof {
                let step = found_among(*tree, dir@, (i + 1) as nat);
                assert(texts(repositories@) =~= before + step);
            }
            i += 1;
        }
    }

    /// The repositories at and beneath `root_path`, whose directories `tree`
    /// shows.
    pub fn find_git_repositories(root_path: &str, tree: &DirTree) -> (r: Vec<String>)
        ensures
            texts(r@) == repositories_of(*tree, root_path@),
            tree.is_repository ==> texts(r@) == seq![root_path@],
    {
        let mut repositories: Vec<String> = Vec::new();
        if RepositorySearcher::is_git_repository(tree) {
            repositories.push(root_path.to_owned());
            assert(texts(repositories@) =~= seq![root_path@]);
            return repositories;
        }
        proof {
            assert(texts(repositories@) =~= Seq::<Seq<char>>::empty());
            assert(Seq::<Seq<char>>::empty() + found_in(*tree, root_path@) =~= found_in(
                *tree,
                root_path@,
            ));
        }
        RepositorySearcher::scan_for_repositories(root_path, tree, &mut repositories);
        repositories
    }
}

/// A repository is not entered: whatever lies within a directory that is a
/// repository, the search reports the directory and nothing beneath it.
pub proof fn law_repositories_are_not_entered(tree: DirTree, path: Seq<char>, n: nat)
    requires
        0 < n <= tree.children@.len(),
        tree.children@[n - 1].is_repository,
        !is_excluded(tree.children@[n - 1].name@),
    ensures
        found_among(tree, path, n) == found_among(tree, path, (n - 1) as nat).push(
            child_path(path, tree.children@[n - 1].name@),
        ),
        forall|root_path: Seq<char>|
            tree.is_repository ==> #[trigger] repositories_of(tree, root_path) == seq![root_path],
{
    let below = child_path(path, tree.children@[n - 1].name@);
    assert(found_among(tree, path, (n - 1) as nat) + seq![below] =~= found_among(
        tree,
        path,
        (n - 1) as nat,
    ).push(below));
}

/// An excluded directory is passed over with all that it holds, a `.git`
/// entry of its own too.
pub proof fn law_excluded_directories_are_skipped(tree: DirTree, path: Seq<char>, n: nat)
    requires
        0 < n <= tree.children@.len(),
        is_excluded(tree.children@[n - 1].name@),
    ensures
        found_among(tree, path, n) == found_among(tree, path, (n - 1) as nat),
{
    assert(found_among(tree, path, (n - 1) as nat) + Seq::<Seq<char>>::empty() =~= found_among(
        tree,
        path,
        (n - 1) as nat,
    ));
}

proof fn lemma_only_excluded(tree: DirTree, path: Seq<char>, n: nat)
    requires
        n <= tree.children@.len(),
        forall|i: int| 0 <= i < tree.children@.len() ==> is_excluded(tree.children@[i].name@),
    ensures
        found_among(tree, path, n) == Seq::<Seq<char>>::empty(),
    decreases n,
{
    if n > 0 {
        lemma_only_excluded(tree, path, (n - 1) as nat);
        law_excluded_directories_are_skipped(tree, path, n);
    }
}

/// Where every directory within `tree` bears an excluded name, the search
/// finds nothing beneath it, whichever of them are repositories.
pub proof fn law_only_excluded_finds_nothing(tree: DirTree, path: Seq<char>)
    requires
        forall|i: int| 0 <= i < tree.children@.len() ==> is_excluded(tree.children@[i].name@),
    ensures
        found_in(tree, path) == Seq::<Seq<char>>::empty(),
        !tree.is_repository ==> repositories_of(tree, path) == Seq::<Seq<char>>::empty(),
{
    lemma_only_excluded(tree, path, tree.children@.len());
}

/// The name is one that a directory can bear: it is not empty and holds no
/// `/`.
pub open spec fn plain_name(name: Seq<char>) -> bool {
    name.len() > 0 && forall|i: int| 0 <= i < name.len() ==> name[i] != '/'
}

/// The tree is one that a file system can show: every directory in it
/// bears a plain name, and no two directories within one bear the same.
pub open spec fn tidy(tree: DirTree) -> bool
    decreases tree, tree.children@.len() + 1,
{
    tidy_among(tree, tree.children@.len())
}

/// The first `n` directories within `tree` are as a file system can show
/// them.
pub open spec fn tidy_among(tree: DirTree, n: nat) -> bool
    decreases tree, n,
{
    if n == 0 || n > tree.children@.len() {
        true
    } else {
        &&& tidy_among(tree, (n - 1) as nat)
        &&& plain_name(tree.children@[n - 1].name@)
        &&& tidy(tree.children@[n - 1])
        &&& forall|j: int|
            0 <= j < n - 1 ==> (#[trigger] tree.children@[j]).name@ != tree.children@[n - 1].name@
    }
}

/// `below` lies beneath the directory `above`: it begins with the path of
/// `above` and a `/`.
pub open spec fn beneath(above: Seq<char>, below: Seq<char>) -> bool {
    starts_with(below, above + seq!['/'])
}

/// What the directory `child` at `at` adds to a search.
pub open spec fn yield_of(child: DirTree, at: Seq<char>) -> Seq<Seq<char>> {
    if is_excluded(child.name@) {
        Seq::empty()
    } else if child.is_repository {
        seq![at]
    } else {
        found_in(child, at)
    }
}

/// What stands before the name of an entry in the path of the entry.
pub open spec fn dir_prefix(dir: Seq<char>) -> Seq<char> {
    if dir.len() == 0 || dir.last() == '/' {
        dir
    } else {
        dir + seq!['/']
    }
}

proof fn lemma_tidy_child(tree: DirTree, n: nat, k: int)
    requires
        tidy_among(tree, n),
        n <= tree.children@.len(),
        0 <= k < n,
    ensures
        plain_name(tree.children@[k].name@),
        tidy(tree.children@[k]),
        forall|j: int| 0 <= j < k ==> (#[trigger] tree.children@[j]).name@ != tree.children@[k].name@,
    decreases n,
{
    if k < n - 1 {
        lemma_tidy_child(tree, (n - 1) as nat, k);
    }
}

proof fn lemma_member(tree: DirTree, path: Seq<char>, n: nat, x: Seq<char>) -> (k: int)
    requires
        n <= tree.children@.len(),
        found_among(tree, path, n).contains(x),
    ensures
        0 <= k < n,
        yield_of(tree.children@[k], child_path(path, tree.children@[k].name@)).contains(x),
    decreases n,
{
    let earlier = found_among(tree, path, (n - 1) as nat);
    let child = tree.children@[n - 1];
    let last = yield_of(child, child_path(path, child.name@));
    assert(found_among(tree, path, n) == earlier + last);
    let i = choose|i: int| 0 <= i < (earlier + last).len() && (earlier + last)[i] == x;
    if i < earlier.len() {
        assert(earlier[i] == x);
        lemma_member(tree, path, (n - 1) as nat, x)
    } else {
        assert(last[i - earlier.len()] == x);
        n - 1
    }
}

proof fn lemma_prefix_chain(b: Seq<char>, u: Seq<char>, v: Seq<char>)
    requires
        starts_with(b, u),
        starts_with(u, v),
    ensures
        starts_with(b, v),
{
    assert(b.take(v.len() as int) =~= u.take(v.len() as int));
}

proof fn lemma_yield_lies_at_or_beneath(child: DirTree, at: Seq<char>, x: Seq<char>)
    requires
        tidy(child),
        at.len() > 0,
        at.last() != '/',
        yield_of(child, at).contains(x),
    ensures
        x == at || beneath(at, x),
        child.is_repository ==> x == at,
    decreases child, 1nat,
{
    if !is_excluded(child.name@) && !child.is_repository {
        lemma_found_lies_beneath(child, at, x);
    }
}

proof fn lemma_found_lies_beneath(tree: DirTree, at: Seq<char>, x: Seq<char>)
    requires
        tidy(tree),
        at.len() > 0,
        at.last() != '/',
        found_in(tree, at).contains(x),
    ensures
        beneath(at, x),
    decreases tree, 0nat,
{
    let k = lemma_member(tree, at, tree.children@.len(), x);
    let child = tree.children@[k];
    lemma_tidy_child(tree, tree.children@.len(), k);
    let below = child_path(at, child.name@);
    assert(below == at + seq!['/'] + child.name@);
    assert(below.last() == child.name@.last());
    lemma_yield_lies_at_or_beneath(child, below, x);
    assert(starts_with(below, at + seq!['/'])) by {
        assert(below.take((at + seq!['/']).len() as int) =~= at + seq!['/']);
    }
    if x != below {
        assert(starts_with(below + seq!['/'], below)) by {
            assert((below + seq!['/']).take(below.len() as int) =~= below);
        }
        lemma_prefix_chain(x, below + seq!['/'], below);
        lemma_prefix_chain(x, below, at + seq!['/']);
    }
}

proof fn lemma_same_name(q: Seq<char>, first: Seq<char>, second: Seq<char>, b: Seq<char>)
    requires
        plain_name(first),
        plain_name(second),
        starts_with(b, q + first + seq!['/']),
        b == q + second || starts_with(b, q + second + seq!['/']),
    ensures
        first == second,
{
    let base = q.len() as int;
    let n1 = first.len() as int;
    let n2 = second.len() as int;
    let one = q + first + seq!['/'];
    assert(b.take(one.len() as int) == one);
    assert forall|j: int| 0 <= j < n1 implies b[base + j] == first[j] by {
        assert(b.take(one.len() as int)[base + j] == one[base + j]);
    }
    assert(b[base + n1] == '/') by {
        assert(b.take(one.len() as int)[base + n1] == one[base + n1]);
    }
    if b == q + second {
        if n1 < n2 {
            assert(b[base + n1] == second[n1]);
        }
    } else {
        let two = q + second + seq!['/'];
        assert(b.take(two.len() as int) == two);
        assert forall|j: int| 0 <= j < n2 implies b[base + j] == second[j] by {
            assert(b.take(two.len() as int)[base + j] == two[base + j]);
        }
        assert(b[base + n2] == '/') by {
            assert(b.take(two.len() as int)[base + n2] == two[base + n2]);
        }
        if n1 < n2 {
            assert(b[base + n1] == second[n1]);
        } else if n2 < n1 {
            assert(b[base + n2] == first[n2]);
        } else {
            assert(first =~= second);
        }
    }
}

/// Repositories are not nested: in a tree that a file system can show, no
/// repository that the search reports lies beneath another one that it
/// reports.
pub proof fn law_no_repository_beneath_another(
    tree: DirTree,
    path: Seq<char>,
    a: Seq<char>,
    b: Seq<char>,
)
    requires
        tidy(tree),
        repositories_of(tree, path).contains(a),
        repositories_of(tree, path).contains(b),
    ensures
        !beneath(a, b),
    decreases tree,
{
    if tree.is_repository {
        assert(seq![path][0] == path);
        assert(a == path && b == path);
        if beneath(a, b) {
            assert(b.take((a + seq!['/']).len() as int).len() == a.len() + 1);
        }
    } else if beneath(a, b) {
        let n = tree.children@.len();
        let k = lemma_member(tree, path, n, a);
        let m = lemma_member(tree, path, n, b);
        lemma_tidy_child(tree, n, k);
        lemma_tidy_child(tree, n, m);
        let q = dir_prefix(path);
        let first = tree.children@[k];
        let second = tree.children@[m];
        let at_first = child_path(path, first.name@);
        let at_second = child_path(path, second.name@);
        assert(at_first =~= q + first.name@);
        assert(at_second =~= q + second.name@);
        assert(at_first.last() == first.name@.last());
        assert(at_second.last() == second.name@.last());
        lemma_yield_lies_at_or_beneath(first, at_first, a);
        lemma_yield_lies_at_or_beneath(second, at_second, b);
        assert(starts_with(a + seq!['/'], at_first + seq!['/'])) by {
            if a == at_first {
                assert((a + seq!['/']).take((at_first + seq!['/']).len() as int) =~= at_first
                    + seq!['/']);
            } else {
                assert(starts_with(a + seq!['/'], a)) by {
                    assert((a + seq!['/']).take(a.len() as int) =~= a);
                }
                lemma_prefix_chain(a + seq!['/'], a, at_first + seq!['/']);
            }
        }
        lemma_prefix_chain(b, a + seq!['/'], at_first + seq!['/']);
        assert(at_first + seq!['/'] =~= q + first.name@ + seq!['/']);
        assert(at_second + seq!['/'] =~= q + second.name@ + seq!['/']);
        lemma_same_name(q, first.name@, second.name@, b);
        if k != m {
            if k < m {
                assert(tree.children@[k].name@ != tree.children@[m].name@);
            } else {
                assert(tree.children@[m].name@ != tree.children@[k].name@);
            }
        } else if first.is_repository {
            assert(a == b);
            assert(b.take((a + seq!['/']).len() as int).len() == a.len() + 1);
        } else {
            law_no_repository_beneath_another(first, at_first, a, b);
        }
    }
}

} // verus!
