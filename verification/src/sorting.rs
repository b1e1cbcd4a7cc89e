//! The tree in the order of names.
//!
//! Texts are ordered as `String` orders them: character by character, by
//! code; a text comes before those that it begins. A list is put in order
//! without changing the order of members that compare alike.

use vstd::prelude::*;
use crate::text::{char_code, chars_of};
use crate::tree::{entries_view, lemma_children_view, tree_view, views_of, TreeNode, TreeView};
use crate::workspace::{repository_views, RepositoryState, RepositoryStateView};

verus! {

/// `a` does not come after `b`.
pub open spec fn text_le(a: Seq<char>, b: Seq<char>) -> bool
    decreases a.len(),
{
    if a.len() == 0 {
        true
    } else if b.len() == 0 {
        false
    } else if a[0] != b[0] {
        (a[0] as int) < (b[0] as int)
    } else {
        text_le(a.drop_first(), b.drop_first())
    }
}

proof fn lemma_text_le(a: Seq<char>, b: Seq<char>, k: int)
    requires
        0 <= k <= a.len(),
        k <= b.len(),
        forall|j: int| 0 <= j < k ==> a[j] == b[j],
    ensures
        text_le(a, b) == text_le(a.skip(k), b.skip(k)),
    decreases k,
{
    if k == 0 {
        assert(a.skip(0) =~= a);
        assert(b.skip(0) =~= b);
    } else {
        lemma_text_le(a, b, k - 1);
        let x = a.skip(k - 1);
        let y = b.skip(k - 1);
        assert(x[0] == a[k - 1]);
        assert(y[0] == b[k - 1]);
        assert(x.drop_first() =~= a.skip(k));
        assert(y.drop_first() =~= b.skip(k));
    }
}

/// Whether `a` does not come after `b`.
pub fn text_not_after(a: &str, b: &str) -> (r: bool)
    ensures
        r == text_le(a@, b@),
{
    let x = chars_of(a);
    let y = chars_of(b);
    let mut k: usize = 0;
    while k < x.len() && k < y.len() && x[k] == y[k]
        invariant
            k <= x.len(),
            k <= y.len(),
            forall|j: int| 0 <= j < k ==> x@[j] == y@[j],
        decreases x.len() - k,
    {
        k += 1;
    }
    proof {
        lemma_text_le(x@, y@, k as int);
        if k < x.len() && k < y.len() {
            assert(x@.skip(k as int)[0] == x@[k as int]);
            assert(y@.skip(k as int)[0] == y@[k as int]);
        }
    }
    if k == x.len() {
        true
    } else if k == y.len() {
        false
    } else {
        char_code(x[k]) < char_code(y[k])
    }
}

/// How many members at the head of `nodes` bear names that do not come
/// after `name`.
pub open spec fn name_bound(nodes: Seq<TreeView>, name: Seq<char>) -> int
    decreases nodes.len(),
{
    if nodes.len() > 0 && text_le(nodes[0].name, name) {
        1 + name_bound(nodes.drop_first(), name)
    } else {
        0
    }
}

/// `nodes` in the order of their names; members of one name stay in their
/// order.
pub open spec fn by_name(nodes: Seq<TreeView>) -> Seq<TreeView>
    decreases nodes.len(),
{
    if nodes.len() == 0 {
        Seq::empty()
    } else {
        by_name(nodes.drop_last()).insert(
            name_bound(by_name(nodes.drop_last()), nodes.last().name),
            nodes.last(),
        )
    }
}

proof fn lemma_name_bound(nodes: Seq<TreeView>, name: Seq<char>, k: int)
    requires
        0 <= k <= nodes.len(),
        forall|j: int| 0 <= j < k ==> text_le((#[trigger] nodes[j]).name, name),
        k < nodes.len() ==> !text_le(nodes[k].name, name),
    ensures
        name_bound(nodes, name) == k,
    decreases nodes.len(),
{
    if k > 0 {
        let rest = nodes.drop_first();
        assert(text_le(nodes[0].name, name));
        assert forall|j: int| 0 <= j < k - 1 implies text_le((#[trigger] rest[j]).name, name) by {
            assert(rest[j] == nodes[j + 1]);
        }
        lemma_name_bound(rest, name, k - 1);
    }
}

/// The name of the repository in position `index` of `names`, if there is
/// one.
pub open spec fn name_at(names: Seq<Seq<char>>, index: nat) -> Option<Seq<char>> {
    if index < names.len() {
        Some(names[index as int])
    } else {
        None
    }
}

/// The repository `a` does not come after the repository `b`: by their
/// names, where both are among `names`; where one is not, neither comes
/// after the other.
pub open spec fn entry_le(a: (nat, Seq<char>), b: (nat, Seq<char>), names: Seq<Seq<char>>) -> bool {
    match (name_at(names, a.0), name_at(names, b.0)) {
        (Some(x), Some(y)) => text_le(x, y),
        _ => true,
    }
}

/// How many members at the head of `entries` do not come after `entry`.
pub open spec fn entry_bound(
    entries: Seq<(nat, Seq<char>)>,
    entry: (nat, Seq<char>),
    names: Seq<Seq<char>>,
) -> int
    decreases entries.len(),
{
    if entries.len() > 0 && entry_le(entries[0], entry, names) {
        1 + entry_bound(entries.drop_first(), entry, names)
    } else {
        0
    }
}

/// `entries` in the order of the names of their repositories; members that
/// compare alike stay in their order.
pub open spec fn by_repository_name(entries: Seq<(nat, Seq<char>)>, names: Seq<Seq<char>>) -> Seq<
    (nat, Seq<char>),
>
    decreases entries.len(),
{
    if entries.len() == 0 {
        Seq::empty()
    } else {
        by_repository_name(entries.drop_last(), names).insert(
            entry_bound(by_repository_name(entries.drop_last(), names), entries.last(), names),
            entries.last(),
        )
    }
}

proof fn lemma_entry_bound(
    entries: Seq<(nat, Seq<char>)>,
    entry: (nat, Seq<char>),
    names: Seq<Seq<char>>,
    k: int,
)
    requires
        0 <= k <= entries.len(),
        forall|j: int| 0 <= j < k ==> entry_le(#[trigger] entries[j], entry, names),
        k < entries.len() ==> !entry_le(entries[k], entry, names),
    ensures
        entry_bound(entries, entry, names) == k,
    decreases entries.len(),
{
    if k > 0 {
        let rest = entries.drop_first();
        assert(entry_le(entries[0], entry, names));
        assert forall|j: int| 0 <= j < k - 1 implies entry_le(#[trigger] rest[j], entry, names) by {
            assert(rest[j] == entries[j + 1]);
        }
        lemma_entry_bound(rest, entry, names, k - 1);
    }
}

/// The names of the repositories, in order.
pub open spec fn names_of(repos: Seq<RepositoryStateView>) -> Seq<Seq<char>> {
    Seq::new(repos.len(), |i: int| repos[i].name)
}

/// The tree with the directories within each directory in the order of
/// their names, and the repositories of each in the order of theirs.
pub open spec fn in_order(tree: TreeView, names: Seq<Seq<char>>) -> TreeView
    decreases tree, tree.children.len() + 1,
{
    TreeView {
        children: by_name(forest_in_order(tree, names, tree.children.len())),
        repositories: by_repository_name(tree.repositories, names),
        ..tree
    }
}

/// The first `n` directories within `tree`, each in order within itself.
pub open spec fn forest_in_order(tree: TreeView, names: Seq<Seq<char>>, n: nat) -> Seq<TreeView>
    decreases tree, n,
{
    if n == 0 || n > tree.children.len() {
        Seq::empty()
    } else {
        forest_in_order(tree, names, (n - 1) as nat).push(in_order(tree.children[n - 1], names))
    }
}

fn entry_not_after(
    a: &(usize, String),
    b: &(usize, String),
    repositories: &Vec<RepositoryState>,
) -> (r: bool)
    ensures
        r == entry_le(
            (a.0 as nat, a.1@),
            (b.0 as nat, b.1@),
            names_of(repository_views(repositories@)),
        ),
{
    if a.0 < repositories.len() && b.0 < repositories.len() {
        text_not_after(repositories[a.0].name.as_str(), repositories[b.0].name.as_str())
    } else {
        true
    }
}

/// Puts the repositories of a directory in the order of their names.
pub fn sort_entries(entries: &mut Vec<(usize, String)>, repositories: &Vec<RepositoryState>)
    ensures
        entries_view(final(entries)@) == by_repository_name(
            entries_view(old(entries)@),
            names_of(repository_views(repositories@)),
        ),
{
    let ghost given = entries_view(entries@);
    let ghost names = names_of(repository_views(repositories@));
    let mut i: usize = 0;
    proof {
        assert(given.take(0) =~= Seq::<(nat, Seq<char>)>::empty());
        assert(entries_view(entries@).take(0) =~= by_repository_name(given.take(0), names));
        assert(entries_view(entries@).skip(0) =~= given.skip(0));
    }
    while i < entries.len()
        invariant
            i <= entries.len(),
            entries.len() == given.len(),
            names == names_of(repository_views(repositories@)),
            entries_view(entries@).take(i as int) == by_repository_name(
                given.take(i as int),
                names,
            ),
            entries_view(entries@).skip(i as int) == given.skip(i as int),
        decreases entries.len() - i,
    {
        let ghost current = entries_view(entries@);
        let ghost head = current.take(i as int);
        let entry = entries.remove(i);
        proof {
            assert(current[i as int] == (entry.0 as nat, entry.1@));
            assert(current.skip(i as int)[0] == given.skip(i as int)[0]);
            assert(given[i as int] == (entry.0 as nat, entry.1@));
            assert(entries_view(entries@) =~= current.remove(i as int));
        }
        let mut p: usize = 0;
        while p < i && entry_not_after(&entries[p], &entry, repositories)
            invariant
                p <= i <= entries.len(),
                names == names_of(repository_views(repositories@)),
                head == entries_view(entries@).take(i as int),
                forall|j: int|
                    0 <= j < p ==> entry_le(#[trigger] head[j], (entry.0 as nat, entry.1@), names),
            decreases i - p,
        {
            proof {
                assert(head[p as int] == (entries@[p as int].0 as nat, entries@[p as int].1@));
            }
            p += 1;
        }
        proof {
            if p < i {
                assert(head[p as int] == (entries@[p as int].0 as nat, entries@[p as int].1@));
            }
            lemma_entry_bound(head, (entry.0 as nat, entry.1@), names, p as int);
            assert(given.take(i + 1).drop_last() =~= given.take(i as int));
            assert(given.take(i + 1).last() == given[i as int]);
        }
        let ghost removed = entries_view(entries@);
        entries.insert(p, entry);
        proof {
            let now = entries_view(entries@);
            assert(now =~= removed.insert(p as int, given[i as int]));
            assert(now.take(i + 1) =~= head.insert(p as int, given[i as int]));
            assert forall|j: int| i + 1 <= j < now.len() implies now[j] == given[j] by {
                assert(now[j] == removed[j - 1]);
                assert(removed[j - 1] == current[j]);
                assert(current.skip(i as int)[j - i] == given.skip(i as int)[j - i]);
            }
            assert(now.skip(i + 1) =~= given.skip(i + 1));
        }
        i += 1;
    }
    proof {
        assert(entries_view(entries@).take(i as int) =~= entries_view(entries@));
        assert(given.take(i as int) =~= given);
    }
}

/// Puts a list of directories in the order of their names.
pub fn sort_nodes(nodes: &mut Vec<TreeNode>)
    ensures
        views_of(final(nodes)@) == by_name(views_of(old(nodes)@)),
{
    let ghost given = views_of(nodes@);
    let mut i: usize = 0;
    proof {
        assert(given.take(0) =~= Seq::<TreeView>::empty());
        assert(views_of(nodes@).take(0) =~= by_name(given.take(0)));
        assert(views_of(nodes@).skip(0) =~= given.skip(0));
    }
    while i < nodes.len()
        invariant
            i <= nodes.len(),
            nodes.len() == given.len(),
            views_of(nodes@).take(i as int) == by_name(given.take(i as int)),
            views_of(nodes@).skip(i as int) == given.skip(i as int),
        decreases nodes.len() - i,
    {
        let ghost current = views_of(nodes@);
        let ghost head = current.take(i as int);
        let node = nodes.remove(i);
        proof {
            assert(current[i as int] == node@);
            assert(current.skip(i as int)[0] == given.skip(i as int)[0]);
            assert(given[i as int] == node@);
            assert(views_of(nodes@) =~= current.remove(i as int));
        }
        let mut p: usize = 0;
        while p < i && text_not_after(nodes[p].name.as_str(), node.name.as_str())
            invariant
                p <= i <= nodes.len(),
                head == views_of(nodes@).take(i as int),
                forall|j: int| 0 <= j < p ==> text_le((#[trigger] head[j]).name, node.name@),
            decreases i - p,
        {
            proof {
                assert(head[p as int] == nodes@[p as int]@);
            }
            p += 1;
        }
        proof {
            if p < i {
                assert(head[p as int] == nodes@[p as int]@);
            }
            lemma_name_bound(head, node.name@, p as int);
            assert(given.take(i + 1).drop_last() =~= given.take(i as int));
            assert(given.take(i + 1).last() == given[i as int]);
        }
        let ghost removed = views_of(nodes@);
        nodes.insert(p, node);
        proof {
            let now = views_of(nodes@);
            assert(now =~= removed.insert(p as int, given[i as int]));
            assert(now.take(i + 1) =~= head.insert(p as int, given[i as int]));
            assert forall|j: int| i + 1 <= j < now.len() implies now[j] == given[j] by {
                assert(now[j] == removed[j - 1]);
                assert(removed[j - 1] == current[j]);
                assert(current.skip(i as int)[j - i] == given.skip(i as int)[j - i]);
            }
            assert(now.skip(i + 1) =~= given.skip(i + 1));
        }
        i += 1;
    }
    proof {
        assert(views_of(nodes@).take(i as int) =~= views_of(nodes@));
        assert(given.take(i as int) =~= given);
    }
}

/// Puts the tree in order: the directories within each directory by their
/// names, the repositories of each by theirs.
pub fn sort_tree_node(node: &mut TreeNode, repositories: &Vec<RepositoryState>)
    ensures
        final(node)@ == in_order(old(node)@, names_of(repository_views(repositories@))),
    decreases *old(node),
{
    let ghost before = node@;
    let ghost names = names_of(repository_views(repositories@));
    let ghost old_children = node.children@;
    proof {
        lemma_children_view(*node);
    }
    let mut i: usize = 0;
    proof {
        assert(views_of(node.children@).take(0) =~= forest_in_order(before, names, 0));
    }
    while i < node.children.len()
        invariant
            i <= node.children.len(),
            node.children@.len() == old_children.len(),
            before.children == views_of(old_children),
            names == names_of(repository_views(repositories@)),
            node.name == old(node).name,
            node.path == old(node).path,
            node.repositories == old(node).repositories,
            node.is_expanded == old(node).is_expanded,
            forall|j: int| i <= j < old_children.len() ==> node.children@[j] == old_children[j],
            forall|j: int| 0 <= j < old_children.len() ==> decreases_to!(*old(node) => old_children[j]),
            views_of(node.children@).take(i as int) == forest_in_order(before, names, i as nat),
        decreases node.children.len() - i,
    {
        let ghost so_far = views_of(node.children@);
        proof {
            assert(node.children@[i as int] == old_children[i as int]);
            assert(decreases_to!(*old(node) => node.children@[i as int]));
        }
        sort_tree_node(&mut node.children[i], repositories);
        proof {
            let now = views_of(node.children@);
            assert(before.children[i as int] == tree_view(old_children[i as int]));
            assert(now.take(i + 1) =~= so_far.take(i as int).push(
                in_order(before.children[i as int], names),
            ));
        }
        i += 1;
    }
    proof {
        assert(views_of(node.children@).take(i as int) =~= views_of(node.children@));
    }
    sort_nodes(&mut node.children);
    sort_entries(&mut node.repositories, repositories);
    proof {
        lemma_children_view(*node);
    }
}

/// Of two texts one does not come after the other.
pub proof fn law_text_order_is_total(a: Seq<char>, b: Seq<char>)
    ensures
        text_le(a, b) || text_le(b, a),
        text_le(a, a),
    decreases a.len(),
{
    if a.len() > 0 {
        law_text_order_is_total(a.drop_first(), a.drop_first());
        if b.len() == 0 {
            assert(text_le(b, a));
        } else if a[0] == b[0] {
            law_text_order_is_total(a.drop_first(), b.drop_first());
            assert(text_le(a, b) == text_le(a.drop_first(), b.drop_first()));
            assert(text_le(b, a) == text_le(b.drop_first(), a.drop_first()));
        } else {
            assert(a[0] as int != b[0] as int);
        }
    }
}

/// A text that does not come after a second, which does not come after a
/// third, does not come after the third.
pub proof fn law_text_order_is_transitive(a: Seq<char>, b: Seq<char>, c: Seq<char>)
    requires
        text_le(a, b),
        text_le(b, c),
    ensures
        text_le(a, c),
    decreases a.len(),
{
    if a.len() > 0 && b.len() > 0 && c.len() > 0 {
        if a[0] == b[0] && b[0] == c[0] {
            law_text_order_is_transitive(a.drop_first(), b.drop_first(), c.drop_first());
        }
    }
}

/// No member of `nodes` bears a name that comes after that of a later
/// member.
pub open spec fn ordered_by_name(nodes: Seq<TreeView>) -> bool {
    forall|i: int, j: int| 0 <= i < j < nodes.len() ==> text_le(nodes[i].name, nodes[j].name)
}

proof fn lemma_name_bound_splits(nodes: Seq<TreeView>, name: Seq<char>)
    ensures
        0 <= name_bound(nodes, name) <= nodes.len(),
        forall|j: int| 0 <= j < name_bound(nodes, name) ==> text_le((#[trigger] nodes[j]).name, name),
        name_bound(nodes, name) < nodes.len() ==> !text_le(
            nodes[name_bound(nodes, name)].name,
            name,
        ),
    decreases nodes.len(),
{
    if nodes.len() > 0 && text_le(nodes[0].name, name) {
        let rest = nodes.drop_first();
        lemma_name_bound_splits(rest, name);
        assert forall|j: int| 0 <= j < name_bound(nodes, name) implies text_le(
            (#[trigger] nodes[j]).name,
            name,
        ) by {
            if j > 0 {
                assert(nodes[j] == rest[j - 1]);
            }
        }
        if name_bound(nodes, name) < nodes.len() {
            assert(nodes[name_bound(nodes, name)] == rest[name_bound(rest, name)]);
        }
    }
}

/// Putting a list in the order of names gives the same members, each as
/// often as before, with no name after a later one.
pub proof fn law_by_name_sorts(nodes: Seq<TreeView>)
    ensures
        by_name(nodes).len() == nodes.len(),
        by_name(nodes).to_multiset() == nodes.to_multiset(),
        ordered_by_name(by_name(nodes)),
    decreases nodes.len(),
{
    broadcast use vstd::seq_lib::to_multiset_build, vstd::seq_lib::to_multiset_insert;

    if nodes.len() == 0 {
        assert(by_name(nodes) =~= nodes);
    } else {
        let head = nodes.drop_last();
        let last = nodes.last();
        let sorted = by_name(head);
        law_by_name_sorts(head);
        lemma_name_bound_splits(sorted, last.name);
        let p = name_bound(sorted, last.name);
        let result = sorted.insert(p, last);
        assert(head.push(last) =~= nodes);
        assert(result.to_multiset() == sorted.to_multiset().insert(last));
        assert(head.push(last).to_multiset() =~= head.to_multiset().insert(last));
        assert forall|i: int, j: int| 0 <= i < j < result.len() implies text_le(
            result[i].name,
            result[j].name,
        ) by {
            if j < p {
                assert(result[i] == sorted[i] && result[j] == sorted[j]);
            } else if j == p {
                assert(result[i] == sorted[i]);
            } else if i < p {
                assert(result[i] == sorted[i] && result[j] == sorted[j - 1]);
            } else {
                assert(result[j] == sorted[j - 1]);
                law_text_order_is_total(sorted[p].name, last.name);
                if j - 1 > p {
                    assert(text_le(sorted[p].name, sorted[j - 1].name));
                } else {
                    law_text_order_is_total(sorted[p].name, sorted[p].name);
                }
                law_text_order_is_transitive(last.name, sorted[p].name, sorted[j - 1].name);
                if i > p {
                    assert(result[i] == sorted[i - 1]);
                    if i - 1 < j - 1 {
                        assert(text_le(sorted[i - 1].name, sorted[j - 1].name));
                    }
                }
            }
        }
    }
}

} // verus!
