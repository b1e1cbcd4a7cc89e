//! The status of one repository, read from what git printed.

use vstd::prelude::*;
use crate::command::{CommandOutcome, OutcomeView};
use crate::digits::{parse_count, parse_usize};
use crate::text::{
    chars_of, contains, find_char, first_index, has_prefix, has_substring, nonblank_lines,
    starts_with, texts, trim, trim_range, trimmed_lines,
};

verus! {

/// The last known state of a repository.
#[derive(Debug)]
pub struct GitInfo {
    /// The branch that is checked out, if any.
    pub current_branch: Option<String>,
    /// Local branches, then the remote ones that no local branch stands for.
    pub branches: Vec<String>,
    /// Commits of the current branch that its remote counterpart lacks.
    pub ahead: usize,
    /// Commits of the remote counterpart that the current branch lacks.
    pub behind: usize,
    /// The working tree or the index holds a modification.
    pub has_changes: bool,
}

/// A `GitInfo` with its texts as character sequences.
pub struct GitInfoView {
    pub current_branch: Option<Seq<char>>,
    pub branches: Seq<Seq<char>>,
    pub ahead: nat,
    pub behind: nat,
    pub has_changes: bool,
}

/// The view of an optional text.
pub open spec fn opt_text(s: Option<String>) -> Option<Seq<char>> {
    match s {
        Some(t) => Some(t@),
        None => None,
    }
}

impl GitInfoView {
    /// The status of a repository of which nothing is known yet.
    pub open spec fn empty() -> GitInfoView {
        GitInfoView {
            current_branch: None,
            branches: Seq::empty(),
            ahead: 0,
            behind: 0,
            has_changes: false,
        }
    }

    /// Without a current branch nothing is ahead or behind.
    pub open spec fn well_formed(self) -> bool {
        self.current_branch is None ==> self.ahead == 0 && self.behind == 0
    }
}

impl View for GitInfo {
    type V = GitInfoView;

    open spec fn view(&self) -> GitInfoView {
        GitInfoView {
            current_branch: opt_text(self.current_branch),
            branches: texts(self.branches@),
            ahead: self.ahead as nat,
            behind: self.behind as nat,
            has_changes: self.has_changes,
        }
    }
}

/// A copy of a list of texts.
pub fn clone_texts(v: &Vec<String>) -> (r: Vec<String>)
    ensures
        texts(r@) == texts(v@),
{
    let mut r: Vec<String> = Vec::new();
    let mut i: usize = 0;
    while i < v.len()
        invariant
            i <= v.len(),
            texts(r@) == texts(v@).take(i as int),
        decreases v.len() - i,
    {
        let s = v[i].clone();
        proof {
            assert(texts(v@)[i as int] == s@);
            assert(texts(r@.push(s)) =~= texts(r@).push(s@));
            assert(texts(v@).take(i as int).push(s@) =~= texts(v@).take(i + 1));
        }
        r.push(s);
        i += 1;
    }
    proof {
        assert(texts(v@).take(i as int) =~= texts(v@));
    }
    r
}

/// A copy of an optional text.
pub fn clone_opt_text(s: &Option<String>) -> (r: Option<String>)
    ensures
        opt_text(r) == opt_text(*s),
{
    match s {
        Some(t) => Some(t.clone()),
        None => None,
    }
}

impl Default for GitInfo {
    fn default() -> (r: GitInfo)
        ensures
            r@ == GitInfoView::empty(),
    {
        let r = GitInfo {
            current_branch: None,
            branches: Vec::new(),
            ahead: 0,
            behind: 0,
            has_changes: false,
        };
        assert(texts(r.branches@) =~= Seq::<Seq<char>>::empty());
        r
    }
}

impl Clone for GitInfo {
    fn clone(&self) -> (r: GitInfo)
        ensures
            r@ == self@,
    {
        GitInfo {
            current_branch: clone_opt_text(&self.current_branch),
            branches: clone_texts(&self.branches),
            ahead: self.ahead,
            behind: self.behind,
            has_changes: self.has_changes,
        }
    }
}

/// The branch that `git branch --show-current` printed: its trimmed
/// output, or none where that is empty.
pub open spec fn branch_of(stdout: Seq<char>) -> Option<Seq<char>> {
    if trim(stdout).len() == 0 {
        None
    } else {
        Some(trim(stdout))
    }
}

/// The branch that `git branch --show-current` printed.
pub fn parse_current_branch(stdout: &str) -> (r: Option<String>)
    ensures
        opt_text(r) == branch_of(stdout@),
{
    let v = chars_of(stdout);
    let t = trim_range(&v, 0, v.len());
    proof {
        assert(v@.subrange(0, v.len() as int) =~= v@);
    }
    if t.0 < t.1 {
        Some(stdout.substring_char(t.0, t.1).to_owned())
    } else {
        None
    }
}

/// The remotes that `git remote` listed, one to a line; the single name
/// `origin` where it failed or listed none.
pub open spec fn remotes_of(outcome: OutcomeView) -> Seq<Seq<char>> {
    if trimmed_lines(outcome.data()).len() == 0 {
        seq!["origin"@]
    } else {
        trimmed_lines(outcome.data())
    }
}

/// The remotes that `git remote` listed.
pub fn get_remotes(outcome: &CommandOutcome) -> (r: Vec<String>)
    ensures
        texts(r@) == remotes_of(outcome@),
        r.len() > 0,
{
    let mut r = nonblank_lines(outcome.data());
    if r.len() == 0 {
        r.push("origin".to_owned());
        assert(texts(r@) =~= seq!["origin"@]);
    }
    assert(texts(r@).len() == r.len());
    r
}

/// `list`, with `name` at its end unless it is there already.
pub open spec fn with_new(list: Seq<Seq<char>>, name: Seq<char>) -> Seq<Seq<char>> {
    if list.contains(name) {
        list
    } else {
        list.push(name)
    }
}

/// The local branch that a line of `git branch -a` names: the rest of a line
/// marked with `* ` as current, or a whole line that does not begin with
/// `remotes/`.
pub open spec fn local_name(line: Seq<char>) -> Option<Seq<char>> {
    if starts_with(line, "* "@) {
        Some(line.skip(2))
    } else if starts_with(line, "remotes/"@) {
        None
    } else {
        Some(line)
    }
}

/// The line names a remote branch: it begins with `remotes/`, is not marked
/// as current and does not hold `HEAD`.
pub open spec fn is_remote_line(line: Seq<char>) -> bool {
    !starts_with(line, "* "@) && starts_with(line, "remotes/"@) && !contains(line, "HEAD"@)
}

/// The local branches among the lines, each once, in their order.
pub open spec fn local_branches(lines: Seq<Seq<char>>) -> Seq<Seq<char>>
    decreases lines.len(),
{
    if lines.len() == 0 {
        Seq::empty()
    } else {
        match local_name(lines.last()) {
            Some(name) => with_new(local_branches(lines.drop_last()), name),
            None => local_branches(lines.drop_last()),
        }
    }
}

/// The remote branches among the lines, in their order.
pub open spec fn remote_branches(lines: Seq<Seq<char>>) -> Seq<Seq<char>>
    decreases lines.len(),
{
    if lines.len() == 0 {
        Seq::empty()
    } else if is_remote_line(lines.last()) {
        remote_branches(lines.drop_last()).push(lines.last())
    } else {
        remote_branches(lines.drop_last())
    }
}

/// Whether `list` holds the text `name`.
pub fn holds(list: &Vec<String>, name: &String) -> (r: bool)
    ensures
        r == texts(list@).contains(name@),
{
    let mut i: usize = 0;
    while i < list.len()
        invariant
            i <= list.len(),
            forall|j: int| 0 <= j < i ==> texts(list@)[j] != name@,
        decreases list.len() - i,
    {
        if list[i] == *name {
            assert(texts(list@)[i as int] == name@);
            return true;
        }
        i += 1;
    }
    false
}

/// The branches that `git branch -a` listed, local and remote apart.
pub struct BranchListing {
    pub local: Vec<String>,
    pub remote: Vec<String>,
}

/// Sorts the lines of `git branch -a` into local and remote branches.
pub fn parse_branch_listing(stdout: &str) -> (r: BranchListing)
    ensures
        texts(r.local@) == local_branches(trimmed_lines(stdout@)),
        texts(r.remote@) == remote_branches(trimmed_lines(stdout@)),
{
    let lines = nonblank_lines(stdout);
    let ghost all = texts(lines@);
    let star = chars_of("* ");
    let remotes_prefix = chars_of("remotes/");
    let head = chars_of("HEAD");
    let mut local: Vec<String> = Vec::new();
    let mut remote: Vec<String> = Vec::new();
    let mut i: usize = 0;
    proof {
        reveal_strlit("* ");
        assert(all.take(0) =~= Seq::<Seq<char>>::empty());
        assert(texts(local@) =~= local_branches(all.take(0)));
        assert(texts(remote@) =~= remote_branches(all.take(0)));
    }
    while i < lines.len()
        invariant
            i <= lines.len(),
            all == texts(lines@),
            star@ == "* "@,
            star@.len() == 2,
            remotes_prefix@ == "remotes/"@,
            head@ == "HEAD"@,
            texts(local@) == local_branches(all.take(i as int)),
            texts(remote@) == remote_branches(all.take(i as int)),
        decreases lines.len() - i,
    {
        let line = &lines[i];
        let v = chars_of(line.as_str());
        proof {
            assert(all[i as int] == line@);
            assert(all.take(i + 1).drop_last() =~= all.take(i as int));
            assert(all.take(i + 1).last() == line@);
        }
        if has_prefix(&v, &star) {
            let name = line.as_str().substring_char(2, v.len()).to_owned();
            proof {
                assert(name@ =~= line@.skip(2));
            }
            if !holds(&local, &name) {
                proof {
                    assert(texts(local@.push(name)) =~= texts(local@).push(name@));
                }
                local.push(name);
            }
        } else if has_prefix(&v, &remotes_prefix) {
            if !has_substring(&v, &head) {
                let name = line.clone();
                proof {
                    assert(texts(remote@.push(name)) =~= texts(remote@).push(name@));
                }
                remote.push(name);
            }
        } else {
            let name = line.clone();
            if !holds(&local, &name) {
                proof {
                    assert(texts(local@.push(name)) =~= texts(local@).push(name@));
                }
                local.push(name);
            }
        }
        i += 1;
    }
    proof {
        assert(all.take(i as int) =~= all);
    }
    BranchListing { local, remote }
}

/// The beginning of a branch of `remote` as `git branch -a` prints it.
pub open spec fn remote_prefix(remote: Seq<char>) -> Seq<char> {
    "remotes/"@ + remote + "/"@
}

/// `branch` is a branch of `remote` whose name a local branch bears.
pub open spec fn tracks_local(branch: Seq<char>, remote: Seq<char>, local: Seq<Seq<char>>) -> bool {
    starts_with(branch, remote_prefix(remote)) && local.contains(
        branch.skip(remote_prefix(remote).len() as int),
    )
}

/// `branch` is a branch of one of `remotes` whose name a local branch bears.
pub open spec fn shadowed(
    branch: Seq<char>,
    remotes: Seq<Seq<char>>,
    local: Seq<Seq<char>>,
) -> bool {
    exists|k: int| 0 <= k < remotes.len() && tracks_local(branch, #[trigger] remotes[k], local)
}

/// `list`, followed by the members of `remote` that no local branch stands
/// for and that are not in the list yet.
pub open spec fn with_visible(
    list: Seq<Seq<char>>,
    remote: Seq<Seq<char>>,
    remotes: Seq<Seq<char>>,
    local: Seq<Seq<char>>,
) -> Seq<Seq<char>>
    decreases remote.len(),
{
    if remote.len() == 0 {
        list
    } else if shadowed(remote.last(), remotes, local) {
        with_visible(list, remote.drop_last(), remotes, local)
    } else {
        with_new(with_visible(list, remote.drop_last(), remotes, local), remote.last())
    }
}

/// The branches to show: the local ones, then the remote ones that no local
/// branch stands for; none twice.
pub open spec fn merged_branches(
    local: Seq<Seq<char>>,
    remote: Seq<Seq<char>>,
    remotes: Seq<Seq<char>>,
) -> Seq<Seq<char>> {
    with_visible(local, remote, remotes, local)
}

/// Whether `branch` is a branch of `remote` whose name a local branch bears.
fn branch_tracks_local(branch: &String, remote: &String, local: &Vec<String>) -> (r: bool)
    ensures
        r == tracks_local(branch@, remote@, texts(local@)),
{
    let prefix = "remotes/".to_owned().concat(remote.as_str()).concat("/");
    let p = chars_of(prefix.as_str());
    let v = chars_of(branch.as_str());
    if has_prefix(&v, &p) {
        let name = branch.as_str().substring_char(p.len(), v.len()).to_owned();
        proof {
            assert(name@ =~= branch@.skip(p.len() as int));
        }
        holds(local, &name)
    } else {
        false
    }
}

/// Whether `branch` is a branch of one of `remotes` whose name a local
/// branch bears.
fn branch_shadowed(branch: &String, remotes: &Vec<String>, local: &Vec<String>) -> (r: bool)
    ensures
        r == shadowed(branch@, texts(remotes@), texts(local@)),
{
    let mut k: usize = 0;
    while k < remotes.len()
        invariant
            k <= remotes.len(),
            forall|j: int|
                0 <= j < k ==> !tracks_local(branch@, #[trigger] texts(remotes@)[j], texts(local@)),
        decreases remotes.len() - k,
    {
        if branch_tracks_local(branch, &remotes[k], local) {
            assert(texts(remotes@)[k as int] == remotes@[k as int]@);
            return true;
        }
        assert(texts(remotes@)[k as int] == remotes@[k as int]@);
        k += 1;
    }
    false
}

/// The branches to show: the local ones, then the remote ones that no local
/// branch stands for; none twice.
pub fn merge_branches(listing: &BranchListing, remotes: &Vec<String>) -> (r: Vec<String>)
    ensures
        texts(r@) == merged_branches(
            texts(listing.local@),
            texts(listing.remote@),
            texts(remotes@),
        ),
{
    let mut r = clone_texts(&listing.local);
    let ghost local = texts(listing.local@);
    let ghost remote = texts(listing.remote@);
    let ghost names = texts(remotes@);
    let mut i: usize = 0;
    proof {
        assert(remote.take(0) =~= Seq::<Seq<char>>::empty());
    }
    while i < listing.remote.len()
        invariant
            i <= listing.remote.len(),
            local == texts(listing.local@),
            remote == texts(listing.remote@),
            names == texts(remotes@),
            texts(r@) == with_visible(local, remote.take(i as int), names, local),
        decreases listing.remote.len() - i,
    {
        let branch = &listing.remote[i];
        proof {
            assert(remote[i as int] == branch@);
            assert(remote.take(i + 1).drop_last() =~= remote.take(i as int));
            assert(remote.take(i + 1).last() == branch@);
        }
        if !branch_shadowed(branch, remotes, &listing.local) {
            if !holds(&r, branch) {
                let name = branch.clone();
                proof {
                    assert(texts(r@.push(name)) =~= texts(r@).push(name@));
                }
                r.push(name);
            }
        }
        i += 1;
    }
    proof {
        assert(remote.take(i as int) =~= remote);
    }
    r
}

/// Whether `git status --porcelain` reported anything.
pub open spec fn changes_of(outcome: OutcomeView) -> bool {
    outcome.data().len() > 0
}

/// Whether `git status --porcelain` reported anything.
pub fn parse_has_changes(outcome: &CommandOutcome) -> (r: bool)
    ensures
        r == changes_of(outcome@),
{
    outcome.data().unicode_len() > 0
}

/// The number that `s` writes, or zero where it writes none that fits.
pub open spec fn count_or_zero(s: Seq<char>) -> nat {
    match parse_count(s) {
        Some(n) => n as nat,
        None => 0,
    }
}

/// The two counts that `git rev-list --count --left-right` printed, parted
/// by a tab: commits ahead, then commits behind. Zero for a count that does
/// not parse, and for both where the command failed or printed no tab.
pub open spec fn counts_of(outcome: OutcomeView) -> (nat, nat) {
    let t = trim(outcome.data());
    let tab = first_index(t, '\t');
    if 0 <= tab < t.len() {
        (count_or_zero(t.take(tab)), count_or_zero(t.skip(tab + 1)))
    } else {
        (0, 0)
    }
}

/// The two counts that `git rev-list --count --left-right` printed.
pub fn parse_ahead_behind(outcome: &CommandOutcome) -> (r: (usize, usize))
    ensures
        (r.0 as nat, r.1 as nat) == counts_of(outcome@),
{
    let v = chars_of(outcome.data());
    let t = trim_range(&v, 0, v.len());
    let tab = find_char(&v, t.0, t.1, '\t');
    proof {
        assert(v@.subrange(0, v.len() as int) =~= v@);
        let s = v@.subrange(t.0 as int, t.1 as int);
        assert(s.take(tab - t.0) =~= v@.subrange(t.0 as int, tab as int));
        if tab < t.1 {
            assert(s.skip(tab - t.0 + 1) =~= v@.subrange(tab + 1, t.1 as int));
        }
    }
    if tab < t.1 {
        let ahead = match parse_usize(&v, t.0, tab) {
            Some(n) => n,
            None => 0,
        };
        let behind = match parse_usize(&v, tab + 1, t.1) {
            Some(n) => n,
            None => 0,
        };
        (ahead, behind)
    } else {
        (0, 0)
    }
}

proof fn lemma_with_new_distinct(list: Seq<Seq<char>>, name: Seq<char>)
    requires
        list.no_duplicates(),
    ensures
        with_new(list, name).no_duplicates(),
        list.is_prefix_of(with_new(list, name)),
{
    if !list.contains(name) {
        let grown = list.push(name);
        assert forall|i: int, j: int| 0 <= i < grown.len() && 0 <= j < grown.len() && i
            != j implies grown[i] != grown[j] by {
            if i < list.len() && j < list.len() {
                assert(list[i] != list[j]);
            } else if i < list.len() {
                assert(list.contains(list[i]));
            } else {
                assert(list.contains(list[j]));
            }
        }
    }
}

proof fn lemma_local_distinct(lines: Seq<Seq<char>>)
    ensures
        local_branches(lines).no_duplicates(),
    decreases lines.len(),
{
    if lines.len() > 0 {
        lemma_local_distinct(lines.drop_last());
        match local_name(lines.last()) {
            Some(name) => {
                lemma_with_new_distinct(local_branches(lines.drop_last()), name);
            },
            None => {},
        }
    }
}

proof fn lemma_with_visible_distinct(
    list: Seq<Seq<char>>,
    remote: Seq<Seq<char>>,
    remotes: Seq<Seq<char>>,
    local: Seq<Seq<char>>,
)
    requires
        list.no_duplicates(),
    ensures
        with_visible(list, remote, remotes, local).no_duplicates(),
        list.is_prefix_of(with_visible(list, remote, remotes, local)),
        forall|k: int|
            list.len() <= k < with_visible(list, remote, remotes, local).len() ==> !shadowed(
                #[trigger] with_visible(list, remote, remotes, local)[k],
                remotes,
                local,
            ),
    decreases remote.len(),
{
    if remote.len() > 0 {
        let before = with_visible(list, remote.drop_last(), remotes, local);
        lemma_with_visible_distinct(list, remote.drop_last(), remotes, local);
        if !shadowed(remote.last(), remotes, local) {
            lemma_with_new_distinct(before, remote.last());
            let after = with_new(before, remote.last());
            assert forall|k: int| list.len() <= k < after.len() implies !shadowed(
                #[trigger] after[k],
                remotes,
                local,
            ) by {
                if k < before.len() {
                    assert(after[k] == before[k]);
                }
            }
        }
    }
}

/// The list of branches holds the local branches first, in their order, and
/// no branch twice; and none of the remote branches that follow bears the
/// name of a local branch at one of the remotes.
pub proof fn law_branches_are_distinct(lines: Seq<Seq<char>>, remotes: Seq<Seq<char>>)
    ensures
        local_branches(lines).no_duplicates(),
        merged_branches(local_branches(lines), remote_branches(lines), remotes).no_duplicates(),
        local_branches(lines).is_prefix_of(
            merged_branches(local_branches(lines), remote_branches(lines), remotes),
        ),
        forall|k: int|
            local_branches(lines).len() <= k < merged_branches(
                local_branches(lines),
                remote_branches(lines),
                remotes,
            ).len() ==> !shadowed(
                #[trigger] merged_branches(
                    local_branches(lines),
                    remote_branches(lines),
                    remotes,
                )[k],
                remotes,
                local_branches(lines),
            ),
{
    lemma_local_distinct(lines);
    lemma_with_visible_distinct(
        local_branches(lines),
        remote_branches(lines),
        remotes,
        local_branches(lines),
    );
}

} // verus!
