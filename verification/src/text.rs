//! Text primitives on character sequences: trimming, splitting, searching.
//!
//! Every function here is stated over `Seq<char>`, the view of `str` and of
//! `String`.

use vstd::prelude::*;

verus! {

/// The characters of `s`, in order.
pub fn chars_of(s: &str) -> (out: Vec<char>)
    ensures
        out@ == s@,
{
    let mut out: Vec<char> = Vec::new();
    for c in it: s.chars()
        invariant
            out@ == it.seq().take(it.index() as int),
            it.seq() == s@,
    {
        out.push(c);
    }
    out
}

/// The views of a sequence of strings.
pub open spec fn texts(v: Seq<String>) -> Seq<Seq<char>> {
    Seq::new(v.len(), |i: int| v[i]@)
}

/// The number of the character in Unicode.
pub fn char_code(c: char) -> (n: u32)
    ensures
        n == c as int,
{
    c as u32
}

/// Unicode white space, as `char::is_whitespace` has it.
pub open spec fn is_whitespace(c: char) -> bool {
    let n = c as int;
    (0x09 <= n <= 0x0d) || n == 0x20 || n == 0x85 || n == 0xa0 || n == 0x1680 || (0x2000 <= n
        <= 0x200a) || n == 0x2028 || n == 0x2029 || n == 0x202f || n == 0x205f || n == 0x3000
}

/// Whether `c` is Unicode white space.
pub fn whitespace(c: char) -> (r: bool)
    ensures
        r == is_whitespace(c),
{
    let n: u32 = c as u32;
    (0x09 <= n && n <= 0x0d) || n == 0x20 || n == 0x85 || n == 0xa0 || n == 0x1680 || (0x2000 <= n
        && n <= 0x200a) || n == 0x2028 || n == 0x2029 || n == 0x202f || n == 0x205f || n == 0x3000
}

/// `s` without its leading white space.
pub open spec fn trim_start(s: Seq<char>) -> Seq<char>
    decreases s.len(),
{
    if s.len() > 0 && is_whitespace(s[0]) {
        trim_start(s.drop_first())
    } else {
        s
    }
}

/// `s` without its trailing white space.
pub open spec fn trim_end(s: Seq<char>) -> Seq<char>
    decreases s.len(),
{
    if s.len() > 0 && is_whitespace(s.last()) {
        trim_end(s.drop_last())
    } else {
        s
    }
}

/// `s` without leading and trailing white space.
pub open spec fn trim(s: Seq<char>) -> Seq<char> {
    trim_end(trim_start(s))
}

/// Where white space ends at `k`, trimming the start leaves what follows `k`.
pub(crate) proof fn lemma_trim_start(s: Seq<char>, k: int)
    requires
        0 <= k <= s.len(),
        forall|j: int| 0 <= j < k ==> is_whitespace(s[j]),
        k < s.len() ==> !is_whitespace(s[k]),
    ensures
        trim_start(s) == s.skip(k),
    decreases s.len(),
{
    if k == 0 {
        assert(s.skip(0) =~= s);
    } else {
        let t = s.drop_first();
        assert forall|j: int| 0 <= j < k - 1 implies is_whitespace(t[j]) by {
            assert(t[j] == s[j + 1]);
        }
        lemma_trim_start(t, k - 1);
        assert(t.skip(k - 1) =~= s.skip(k));
    }
}

/// Where white space begins at `k`, trimming the end leaves what precedes `k`.
pub(crate) proof fn lemma_trim_end(s: Seq<char>, k: int)
    requires
        0 <= k <= s.len(),
        forall|j: int| k <= j < s.len() ==> is_whitespace(s[j]),
        k > 0 ==> !is_whitespace(s[k - 1]),
    ensures
        trim_end(s) == s.take(k),
    decreases s.len(),
{
    if k == s.len() {
        assert(s.take(k) =~= s);
    } else {
        let t = s.drop_last();
        assert forall|j: int| k <= j < t.len() implies is_whitespace(t[j]) by {
            assert(t[j] == s[j]);
        }
        lemma_trim_end(t, k);
        assert(t.take(k) =~= s.take(k));
    }
}

/// The bounds of the trimmed part of `v[lo..hi]`.
pub(crate) fn trim_range(v: &Vec<char>, lo: usize, hi: usize) -> (r: (usize, usize))
    requires
        lo <= hi <= v.len(),
    ensures
        lo <= r.0 <= r.1 <= hi,
        v@.subrange(r.0 as int, r.1 as int) == trim(v@.subrange(lo as int, hi as int)),
{
    let mut a: usize = lo;
    while a < hi && whitespace(v[a])
        invariant
            lo <= a <= hi <= v.len(),
            forall|j: int| lo <= j < a ==> is_whitespace(v@[j]),
        decreases hi - a,
    {
        a += 1;
    }
    let mut b: usize = hi;
    while b > a && whitespace(v[b - 1])
        invariant
            a <= b <= hi <= v.len(),
            forall|j: int| b <= j < hi ==> is_whitespace(v@[j]),
        decreases b,
    {
        b -= 1;
    }
    proof {
        let s = v@.subrange(lo as int, hi as int);
        lemma_trim_start(s, a - lo);
        let t = s.skip(a - lo);
        assert(t =~= v@.subrange(a as int, hi as int));
        lemma_trim_end(t, b - a);
        assert(t.take(b - a) =~= v@.subrange(a as int, b as int));
    }
    (a, b)
}

/// The position of the first `c` in `s`, or the length of `s` if there is none.
pub open spec fn first_index(s: Seq<char>, c: char) -> int
    decreases s.len(),
{
    if s.len() == 0 || s[0] == c {
        0
    } else {
        1 + first_index(s.drop_first(), c)
    }
}

/// The first `c` is at `k` where none is before `k` and one is at `k`.
pub(crate) proof fn lemma_first_index_found(s: Seq<char>, c: char, k: int)
    requires
        0 <= k <= s.len(),
        forall|j: int| 0 <= j < k ==> s[j] != c,
        k < s.len() ==> s[k] == c,
    ensures
        first_index(s, c) == k,
    decreases s.len(),
{
    if k > 0 {
        let t = s.drop_first();
        assert forall|j: int| 0 <= j < k - 1 implies t[j] != c by {
            assert(t[j] == s[j + 1]);
        }
        lemma_first_index_found(t, c, k - 1);
    }
}

/// Before the first `c` there is none, and where it is found there is one.
pub proof fn law_first_index_is_first(s: Seq<char>, c: char)
    ensures
        0 <= first_index(s, c) <= s.len(),
        forall|j: int| 0 <= j < first_index(s, c) ==> s[j] != c,
        first_index(s, c) < s.len() ==> s[first_index(s, c)] == c,
    decreases s.len(),
{
    if s.len() == 0 || s[0] == c {
    } else {
        let t = s.drop_first();
        law_first_index_is_first(t, c);
        assert forall|j: int| 0 <= j < first_index(s, c) implies s[j] != c by {
            if j > 0 {
                assert(s[j] == t[j - 1]);
            }
        }
        if first_index(s, c) < s.len() {
            assert(s[first_index(s, c)] == t[first_index(t, c)]);
        }
    }
}

/// The position of the first `c` in `v[lo..hi]`, or `hi` if there is none.
pub(crate) fn find_char(v: &Vec<char>, lo: usize, hi: usize, c: char) -> (i: usize)
    requires
        lo <= hi <= v.len(),
    ensures
        lo <= i <= hi,
        i - lo == first_index(v@.subrange(lo as int, hi as int), c),
{
    let mut i: usize = lo;
    while i < hi && v[i] != c
        invariant
            lo <= i <= hi <= v.len(),
            forall|j: int| lo <= j < i ==> v@[j] != c,
        decreases hi - i,
    {
        i += 1;
    }
    proof {
        lemma_first_index_found(v@.subrange(lo as int, hi as int), c, i - lo);
    }
    i
}

/// `s` without leading and trailing white space.
pub fn trimmed(s: &str) -> (r: String)
    ensures
        r@ == trim(s@),
{
    let v = chars_of(s);
    let t = trim_range(&v, 0, v.len());
    proof {
        assert(v@.subrange(0, v.len() as int) =~= v@);
    }
    s.substring_char(t.0, t.1).to_owned()
}

/// The position of the first `c` in `s`, counted in characters, or the
/// number of characters of `s` if there is none.
pub fn position_of_char(s: &str, c: char) -> (r: usize)
    ensures
        r == first_index(s@, c),
{
    let v = chars_of(s);
    proof {
        assert(v@.subrange(0, v.len() as int) =~= v@);
    }
    find_char(&v, 0, v.len(), c)
}

/// The pieces of `s` between occurrences of `sep`; never empty.
pub open spec fn split(s: Seq<char>, sep: char) -> Seq<Seq<char>>
    decreases s.len(),
{
    let i = first_index(s, sep);
    if i < 0 || i >= s.len() {
        seq![s]
    } else {
        seq![s.take(i)] + split(s.skip(i + 1), sep)
    }
}

/// The parts of `s` that the index pairs of `r` cut out.
pub open spec fn pieces(s: Seq<char>, r: Seq<(usize, usize)>) -> Seq<Seq<char>> {
    Seq::new(r.len(), |k: int| s.subrange(r[k].0 as int, r[k].1 as int))
}

/// Each pair of `r` lies within `0..n`.
pub open spec fn ranges_within(r: Seq<(usize, usize)>, n: int) -> bool {
    forall|k: int| 0 <= k < r.len() ==> 0 <= (#[trigger] r[k]).0 <= r[k].1 <= n
}

/// Where the pieces of `v` between occurrences of `sep` begin and end.
pub fn split_ranges(v: &Vec<char>, sep: char) -> (out: Vec<(usize, usize)>)
    ensures
        ranges_within(out@, v.len() as int),
        pieces(v@, out@) == split(v@, sep),
{
    let n = v.len();
    let mut out: Vec<(usize, usize)> = Vec::new();
    let mut start: usize = 0;
    let mut i: usize = 0;
    proof {
        assert(v@.skip(0) =~= v@);
        assert(pieces(v@, out@) + split(v@.skip(0), sep) =~= split(v@, sep));
    }
    while i < n
        invariant
            start <= i <= n == v.len(),
            forall|j: int| start <= j < i ==> v@[j] != sep,
            ranges_within(out@, n as int),
            split(v@, sep) == pieces(v@, out@) + split(v@.skip(start as int), sep),
        decreases n - i,
    {
        if v[i] == sep {
            proof {
                let rest = v@.skip(start as int);
                lemma_first_index_found(rest, sep, i - start);
                assert(rest.take(i - start) =~= v@.subrange(start as int, i as int));
                assert(rest.skip(i - start + 1) =~= v@.skip(i + 1));
                assert(pieces(v@, out@.push((start, i))) =~= pieces(v@, out@).push(
                    v@.subrange(start as int, i as int),
                ));
                assert(pieces(v@, out@).push(v@.subrange(start as int, i as int)) + split(
                    v@.skip(i + 1),
                    sep,
                ) =~= pieces(v@, out@) + (seq![v@.subrange(start as int, i as int)] + split(
                    v@.skip(i + 1),
                    sep,
                )));
            }
            out.push((start, i));
            start = i + 1;
        }
        i += 1;
    }
    proof {
        let rest = v@.skip(start as int);
        lemma_first_index_found(rest, sep, n - start);
        assert(rest =~= v@.subrange(start as int, n as int));
        assert(pieces(v@, out@.push((start, n))) =~= pieces(v@, out@).push(rest));
        assert(pieces(v@, out@).push(rest) =~= pieces(v@, out@) + seq![rest]);
    }
    out.push((start, n));
    out
}

/// `p` stands at the beginning of `s`.
pub open spec fn starts_with(s: Seq<char>, p: Seq<char>) -> bool {
    p.len() <= s.len() && s.take(p.len() as int) == p
}

/// `p` stands in `s` at position `at`.
pub open spec fn occurs_at(s: Seq<char>, p: Seq<char>, at: int) -> bool {
    0 <= at && at + p.len() <= s.len() && s.subrange(at, at + p.len()) == p
}

/// `p` occurs somewhere in `s`.
pub open spec fn contains(s: Seq<char>, p: Seq<char>) -> bool {
    exists|at: int| occurs_at(s, p, at)
}

/// Whether `p` stands in `v` at position `at`.
pub fn matches_at(v: &Vec<char>, p: &Vec<char>, at: usize) -> (r: bool)
    ensures
        r == occurs_at(v@, p@, at as int),
{
    if p.len() > v.len() || at > v.len() - p.len() {
        return false;
    }
    let mut k: usize = 0;
    while k < p.len()
        invariant
            k <= p.len(),
            at + p.len() <= v.len(),
            forall|j: int| 0 <= j < k ==> v@[at + j] == p@[j],
        decreases p.len() - k,
    {
        if v[at + k] != p[k] {
            proof {
                assert(v@.subrange(at as int, at + p.len())[k as int] == v@[at + k]);
            }
            return false;
        }
        k += 1;
    }
    proof {
        assert(v@.subrange(at as int, at + p.len()) =~= p@);
    }
    true
}

/// Whether `v` begins with `p`.
pub fn has_prefix(v: &Vec<char>, p: &Vec<char>) -> (r: bool)
    ensures
        r == starts_with(v@, p@),
{
    let r = matches_at(v, p, 0);
    proof {
        if p.len() <= v.len() {
            assert(v@.subrange(0, 0 + p.len()) =~= v@.take(p.len() as int));
        }
    }
    r
}

/// Whether `p` occurs somewhere in `v`.
pub fn has_substring(v: &Vec<char>, p: &Vec<char>) -> (r: bool)
    ensures
        r == contains(v@, p@),
{
    if p.len() > v.len() {
        return false;
    }
    let last = v.len() - p.len();
    let mut at: usize = 0;
    while at < last
        invariant
            at <= last,
            last == v.len() - p.len(),
            forall|j: int| 0 <= j < at ==> !occurs_at(v@, p@, j),
        decreases last - at,
    {
        if matches_at(v, p, at) {
            return true;
        }
        at += 1;
    }
    matches_at(v, p, last)
}

/// Whether the text `p` occurs somewhere in the text `s`.
pub fn str_contains(s: &str, p: &str) -> (r: bool)
    ensures
        r == contains(s@, p@),
{
    let v = chars_of(s);
    let q = chars_of(p);
    has_substring(&v, &q)
}

/// The trimmed members of `ls` that are not empty, in order.
pub open spec fn keep_nonblank(ls: Seq<Seq<char>>) -> Seq<Seq<char>>
    decreases ls.len(),
{
    if ls.len() == 0 {
        Seq::empty()
    } else if trim(ls.last()).len() == 0 {
        keep_nonblank(ls.drop_last())
    } else {
        keep_nonblank(ls.drop_last()).push(trim(ls.last()))
    }
}

/// The lines of `s`, each trimmed, without the blank ones.
///
/// A line ends at a line feed; a carriage return before it is white space
/// and goes with the trimming.
pub open spec fn trimmed_lines(s: Seq<char>) -> Seq<Seq<char>> {
    keep_nonblank(split(s, '\n'))
}

/// The lines of `s`, each trimmed, without the blank ones.
pub fn nonblank_lines(s: &str) -> (out: Vec<String>)
    ensures
        texts(out@) == trimmed_lines(s@),
        forall|i: int| 0 <= i < out.len() ==> (#[trigger] out[i])@.len() > 0,
{
    let v = chars_of(s);
    let ranges = split_ranges(&v, '\n');
    let ghost all = split(v@, '\n');
    let mut out: Vec<String> = Vec::new();
    let mut k: usize = 0;
    proof {
        assert(all.take(0) =~= Seq::<Seq<char>>::empty());
        assert(texts(out@) =~= keep_nonblank(all.take(0)));
    }
    while k < ranges.len()
        invariant
            k <= ranges.len(),
            v@ == s@,
            all == split(v@, '\n'),
            ranges_within(ranges@, v.len() as int),
            pieces(v@, ranges@) == all,
            texts(out@) == keep_nonblank(all.take(k as int)),
            forall|i: int| 0 <= i < out.len() ==> (#[trigger] out[i])@.len() > 0,
        decreases ranges.len() - k,
    {
        let ab = ranges[k];
        assert(0 <= ranges@[k as int].0 <= ranges@[k as int].1 <= v.len());
        let t = trim_range(&v, ab.0, ab.1);
        proof {
            assert(all.len() == ranges.len());
            assert(all[k as int] == v@.subrange(ab.0 as int, ab.1 as int));
            assert(all.take(k + 1).drop_last() =~= all.take(k as int));
            assert(all.take(k + 1).last() == all[k as int]);
        }
        if t.0 < t.1 {
            let line = s.substring_char(t.0, t.1).to_owned();
            proof {
                assert(texts(out@.push(line)) =~= texts(out@).push(line@));
            }
            out.push(line);
        }
        k += 1;
    }
    proof {
        assert(all.take(k as int) =~= all);
    }
    out
}

/// The code of `c`, with an ASCII capital letter taken as its small letter.
pub open spec fn lower_code(c: char) -> int {
    let n = c as int;
    if 0x41 <= n <= 0x5a {
        n + 32
    } else {
        n
    }
}

/// `a` and `b` are equal but for the case of their ASCII letters.
pub open spec fn eq_ignore_ascii_case(a: Seq<char>, b: Seq<char>) -> bool {
    a.len() == b.len() && forall|i: int| 0 <= i < a.len() ==> lower_code(a[i]) == lower_code(b[i])
}

fn lower(c: char) -> (n: u32)
    ensures
        n == lower_code(c),
{
    let n: u32 = c as u32;
    if 0x41 <= n && n <= 0x5a {
        n + 32
    } else {
        n
    }
}

/// Whether `a` and `b` are equal but for the case of their ASCII letters.
pub fn same_ignoring_ascii_case(a: &Vec<char>, b: &Vec<char>) -> (r: bool)
    ensures
        r == eq_ignore_ascii_case(a@, b@),
{
    if a.len() != b.len() {
        return false;
    }
    let mut i: usize = 0;
    while i < a.len()
        invariant
            i <= a.len() == b.len(),
            forall|j: int| 0 <= j < i ==> lower_code(a@[j]) == lower_code(b@[j]),
        decreases a.len() - i,
    {
        if lower(a[i]) != lower(b[i]) {
            return false;
        }
        i += 1;
    }
    true
}

/// The members of `parts` in a row, with `sep` between each two.
pub open spec fn join(parts: Seq<Seq<char>>, sep: char) -> Seq<char>
    decreases parts.len(),
{
    if parts.len() == 0 {
        Seq::empty()
    } else if parts.len() == 1 {
        parts[0]
    } else {
        parts[0] + seq![sep] + join(parts.drop_first(), sep)
    }
}

/// A text is split into at least one piece, and its pieces joined again
/// give the text.
pub proof fn law_join_undoes_split(s: Seq<char>, sep: char)
    ensures
        split(s, sep).len() >= 1,
        join(split(s, sep), sep) == s,
    decreases s.len(),
{
    law_first_index_is_first(s, sep);
    let i = first_index(s, sep);
    if i < s.len() {
        let rest = s.skip(i + 1);
        law_join_undoes_split(rest, sep);
        let all = seq![s.take(i)] + split(rest, sep);
        assert(all[0] == s.take(i));
        assert(all.drop_first() =~= split(rest, sep));
        assert(s.take(i) + seq![sep] + rest =~= s);
    }
}

} // verus!
