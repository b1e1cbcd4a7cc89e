//! Paths as texts whose segments a `/` parts.

use vstd::prelude::*;
use crate::text::{chars_of, pieces, ranges_within, split, split_ranges, texts};

verus! {

/// The segment names a directory entry: it is not empty, not `.` and not
/// `..`.
pub open spec fn is_normal(segment: Seq<char>) -> bool {
    segment.len() > 0 && segment != seq!['.'] && segment != seq!['.', '.']
}

/// The segment counts when a path is walked: it is not empty and not `.`.
pub open spec fn is_step(segment: Seq<char>) -> bool {
    segment.len() > 0 && segment != seq!['.']
}

/// The last of `segments` that counts, if any does.
pub open spec fn last_step(segments: Seq<Seq<char>>) -> Option<Seq<char>>
    decreases segments.len(),
{
    if segments.len() == 0 {
        None
    } else if is_step(segments.last()) {
        Some(segments.last())
    } else {
        last_step(segments.drop_last())
    }
}

/// The name of what `path` leads to: its last segment that is not empty and
/// not `.`; the empty text where there is none or where it is `..`.
pub open spec fn file_name(path: Seq<char>) -> Seq<char> {
    match last_step(split(path, '/')) {
        Some(segment) if is_normal(segment) => segment,
        _ => Seq::empty(),
    }
}

/// The members of `segments` that name directory entries, in order.
pub open spec fn normal_only(segments: Seq<Seq<char>>) -> Seq<Seq<char>>
    decreases segments.len(),
{
    if segments.len() == 0 {
        Seq::empty()
    } else if is_normal(segments.last()) {
        normal_only(segments.drop_last()).push(segments.last())
    } else {
        normal_only(segments.drop_last())
    }
}

/// The directory entries that `path` names on its way, in order.
pub open spec fn components(path: Seq<char>) -> Seq<Seq<char>> {
    normal_only(split(path, '/'))
}

fn segment_is_step(v: &Vec<char>, lo: usize, hi: usize) -> (r: bool)
    requires
        lo <= hi <= v.len(),
    ensures
        r == is_step(v@.subrange(lo as int, hi as int)),
{
    let ghost s = v@.subrange(lo as int, hi as int);
    if hi - lo == 1 {
        proof {
            assert(s[0] == v@[lo as int]);
            if v@[lo as int] == '.' {
                assert(s =~= seq!['.']);
            } else {
                assert(seq!['.'][0] == '.');
            }
        }
        v[lo] != '.'
    } else {
        proof {
            assert(seq!['.'].len() == 1);
        }
        hi > lo
    }
}

fn segment_is_normal(v: &Vec<char>, lo: usize, hi: usize) -> (r: bool)
    requires
        lo <= hi <= v.len(),
    ensures
        r == is_normal(v@.subrange(lo as int, hi as int)),
{
    let ghost s = v@.subrange(lo as int, hi as int);
    if !segment_is_step(v, lo, hi) {
        return false;
    }
    if hi - lo == 2 {
        proof {
            assert(s[0] == v@[lo as int]);
            assert(s[1] == v@[lo + 1]);
            if v@[lo as int] == '.' && v@[lo + 1] == '.' {
                assert(s =~= seq!['.', '.']);
            } else {
                assert(seq!['.', '.'][0] == '.');
                assert(seq!['.', '.'][1] == '.');
            }
        }
        !(v[lo] == '.' && v[lo + 1] == '.')
    } else {
        proof {
            assert(seq!['.', '.'].len() == 2);
        }
        true
    }
}

/// The name of what `path` leads to.
pub fn display_name(path: &str) -> (r: String)
    ensures
        r@ == file_name(path@),
{
    let v = chars_of(path);
    let ranges = split_ranges(&v, '/');
    let ghost all = split(v@, '/');
    let mut k: usize = ranges.len();
    proof {
        assert(all.take(k as int) =~= all);
    }
    while k > 0
        invariant
            k <= ranges.len(),
            v@ == path@,
            all == split(v@, '/'),
            ranges_within(ranges@, v.len() as int),
            pieces(v@, ranges@) == all,
            last_step(all) == last_step(all.take(k as int)),
        decreases k,
    {
        let ab = ranges[k - 1];
        assert(0 <= ranges@[k - 1].0 <= ranges@[k - 1].1 <= v.len());
        proof {
            assert(all.len() == ranges.len());
            assert(all[k - 1] == v@.subrange(ab.0 as int, ab.1 as int));
            assert(all.take(k as int).last() == all[k - 1]);
            assert(all.take(k as int).drop_last() =~= all.take(k - 1));
        }
        if segment_is_step(&v, ab.0, ab.1) {
            if segment_is_normal(&v, ab.0, ab.1) {
                return path.substring_char(ab.0, ab.1).to_owned();
            } else {
                return String::new();
            }
        }
        k -= 1;
    }
    String::new()
}

/// The directory entries that `path` names on its way, in order.
pub fn normal_components(path: &str) -> (r: Vec<String>)
    ensures
        texts(r@) == components(path@),
{
    let v = chars_of(path);
    let ranges = split_ranges(&v, '/');
    let ghost all = split(v@, '/');
    let mut r: Vec<String> = Vec::new();
    let mut k: usize = 0;
    proof {
        assert(all.take(0) =~= Seq::<Seq<char>>::empty());
        assert(texts(r@) =~= normal_only(all.take(0)));
    }
    while k < ranges.len()
        invariant
            k <= ranges.len(),
            v@ == path@,
            all == split(v@, '/'),
            ranges_within(ranges@, v.len() as int),
            pieces(v@, ranges@) == all,
            texts(r@) == normal_only(all.take(k as int)),
        decreases ranges.len() - k,
    {
        let ab = ranges[k];
        assert(0 <= ranges@[k as int].0 <= ranges@[k as int].1 <= v.len());
        proof {
            assert(all.len() == ranges.len());
            assert(all[k as int] == v@.subrange(ab.0 as int, ab.1 as int));
            assert(all.take(k + 1).last() == all[k as int]);
            assert(all.take(k + 1).drop_last() =~= all.take(k as int));
        }
        if segment_is_normal(&v, ab.0, ab.1) {
            let segment = path.substring_char(ab.0, ab.1).to_owned();
            proof {
                assert(texts(r@.push(segment)) =~= texts(r@).push(segment@));
            }
            r.push(segment);
        }
        k += 1;
    }
    proof {
        assert(all.take(k as int) =~= all);
    }
    r
}

/// The members of `segments` that count when a path is walked, in order.
pub open spec fn steps_only(segments: Seq<Seq<char>>) -> Seq<Seq<char>>
    decreases segments.len(),
{
    if segments.len() == 0 {
        Seq::empty()
    } else if is_step(segments.last()) {
        steps_only(segments.drop_last()).push(segments.last())
    } else {
        steps_only(segments.drop_last())
    }
}

/// The name of the directory that holds what `path` leads to: the last
/// segment but one of those that count, where it names a directory entry.
pub open spec fn parent_name(path: Seq<char>) -> Option<Seq<char>> {
    let steps = steps_only(split(path, '/'));
    if steps.len() >= 2 && is_normal(steps[steps.len() - 2]) {
        Some(steps[steps.len() - 2])
    } else {
        None
    }
}

/// The name of the directory that holds what `path` leads to, if it has
/// one.
pub fn parent_group_name(path: &str) -> (r: Option<String>)
    ensures
        crate::status::opt_text(r) == parent_name(path@),
{
    let v = chars_of(path);
    let ranges = split_ranges(&v, '/');
    let ghost all = split(v@, '/');
    let mut steps: Vec<(usize, usize)> = Vec::new();
    let mut k: usize = 0;
    proof {
        assert(all.take(0) =~= Seq::<Seq<char>>::empty());
        assert(pieces(v@, steps@) =~= steps_only(all.take(0)));
    }
    while k < ranges.len()
        invariant
            k <= ranges.len(),
            v@ == path@,
            all == split(v@, '/'),
            ranges_within(ranges@, v.len() as int),
            ranges_within(steps@, v.len() as int),
            pieces(v@, ranges@) == all,
            pieces(v@, steps@) == steps_only(all.take(k as int)),
        decreases ranges.len() - k,
    {
        let ab = ranges[k];
        assert(0 <= ranges@[k as int].0 <= ranges@[k as int].1 <= v.len());
        proof {
            assert(all.len() == ranges.len());
            assert(all[k as int] == v@.subrange(ab.0 as int, ab.1 as int));
            assert(all.take(k + 1).last() == all[k as int]);
            assert(all.take(k + 1).drop_last() =~= all.take(k as int));
        }
        if segment_is_step(&v, ab.0, ab.1) {
            proof {
                assert(pieces(v@, steps@.push(ab)) =~= pieces(v@, steps@).push(
                    v@.subrange(ab.0 as int, ab.1 as int),
                ));
            }
            steps.push(ab);
        }
        k += 1;
    }
    proof {
        assert(all.take(k as int) =~= all);
        assert(pieces(v@, steps@).len() == steps.len());
    }
    if steps.len() < 2 {
        return None;
    }
    let ab = steps[steps.len() - 2];
    assert(0 <= steps@[steps.len() - 2].0 <= steps@[steps.len() - 2].1 <= v.len());
    proof {
        assert(pieces(v@, steps@)[steps.len() - 2] == v@.subrange(ab.0 as int, ab.1 as int));
    }
    if segment_is_normal(&v, ab.0, ab.1) {
        Some(path.substring_char(ab.0, ab.1).to_owned())
    } else {
        None
    }
}

} // verus!
