//! Where each resolved file goes in the output tree.
use vstd::prelude::*;
use crate::assets::views;
use crate::text::{chars_of, eq_chars};
use crate::path::{components, join_range, join_segments, split_components};

verus! {

/// The first index from `i` on whose segment is `base`, or -1.
pub open spec fn first_segment(segs: Seq<Seq<char>>, base: Seq<char>, i: int) -> int
    decreases segs.len() - i,
{
    if i < 0 || i >= segs.len() {
        -1
    } else if segs[i] == base {
        i
    } else {
        first_segment(segs, base, i + 1)
    }
}

/// The destination of a file below the output root: its path from the first
/// component that is exactly `base` on; none where no component is.
pub open spec fn destination(p: Seq<char>, base: Seq<char>) -> Option<Seq<char>> {
    let segs = components(p);
    let j = first_segment(segs, base, 0);
    if j < 0 {
        None
    } else {
        Some(join_segments(segs.subrange(j, segs.len() as int)))
    }
}

/// The destination of the file at `path` below the output root (see
/// `destination`).
pub fn destination_of(path: &str, base: &str) -> (r: Option<String>)
    ensures
        match r {
            Some(d) => destination(path@, base@) == Some(d@),
            None => destination(path@, base@) is None,
        },
{
    let segs = split_components(path);
    let ghost cs = components(path@);
    let b = chars_of(base);
    let mut j: usize = 0;
    while j < segs.len()
        invariant
            b@ == base@,
            views(segs@) == cs,
            cs == components(path@),
            j <= segs@.len(),
            first_segment(cs, base@, 0) == first_segment(cs, base@, j as int),
        decreases segs.len() - j,
    {
        if eq_chars(&chars_of(segs[j].as_str()), &b) {
            assert(cs[j as int] == base@);
            return Some(join_range(&segs, j, segs.len()));
        }
        assert(cs[j as int] != base@);
        j += 1;
    }
    None
}

/// The first `n` nodes of `v` without repeats, each where it first occurs.
pub open spec fn first_occurrences(v: Seq<usize>, n: int) -> Seq<usize>
    decreases n,
{
    if n <= 0 {
        seq![]
    } else {
        let p = first_occurrences(v, n - 1);
        if p.contains(v[n - 1]) {
            p
        } else {
            p.push(v[n - 1])
        }
    }
}

/// The nodes of `v` without repeats, each where it first occurs.
pub fn dedup_nodes(v: &Vec<usize>) -> (r: Vec<usize>)
    ensures
        r@ == first_occurrences(v@, v@.len() as int),
        r@.no_duplicates(),
        r@.to_set() == v@.to_set(),
{
    let mut r: Vec<usize> = Vec::new();
    let mut i: usize = 0;
    while i < v.len()
        invariant
            i <= v@.len(),
            r@.no_duplicates(),
            r@ == first_occurrences(v@, i as int),
            r@.to_set() == v@.take(i as int).to_set(),
        decreases v.len() - i,
    {
        let x = v[i];
        let mut found = false;
        let mut k: usize = 0;
        while k < r.len()
            invariant
                k <= r@.len(),
                found == exists|j: int| 0 <= j < k && r@[j] == x,
            decreases r.len() - k,
        {
            if r[k] == x {
                found = true;
            }
            k += 1;
        }
        assert(found == r@.contains(x)) by {
            if r@.contains(x) {
                let j = choose|j: int| 0 <= j < r@.len() && r@[j] == x;
                assert(0 <= j < k);
            }
        }
        assert(v@.take(i + 1) =~= v@.take(i as int).push(x));
        proof { v@.take(i as int).lemma_push_to_set_commute(x); }
        if !found {
            proof { r@.lemma_push_to_set_commute(x); }
            r.push(x);
        } else {
            assert(r@.contains(x));
            assert(r@.to_set().insert(x) =~= r@.to_set());
        }
        i += 1;
    }
    assert(v@.take(v@.len() as int) =~= v@);
    r
}

} // verus!
