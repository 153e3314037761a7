//! Splitting logical paths into components and joining them back.
use vstd::prelude::*;
use crate::assets::views;
use crate::text::{chars_of, find_from, first_index_from, string_of_range};

verus! {

/// Whether a path segment names an entry: not empty, `.` or `..`.
pub open spec fn is_named_segment(seg: Seq<char>) -> bool {
    seg.len() > 0 && seg != seq!['.'] && seg != seq!['.', '.']
}

/// Whether a segment is kept: a named one, or also `..` where `keep_parent` holds.
pub open spec fn keeps_segment(seg: Seq<char>, keep_parent: bool) -> bool {
    if keep_parent {
        seg.len() > 0 && seg != seq!['.']
    } else {
        is_named_segment(seg)
    }
}

/// The kept segments of `s` from index `start` on, split at `/`.
pub open spec fn segments_from(s: Seq<char>, start: int, keep_parent: bool) -> Seq<Seq<char>>
    decreases s.len() - start,
{
    if start < 0 || start > s.len() {
        seq![]
    } else {
        let j = first_index_from(s, '/', start);
        let found = start <= j < s.len();
        let end = if found { j } else { s.len() as int };
        let seg = s.subrange(start, end);
        let here = if keeps_segment(seg, keep_parent) { seq![seg] } else { seq![] };
        if found {
            here + segments_from(s, j + 1, keep_parent)
        } else {
            here
        }
    }
}

/// The named components of a `/`-separated path.
pub open spec fn components(s: Seq<char>) -> Seq<Seq<char>> {
    segments_from(s, 0, false)
}

/// The segments of a `/`-separated path without empty and `.` segments; `..`
/// stays.
pub open spec fn entries(s: Seq<char>) -> Seq<Seq<char>> {
    segments_from(s, 0, true)
}

/// Segments joined with `/`.
pub open spec fn join_segments(segs: Seq<Seq<char>>) -> Seq<char>
    decreases segs.len(),
{
    if segs.len() == 0 {
        seq![]
    } else if segs.len() == 1 {
        segs[0]
    } else {
        join_segments(segs.drop_last()) + seq!['/'] + segs.last()
    }
}

pub fn is_named_segment_exec(v: &Vec<char>, from: usize, to: usize) -> (r: bool)
    requires
        from <= to <= v@.len(),
    ensures
        r == is_named_segment(v@.subrange(from as int, to as int)),
{
    let ghost seg = v@.subrange(from as int, to as int);
    if from == to {
        return false;
    }
    if to - from == 1 && v[from] == '.' {
        assert(seg =~= seq!['.']);
        return false;
    }
    if to - from == 2 && v[from] == '.' && v[from + 1] == '.' {
        assert(seg =~= seq!['.', '.']);
        return false;
    }
    assert(seg.len() == to - from);
    if to - from == 1 {
        assert(seg[0] == v@[from as int]);
        assert(seg != seq!['.']) by {
            if seg == seq!['.'] {
                assert(seq!['.'][0] == '.');
            }
        }
    }
    if to - from == 2 {
        assert(seg[0] == v@[from as int] && seg[1] == v@[from + 1]);
        assert(seg != seq!['.', '.']) by {
            if seg == seq!['.', '.'] {
                assert(seq!['.', '.'][0] == '.' && seq!['.', '.'][1] == '.');
            }
        }
    }
    true
}

/// The kept segments of a `/`-separated path (see `keeps_segment`).
pub fn split_segments(s: &str, keep_parent: bool) -> (r: Vec<String>)
    ensures
        views(r@) == segments_from(s@, 0, keep_parent),
{
    let v = chars_of(s);
    let mut out: Vec<String> = Vec::new();
    let mut start: usize = 0;
    let n = v.len();
    loop
        invariant
            v@ == s@,
            n == v@.len(),
            start <= v@.len(),
            views(out@) + segments_from(v@, start as int, keep_parent) == segments_from(v@, 0, keep_parent),
        decreases v@.len() - start,
    {
        let ghost before = out@;
        match find_from(&v, '/', start) {
            Some(j) => {
                if keeps_segment_exec(&v, keep_parent, start, j) {
                    out.push(string_of_range(&v, start, j));
                }
                assert(views(out@) + segments_from(v@, j + 1, keep_parent) =~= views(before) + segments_from(v@, start as int, keep_parent));
                start = j + 1;
            },
            None => {
                if keeps_segment_exec(&v, keep_parent, start, v.len()) {
                    out.push(string_of_range(&v, start, v.len()));
                }
                assert(views(out@) =~= views(before) + segments_from(v@, start as int, keep_parent));
                assert(views(out@) =~= segments_from(v@, 0, keep_parent));
                return out;
            },
        }
    }
}

/// The named components of a `/`-separated path.
pub fn split_components(s: &str) -> (r: Vec<String>)
    ensures
        views(r@) == components(s@),
{
    split_segments(s, false)
}

/// The segments of a `/`-separated path without empty and `.` segments.
pub fn split_entries(s: &str) -> (r: Vec<String>)
    ensures
        views(r@) == entries(s@),
{
    split_segments(s, true)
}

fn keeps_segment_exec(v: &Vec<char>, keep_parent: bool, from: usize, to: usize) -> (r: bool)
    requires
        from <= to <= v@.len(),
    ensures
        r == keeps_segment(v@.subrange(from as int, to as int), keep_parent),
{
    if !keep_parent {
        return is_named_segment_exec(v, from, to);
    }
    let ghost seg = v@.subrange(from as int, to as int);
    if from == to {
        return false;
    }
    if to - from == 1 && v[from] == '.' {
        assert(seg =~= seq!['.']);
        return false;
    }
    if to - from == 1 {
        assert(seg[0] == v@[from as int]);
        assert(seg != seq!['.']) by {
            if seg == seq!['.'] {
                assert(seq!['.'][0] == '.');
            }
        }
    } else {
        assert(seg.len() != seq!['.'].len());
    }
    true
}

/// The segments `segs[from..to]` joined with `/`.
pub fn join_range(segs: &Vec<String>, from: usize, to: usize) -> (r: String)
    requires
        from <= to <= segs@.len(),
    ensures
        r@ == join_segments(views(segs@).subrange(from as int, to as int)),
{
    let mut r = String::new();
    let mut i: usize = from;
    while i < to
        invariant
            from <= i <= to <= segs@.len(),
            r@ == join_segments(views(segs@).subrange(from as int, i as int)),
        decreases to - i,
    {
        let ghost prev = views(segs@).subrange(from as int, i as int);
        let ghost next = views(segs@).subrange(from as int, i + 1);
        assert(next.drop_last() =~= prev);
        if i > from {
            r.append("/");
            proof { reveal_strlit("/"); }
        } else {
            assert(prev.len() == 0);
        }
        r.append(segs[i].as_str());
        assert(r@ =~= join_segments(next));
        i += 1;
    }
    assert(r@ == join_segments(views(segs@).subrange(from as int, to as int)));
    r
}

} // verus!
