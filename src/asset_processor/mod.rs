//! Resolving references against the asset roots, and the three expansion phases.
use vstd::prelude::*;
use crate::assets::views;
use crate::text::{chars_of, last_index_before, rfind_before, string_of_range};
use crate::tree::GameTree;


pub mod materials;
pub mod models;
pub mod sounds;

verus! {

/// A path with the extension of its last component replaced by `ext` (added if
/// it has none; a leading dot does not start an extension).
pub open spec fn with_extension(p: Seq<char>, ext: Seq<char>) -> Seq<char> {
    let s = last_index_before(p, '/', p.len() as int);
    let d = last_index_before(p, '.', p.len() as int);
    let stem_end = if d > s + 1 { d } else { p.len() as int };
    p.subrange(0, stem_end) + seq!['.'] + ext
}

/// A path with the extension of its last component replaced by `ext`.
pub fn replace_extension(p: &str, ext: &str) -> (r: String)
    ensures
        r@ == with_extension(p@, ext@),
{
    let v = chars_of(p);
    let n = v.len();
    let s = rfind_before(&v, '/', n);
    let d = rfind_before(&v, '.', n);
    let stem_end: usize = match (s, d) {
        (Some(s), Some(d)) => if d > s + 1 { d } else { n },
        (None, Some(d)) => if d > 0 { d } else { n },
        _ => n,
    };
    proof { crate::text::lemma_last_index_bounds(v@, '.', n as int); }
    let mut r = string_of_range(&v, 0, stem_end);
    r.append(".");
    r.append(ext);
    proof { reveal_strlit("."); }
    assert(r@ =~= with_extension(p@, ext@));
    r
}

/// Whether every root is a node of the tree.
pub open spec fn roots_in(t: GameTree, roots: Seq<usize>) -> bool {
    forall|k: int| 0 <= k < roots.len() ==> roots[k] < t.len()
}

/// The files that the first `m` references resolve to under `dir`, in order; a
/// reference that names a directory gives nothing.
pub open spec fn dir_hits(t: GameTree, dir: int, refs: Seq<Seq<char>>, m: int) -> Seq<usize>
    decreases m,
{
    if m <= 0 {
        seq![]
    } else {
        dir_hits(t, dir, refs, m - 1) + {
            let k = t.resolve(dir, refs[m - 1]);
            if k >= 0 && !t.is_dir(k) {
                seq![k as usize]
            } else {
                seq![]
            }
        }
    }
}

/// The nodes that the references resolve to under the first `n` roots: root by
/// root, then reference by reference.
pub open spec fn all_hits(t: GameTree, roots: Seq<usize>, refs: Seq<Seq<char>>, n: int) -> Seq<usize>
    decreases n,
{
    if n <= 0 {
        seq![]
    } else {
        all_hits(t, roots, refs, n - 1) + dir_hits(t, roots[n - 1] as int, refs, refs.len() as int)
    }
}

/// Resolves every reference under every root; gives the nodes found.
pub fn resolve_all(t: &GameTree, roots: &Vec<usize>, refs: &Vec<String>) -> (r: Vec<usize>)
    requires
        t.wf(),
        roots_in(*t, roots@),
    ensures
        r@ == all_hits(*t, roots@, views(refs@), roots@.len() as int),
        forall|k: int| 0 <= k < r@.len() ==> 0 < r@[k] < t.len() && !t.is_dir(r@[k] as int),
{
    let mut r: Vec<usize> = Vec::new();
    let mut i: usize = 0;
    while i < roots.len()
        invariant
            t.wf(),
            roots_in(*t, roots@),
            i <= roots@.len(),
            r@ == all_hits(*t, roots@, views(refs@), i as int),
            forall|k: int| 0 <= k < r@.len() ==> 0 < r@[k] < t.len() && !t.is_dir(r@[k] as int),
        decreases roots.len() - i,
    {
        let dir = roots[i];
        let ghost before = r@;
        let mut j: usize = 0;
        while j < refs.len()
            invariant
                t.wf(),
                dir < t.len(),
                j <= refs@.len(),
                r@ == before + dir_hits(*t, dir as int, views(refs@), j as int),
                forall|k: int| 0 <= k < r@.len() ==> 0 < r@[k] < t.len() && !t.is_dir(r@[k] as int),
            decreases refs.len() - j,
        {
            if let Some(k) = t.find_asset_case_insensitive(dir, refs[j].as_str()) {
                if !t.node_is_dir(k) {
                    r.push(k);
                }
            }
            assert(views(refs@)[j as int] == refs@[j as int]@);
            assert(r@ =~= before + dir_hits(*t, dir as int, views(refs@), j + 1));
            j += 1;
        }
        assert(r@ =~= all_hits(*t, roots@, views(refs@), i + 1));
        i += 1;
    }
    r
}

} // verus!
