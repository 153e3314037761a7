//! Model references: the model file, its sidecar files, and the materials that
//! its texture definitions name.
use vstd::prelude::*;
use crate::asset_processor::{all_hits, resolve_all, roots_in, with_extension, replace_extension};
use crate::assets::{normal_set, views, UniqueAssets};
use crate::text::ends_with;
use crate::tree::GameTree;

verus! {

/// One texture definition of a compiled model: a material name and the folders
/// it is searched in, in order.
pub struct TextureDef {
    pub name: String,
    pub search_paths: Vec<String>,
}

/// The extensions of the files that accompany a model file.
pub open spec fn sidecar_extensions() -> Seq<Seq<char>> {
    seq!["vtx"@, "dx90.vtx"@, "dx80.vtx"@, "sw.vtx"@, "vvd"@, "phy"@, "ani"@]
}

/// The material reference that a search folder and a texture name give.
pub open spec fn join_ref(prefix: Seq<char>, name: Seq<char>) -> Seq<char> {
    if prefix.len() == 0 {
        name
    } else if prefix.last() == '/' || prefix.last() == '\\' {
        prefix + name
    } else {
        prefix + seq!['/'] + name
    }
}

/// The material references of one texture definition, over its first `n` folders.
pub open spec fn def_refs(d: TextureDef, n: int) -> Seq<Seq<char>>
    decreases n,
{
    if n <= 0 {
        seq![]
    } else {
        def_refs(d, n - 1) + seq![join_ref(d.search_paths@[n - 1]@, d.name@)]
    }
}

/// The material references of the first `n` texture definitions.
pub open spec fn defs_refs(ds: Seq<TextureDef>, n: int) -> Seq<Seq<char>>
    decreases n,
{
    if n <= 0 {
        seq![]
    } else {
        defs_refs(ds, n - 1) + def_refs(ds[n - 1], ds[n - 1].search_paths@.len() as int)
    }
}

/// The sidecar files of model node `k` among its siblings, for the first `n`
/// extensions: each one whose exact name is the model's name with that extension.
pub open spec fn sidecar_hits(t: GameTree, k: int, n: int) -> Seq<usize>
    decreases n,
{
    if n <= 0 {
        seq![]
    } else {
        sidecar_hits(t, k, n - 1) + {
            let e = t.find_exact(
                t.children(t.parent(k)),
                0,
                with_extension(t.name(k), sidecar_extensions()[n - 1]),
            );
            if e >= 0 {
                seq![e as usize]
            } else {
                seq![]
            }
        }
    }
}

/// The material reference that a search folder and a texture name give.
pub fn join_material(prefix: &str, name: &str) -> (r: String)
    ensures
        r@ == join_ref(prefix@, name@),
{
    let v = crate::text::chars_of(prefix);
    let n = v.len();
    let mut r = prefix.to_string();
    if n == 0 {
        return name.to_string();
    }
    if v[n - 1] != '/' && v[n - 1] != '\\' {
        r.append("/");
        proof { reveal_strlit("/"); }
    }
    r.append(name);
    assert(r@ =~= join_ref(prefix@, name@));
    r
}

/// Adds the material references of the texture definitions to `u`.
pub fn add_texture_materials(u_assets: &mut UniqueAssets, defs: &Vec<TextureDef>)
    requires
        old(u_assets).wf(),
    ensures
        final(u_assets).wf(),
        final(u_assets).material_set() == old(u_assets).material_set() + normal_set(
            defs_refs(defs@, defs@.len() as int),
        ),
        final(u_assets).models() == old(u_assets).models(),
        final(u_assets).sounds() == old(u_assets).sounds(),
{
    let mut refs: Vec<String> = Vec::new();
    let mut i: usize = 0;
    while i < defs.len()
        invariant
            i <= defs@.len(),
            views(refs@) == defs_refs(defs@, i as int),
        decreases defs.len() - i,
    {
        let d = &defs[i];
        let ghost before = views(refs@);
        let mut j: usize = 0;
        while j < d.search_paths.len()
            invariant
                j <= d.search_paths@.len(),
                views(refs@) == before + def_refs(*d, j as int),
            decreases d.search_paths.len() - j,
        {
            let m = join_material(d.search_paths[j].as_str(), d.name.as_str());
            let ghost r0 = refs@;
            refs.push(m);
            assert(views(refs@) =~= views(r0).push(m@));
            assert(m@ == join_ref(d.search_paths@[j as int]@, d.name@));
            assert(views(refs@) =~= before + def_refs(*d, j + 1));
            j += 1;
        }
        assert(views(refs@) =~= defs_refs(defs@, i + 1));
        i += 1;
    }
    u_assets.insert_materials(&refs);
}

/// The nodes of the model files that the model references name under the roots.
pub fn locate(u_assets: &UniqueAssets, tree: &GameTree, models_dirs: &Vec<usize>) -> (r: Vec<usize>)
    requires
        tree.wf(),
        roots_in(*tree, models_dirs@),
    ensures
        r@ == all_hits(*tree, models_dirs@, u_assets.models(), models_dirs@.len() as int),
        forall|k: int| 0 <= k < r@.len() ==> 0 < r@[k] < tree.len() && !tree.is_dir(r@[k] as int),
{
    resolve_all(tree, models_dirs, u_assets.models_name())
}

/// The sidecar files beside model node `k`, in the order of the extensions.
pub fn sidecars(tree: &GameTree, k: usize) -> (r: Vec<usize>)
    requires
        tree.wf(),
        0 < k < tree.len(),
    ensures
        r@ == sidecar_hits(*tree, k as int, 7),
        forall|j: int| 0 <= j < r@.len() ==> r@[j] < tree.len(),
{
    let exts: Vec<&str> = vec!["vtx", "dx90.vtx", "dx80.vtx", "sw.vtx", "vvd", "phy", "ani"];
    assert(exts@.len() == 7);
    let name = tree.name_of(k);
    let parent = tree.parent_of(k);
    let mut r: Vec<usize> = Vec::new();
    let mut i: usize = 0;
    while i < 7
        invariant
            tree.wf(),
            0 < k < tree.len(),
            parent as int == tree.parent(k as int),
            parent < tree.len(),
            name@ == tree.name(k as int),
            exts@.len() == 7,
            forall|j: int| 0 <= j < 7 ==> #[trigger] exts@[j]@ == sidecar_extensions()[j],
            i <= 7,
            r@ == sidecar_hits(*tree, k as int, i as int),
            forall|j: int| 0 <= j < r@.len() ==> r@[j] < tree.len(),
        decreases 7 - i,
    {
        let file = replace_extension(name.as_str(), exts[i]);
        if let Some(e) = tree.find_exact_exec(parent, &file) {
            r.push(e);
        }
        assert(r@ =~= sidecar_hits(*tree, k as int, i + 1));
        i += 1;
    }
    r
}

/// The files of model node `k`: its sidecar files, then the model file itself.
/// The materials that its texture definitions name join `u`.
pub fn process(u_assets: &mut UniqueAssets, tree: &GameTree, k: usize, defs: &Vec<TextureDef>) -> (r: Vec<usize>)
    requires
        old(u_assets).wf(),
        tree.wf(),
        0 < k < tree.len(),
    ensures
        r@ == sidecar_hits(*tree, k as int, 7).push(k),
        forall|j: int| 0 <= j < r@.len() ==> r@[j] < tree.len(),
        final(u_assets).wf(),
        final(u_assets).material_set() == old(u_assets).material_set() + normal_set(
            defs_refs(defs@, defs@.len() as int),
        ),
        final(u_assets).models() == old(u_assets).models(),
        final(u_assets).sounds() == old(u_assets).sounds(),
{
    let mut r = sidecars(tree, k);
    r.push(k);
    add_texture_materials(u_assets, defs);
    r
}

} // verus!
