//! Material references: the material files, and the texture files that their
//! shader parameters name.
use vstd::prelude::*;
use crate::asset_processor::{all_hits, replace_extension, resolve_all, roots_in, with_extension};
use crate::assets::{normalize, normalized, views, UniqueAssets};
use crate::tree::GameTree;

verus! {

/// A shader parameter whose value is a texture name: `$name "value"`, the value
/// starting with a letter and running up to a quote, `[`, a line break or a dot.
pub const VMT_PARAMETER_PATTERN: &'static str = "\\$[^\\s]+?\"?\\s+\"?(([A-Z]|[a-z])[^\\[\"\\n\\r.]+)";

/// The first capture group of each successive match of a regular expression in a
/// text, or nothing when the pattern does not compile.
pub uninterp spec fn capture_groups(pattern: Seq<char>, text: Seq<char>) -> Option<Seq<Seq<char>>>;

/// Relies on `regex::Regex::new`, which compiles `pattern` or fails, and on
/// `Regex::captures_iter`, which yields the successive non-overlapping matches in
/// `text`; gives group 1 of each match in which it took part.
#[verifier::external_body]
fn first_groups(pattern: &str, text: &str) -> (r: Option<Vec<String>>)
    ensures
        match r {
            Some(v) => capture_groups(pattern@, text@) == Some(views(v@)),
            None => capture_groups(pattern@, text@) is None,
        },
{
    let re = regex::Regex::new(pattern).ok()?;
    Some(re.captures_iter(text).filter_map(|c| c.get(1)).map(|m| m.as_str().to_string()).collect())
}

/// The file of a texture name: normalized, with the `.vtf` extension.
pub open spec fn texture_file(name: Seq<char>) -> Seq<char> {
    with_extension(normalized(name), "vtf"@)
}

/// The file of a material reference: with the `.vmt` extension.
pub open spec fn material_file(name: Seq<char>) -> Seq<char> {
    with_extension(name, "vmt"@)
}

/// The texture files that the capture groups of a material's text name.
pub open spec fn groups_textures(groups: Option<Seq<Seq<char>>>) -> Seq<Seq<char>> {
    match groups {
        Some(gs) => gs.map_values(|g: Seq<char>| texture_file(g)),
        None => seq![],
    }
}

/// The texture files that the first `n` material texts name.
pub open spec fn contents_textures(cs: Seq<String>, n: int) -> Seq<Seq<char>>
    decreases n,
{
    if n <= 0 {
        seq![]
    } else {
        contents_textures(cs, n - 1) + groups_textures(
            capture_groups(VMT_PARAMETER_PATTERN@, cs[n - 1]@),
        )
    }
}

/// The texture files that the texture names `groups` stand for.
pub fn texture_files(groups: &Vec<String>) -> (r: Vec<String>)
    ensures
        views(r@) == views(groups@).map_values(|g: Seq<char>| texture_file(g)),
{
    let mut r: Vec<String> = Vec::new();
    let mut i: usize = 0;
    while i < groups.len()
        invariant
            i <= groups@.len(),
            views(r@) == views(groups@).take(i as int).map_values(|g: Seq<char>| texture_file(g)),
        decreases groups.len() - i,
    {
        let n = normalize(groups[i].as_str());
        let f = replace_extension(n.as_str(), "vtf");
        let ghost r0 = r@;
        r.push(f);
        assert(views(r@) =~= views(r0).push(f@));
        assert(views(groups@).take(i + 1) =~= views(groups@).take(i as int).push(groups@[i as int]@));
        assert(views(r@) =~= views(groups@).take(i + 1).map_values(|g: Seq<char>| texture_file(g)));
        i += 1;
    }
    assert(views(groups@).take(groups@.len() as int) =~= views(groups@));
    r
}

/// The texture files that the shader parameters of a material's text name.
pub fn texture_names(content: &str) -> (r: Vec<String>)
    ensures
        views(r@) == groups_textures(capture_groups(VMT_PARAMETER_PATTERN@, content@)),
{
    match first_groups(VMT_PARAMETER_PATTERN, content) {
        Some(groups) => texture_files(&groups),
        None => Vec::new(),
    }
}

/// The material files that the material references name: each with `.vmt`.
pub fn material_files(u_assets: &UniqueAssets) -> (r: Vec<String>)
    ensures
        views(r@) == u_assets.materials().map_values(|m: Seq<char>| material_file(m)),
{
    let ms = u_assets.materials_name();
    let mut r: Vec<String> = Vec::new();
    let mut i: usize = 0;
    while i < ms.len()
        invariant
            views(ms@) == u_assets.materials(),
            i <= ms@.len(),
            views(r@) == views(ms@).take(i as int).map_values(|m: Seq<char>| material_file(m)),
        decreases ms.len() - i,
    {
        let f = replace_extension(ms[i].as_str(), "vmt");
        let ghost r0 = r@;
        r.push(f);
        assert(views(r@) =~= views(r0).push(f@));
        assert(views(ms@).take(i + 1) =~= views(ms@).take(i as int).push(ms@[i as int]@));
        assert(views(r@) =~= views(ms@).take(i + 1).map_values(|m: Seq<char>| material_file(m)));
        i += 1;
    }
    assert(views(ms@).take(ms@.len() as int) =~= views(ms@));
    r
}

/// The nodes of the material files that the material references name under the
/// roots.
pub fn locate(u_assets: &UniqueAssets, tree: &GameTree, materials_dirs: &Vec<usize>) -> (r: Vec<usize>)
    requires
        tree.wf(),
        roots_in(*tree, materials_dirs@),
    ensures
        r@ == all_hits(
            *tree,
            materials_dirs@,
            u_assets.materials().map_values(|m: Seq<char>| material_file(m)),
            materials_dirs@.len() as int,
        ),
        forall|k: int| 0 <= k < r@.len() ==> 0 < r@[k] < tree.len() && !tree.is_dir(r@[k] as int),
{
    let files = material_files(u_assets);
    resolve_all(tree, materials_dirs, &files)
}

/// The nodes of the texture files that the material texts `contents` name under
/// the roots.
pub fn process(tree: &GameTree, materials_dirs: &Vec<usize>, contents: &Vec<String>) -> (r: Vec<usize>)
    requires
        tree.wf(),
        roots_in(*tree, materials_dirs@),
    ensures
        r@ == all_hits(
            *tree,
            materials_dirs@,
            contents_textures(contents@, contents@.len() as int),
            materials_dirs@.len() as int,
        ),
        forall|k: int| 0 <= k < r@.len() ==> 0 < r@[k] < tree.len() && !tree.is_dir(r@[k] as int),
{
    let mut names: Vec<String> = Vec::new();
    let mut i: usize = 0;
    while i < contents.len()
        invariant
            i <= contents@.len(),
            views(names@) == contents_textures(contents@, i as int),
        decreases contents.len() - i,
    {
        let mut t = texture_names(contents[i].as_str());
        let ghost n0 = names@;
        let ghost t0 = t@;
        names.append(&mut t);
        assert(views(names@) =~= views(n0) + views(t0));
        i += 1;
    }
    resolve_all(tree, materials_dirs, &names)
}

} // verus!
