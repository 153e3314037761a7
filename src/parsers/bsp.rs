//! References of a compiled map, and the reduction of its patch texture names.
use vstd::prelude::*;
use crate::assets::{normal_set, views, UniqueAssets};
use crate::entity::{collect_entities, entities_materials, entities_models, entities_sounds, Entity};
use crate::text::{
    chars_of, find_from, first_index_from, last_index_before, rfind_before, starts_with,
    starts_with_chars, string_of, string_of_range,
};

verus! {

/// What the references of a compiled map are drawn from: the texture table, the
/// static-prop model dictionary and the entities.
pub struct BspDocument {
    pub textures: Vec<String>,
    pub static_props: Vec<String>,
    pub entities: Vec<Entity>,
}

pub open spec fn maps_prefix() -> Seq<char> {
    seq!['m', 'a', 'p', 's', '/']
}

pub open spec fn tools_prefix() -> Seq<char> {
    seq!['T', 'O', 'O', 'L', 'S', '/']
}

pub open spec fn is_coord_char(c: char) -> bool {
    ('0' <= c && c <= '9') || c == '-' || c == '_'
}

/// Whether a name segment is a tile coordinate: not empty, digits, `-` and `_` only.
pub open spec fn is_coord_segment_spec(s: Seq<char>) -> bool {
    s.len() > 0 && forall|k: int| 0 <= k < s.len() ==> is_coord_char(#[trigger] s[k])
}

/// A name without its `maps/<mapname>/` prefix (the name itself if no slash
/// follows `maps/`).
pub open spec fn strip_map_prefix(s: Seq<char>) -> Seq<char> {
    let j = first_index_from(s, '/', 5);
    if j >= 0 {
        s.subrange(j + 1, s.len() as int)
    } else {
        s
    }
}

/// A name without its last three `_`-separated segments, when these are all tile
/// coordinates; else the name itself.
pub open spec fn strip_coordinates(p: Seq<char>) -> Seq<char> {
    let p3 = last_index_before(p, '_', p.len() as int);
    let p2 = last_index_before(p, '_', p3);
    let p1 = last_index_before(p, '_', p2);
    if p3 >= 0 && p2 >= 0 && p1 >= 0 && is_coord_segment_spec(p.subrange(p1 + 1, p2))
        && is_coord_segment_spec(p.subrange(p2 + 1, p3)) && is_coord_segment_spec(
        p.subrange(p3 + 1, p.len() as int),
    ) {
        p.subrange(0, p1)
    } else {
        p
    }
}

/// The material that a texture-table name stands for: a patch name under `maps/`
/// loses its map prefix and its tile coordinates; any other name stays.
pub open spec fn patch_material(name: Seq<char>) -> Seq<char> {
    if starts_with(name, maps_prefix()) {
        strip_coordinates(strip_map_prefix(name))
    } else {
        name
    }
}

/// The material reference of one texture-table name: none for an empty name or an
/// engine tool texture.
pub open spec fn texture_material(name: Seq<char>) -> Seq<Seq<char>> {
    if name.len() == 0 || starts_with(name, tools_prefix()) {
        seq![]
    } else {
        seq![patch_material(name)]
    }
}

/// The material references of the first `n` texture-table names.
pub open spec fn textures_materials(ts: Seq<String>, n: int) -> Seq<Seq<char>>
    decreases n,
{
    if n <= 0 {
        seq![]
    } else {
        textures_materials(ts, n - 1) + texture_material(ts[n - 1]@)
    }
}

/// The model references of a compiled map: the static props, then the entities'.
pub open spec fn bsp_models(d: BspDocument) -> Seq<Seq<char>> {
    views(d.static_props@) + entities_models(d.entities@, d.entities@.len() as int)
}

/// The material references of a compiled map: the entities', then the texture
/// table's.
pub open spec fn bsp_materials(d: BspDocument) -> Seq<Seq<char>> {
    entities_materials(d.entities@, d.entities@.len() as int, true) + textures_materials(
        d.textures@,
        d.textures@.len() as int,
    )
}

/// The sound references of a compiled map.
pub open spec fn bsp_sounds(d: BspDocument) -> Seq<Seq<char>> {
    entities_sounds(d.entities@, d.entities@.len() as int)
}

/// Whether a name segment is a tile coordinate.
pub fn is_coord_segment(s: &Vec<char>, from: usize, to: usize) -> (r: bool)
    requires
        from <= to <= s@.len(),
    ensures
        r == is_coord_segment_spec(s@.subrange(from as int, to as int)),
{
    if from == to {
        return false;
    }
    let mut i: usize = from;
    while i < to
        invariant
            from <= i <= to <= s@.len(),
            forall|k: int| from <= k < i ==> is_coord_char(s@[k]),
        decreases to - i,
    {
        let c = s[i];
        if !(('0' <= c && c <= '9') || c == '-' || c == '_') {
            assert(!is_coord_char(s@.subrange(from as int, to as int)[i - from]));
            return false;
        }
        i += 1;
    }
    assert forall|k: int| 0 <= k < (to - from) implies is_coord_char(
        #[trigger] s@.subrange(from as int, to as int)[k],
    ) by {
        assert(is_coord_char(s@[from + k]));
    }
    true
}

/// The material that a texture-table name stands for (see `patch_material`).
pub fn patch_material_name(name: &str) -> (r: String)
    ensures
        r@ == patch_material(name@),
{
    let v = chars_of(name);
    let maps = vec!['m', 'a', 'p', 's', '/'];
    assert(maps@ =~= maps_prefix());
    if !starts_with_chars(&v, &maps) {
        return name.to_string();
    }
    let len = v.len();
    let p: Vec<char> = match find_from(&v, '/', 5) {
        Some(j) => {
            let s = string_of_range(&v, j + 1, len);
            chars_of(s.as_str())
        },
        None => v,
    };
    assert(p@ == strip_map_prefix(name@));
    let n = p.len();
    if let Some(p3) = rfind_before(&p, '_', n) {
        if let Some(p2) = rfind_before(&p, '_', p3) {
            if let Some(p1) = rfind_before(&p, '_', p2) {
                if is_coord_segment(&p, p1 + 1, p2) && is_coord_segment(&p, p2 + 1, p3)
                    && is_coord_segment(&p, p3 + 1, n) {
                    return string_of_range(&p, 0, p1);
                }
            }
        }
    }
    string_of(&p)
}

/// Appends the material references of the texture-table names `ts` to `materials`.
fn collect_textures(ts: &Vec<String>, materials: &mut Vec<String>)
    ensures
        views(final(materials)@) == views(old(materials)@) + textures_materials(ts@, ts@.len() as int),
{
    let tools = vec!['T', 'O', 'O', 'L', 'S', '/'];
    assert(tools@ =~= tools_prefix());
    let mut i: usize = 0;
    while i < ts.len()
        invariant
            i <= ts@.len(),
            tools@ == tools_prefix(),
            views(materials@) == views(old(materials)@) + textures_materials(ts@, i as int),
        decreases ts.len() - i,
    {
        let v = chars_of(ts[i].as_str());
        let ghost m0 = materials@;
        if v.len() != 0 && !starts_with_chars(&v, &tools) {
            materials.push(patch_material_name(ts[i].as_str()));
        }
        assert(views(materials@) =~= views(m0) + texture_material(ts@[i as int]@));
        i += 1;
    }
}

/// Adds the references of a compiled map to `u`.
pub fn get_uniques(doc: &BspDocument, u: &mut UniqueAssets)
    requires
        old(u).wf(),
    ensures
        final(u).wf(),
        final(u).model_set() == old(u).model_set() + normal_set(bsp_models(*doc)),
        final(u).material_set() == old(u).material_set() + normal_set(bsp_materials(*doc)),
        final(u).sound_set() == old(u).sound_set() + normal_set(bsp_sounds(*doc)),
{
    let mut models: Vec<String> = doc.static_props.clone();
    let mut materials: Vec<String> = Vec::new();
    let mut sounds: Vec<String> = Vec::new();
    collect_entities(&doc.entities, true, &mut models, &mut materials, &mut sounds);
    collect_textures(&doc.textures, &mut materials);
    proof {
        assert(views(models@) =~= bsp_models(*doc));
        assert(views(materials@) =~= bsp_materials(*doc));
        assert(views(sounds@) =~= bsp_sounds(*doc));
    }
    u.insert_models(&models);
    u.insert_materials(&materials);
    u.insert_sounds(&sounds);
}

} // verus!
