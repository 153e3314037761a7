//! The extraction rules that both map formats apply to entities and brush sides.
use vstd::prelude::*;
use crate::assets::views;
use crate::text::{
    chars_of, contains_chars, contains_seq, ends_with, ends_with_chars, ends_with_chars_ignore_case,
    ends_with_ignore_case, eq_chars, lower_of, lowercase, string_of_range,
};

verus! {

/// A brush: the material of each of its sides.
pub struct Solid {
    pub sides: Vec<String>,
}

/// A map entity: its key/value properties in order, and the brushes it owns.
pub struct Entity {
    pub properties: Vec<(String, String)>,
    pub solids: Vec<Solid>,
}

pub open spec fn model_key() -> Seq<char> {
    seq!['m', 'o', 'd', 'e', 'l']
}

pub open spec fn material_key() -> Seq<char> {
    seq!['m', 'a', 't', 'e', 'r', 'i', 'a', 'l']
}

pub open spec fn materials_key() -> Seq<char> {
    seq!['m', 'a', 't', 'e', 'r', 'i', 'a', 'l', 's']
}

pub open spec fn texture_key() -> Seq<char> {
    seq!['t', 'e', 'x', 't', 'u', 'r', 'e']
}

pub open spec fn tools_word() -> Seq<char> {
    seq!['t', 'o', 'o', 'l', 's']
}

/// Whether a `model` value names a material (`.vmt` or `.spr`).
pub open spec fn is_material_model(v: Seq<char>) -> bool {
    ends_with(v, seq!['.', 'v', 'm', 't']) || ends_with(v, seq!['.', 's', 'p', 'r'])
}

/// Whether a value ends, ignoring ASCII case, in a sound file suffix.
pub open spec fn has_audio_suffix(v: Seq<char>) -> bool {
    ||| ends_with_ignore_case(v, seq!['.', 'w', 'a', 'v'])
    ||| ends_with_ignore_case(v, seq!['.', 'm', 'p', '3'])
    ||| ends_with_ignore_case(v, seq!['.', 'o', 'g', 'g'])
    ||| ends_with_ignore_case(v, seq!['.', 'f', 'l', 'a', 'c'])
}

/// Whether a key holds a material: `material` or `texture` in a text map,
/// `texture` or `materials` in a compiled map.
pub open spec fn is_material_key(k: Seq<char>, compiled: bool) -> bool {
    if compiled {
        k == texture_key() || k == materials_key()
    } else {
        k == material_key() || k == texture_key()
    }
}

/// The model reference that one property gives.
pub open spec fn property_models(k: Seq<char>, v: Seq<char>) -> Seq<Seq<char>> {
    if k == model_key() && !is_material_model(v) {
        seq![v]
    } else {
        seq![]
    }
}

/// The material references that one property gives: a `model` value that names a
/// material, without its suffix, and the value of a material key.
pub open spec fn property_materials(k: Seq<char>, v: Seq<char>, compiled: bool) -> Seq<Seq<char>> {
    (if k == model_key() && is_material_model(v) {
        seq![v.subrange(0, v.len() - 4)]
    } else {
        seq![]
    }) + (if is_material_key(k, compiled) {
        seq![v]
    } else {
        seq![]
    })
}

/// The sound reference that one property gives.
pub open spec fn property_sounds(v: Seq<char>) -> Seq<Seq<char>> {
    if has_audio_suffix(v) {
        seq![v]
    } else {
        seq![]
    }
}

/// The model references of the first `n` properties.
pub open spec fn models_of(ps: Seq<(String, String)>, n: int) -> Seq<Seq<char>>
    decreases n,
{
    if n <= 0 {
        seq![]
    } else {
        models_of(ps, n - 1) + property_models(ps[n - 1].0@, ps[n - 1].1@)
    }
}

/// The material references of the first `n` properties.
pub open spec fn materials_of(ps: Seq<(String, String)>, n: int, compiled: bool) -> Seq<Seq<char>>
    decreases n,
{
    if n <= 0 {
        seq![]
    } else {
        materials_of(ps, n - 1, compiled) + property_materials(ps[n - 1].0@, ps[n - 1].1@, compiled)
    }
}

/// The sound references of the first `n` properties.
pub open spec fn sounds_of(ps: Seq<(String, String)>, n: int) -> Seq<Seq<char>>
    decreases n,
{
    if n <= 0 {
        seq![]
    } else {
        sounds_of(ps, n - 1) + property_sounds(ps[n - 1].1@)
    }
}

/// The material that a brush side gives: its name lower-cased, unless that holds
/// the word `tools`.
pub open spec fn side_material(side: Seq<char>) -> Seq<Seq<char>> {
    if contains_seq(lower_of(side), tools_word()) {
        seq![]
    } else {
        seq![lower_of(side)]
    }
}

/// The materials of the first `n` sides.
pub open spec fn sides_materials(sides: Seq<String>, n: int) -> Seq<Seq<char>>
    decreases n,
{
    if n <= 0 {
        seq![]
    } else {
        sides_materials(sides, n - 1) + side_material(sides[n - 1]@)
    }
}

/// The materials of the sides of the first `n` brushes.
pub open spec fn solids_materials(solids: Seq<Solid>, n: int) -> Seq<Seq<char>>
    decreases n,
{
    if n <= 0 {
        seq![]
    } else {
        solids_materials(solids, n - 1) + sides_materials(
            solids[n - 1].sides@,
            solids[n - 1].sides@.len() as int,
        )
    }
}

/// The model references of an entity.
pub open spec fn entity_models(e: Entity) -> Seq<Seq<char>> {
    models_of(e.properties@, e.properties@.len() as int)
}

/// The material references of an entity; in a text map its brushes count too.
pub open spec fn entity_materials(e: Entity, compiled: bool) -> Seq<Seq<char>> {
    materials_of(e.properties@, e.properties@.len() as int, compiled) + if compiled {
        seq![]
    } else {
        solids_materials(e.solids@, e.solids@.len() as int)
    }
}

/// The sound references of an entity.
pub open spec fn entity_sounds(e: Entity) -> Seq<Seq<char>> {
    sounds_of(e.properties@, e.properties@.len() as int)
}

/// The model references of the first `n` entities.
pub open spec fn entities_models(es: Seq<Entity>, n: int) -> Seq<Seq<char>>
    decreases n,
{
    if n <= 0 {
        seq![]
    } else {
        entities_models(es, n - 1) + entity_models(es[n - 1])
    }
}

/// The material references of the first `n` entities.
pub open spec fn entities_materials(es: Seq<Entity>, n: int, compiled: bool) -> Seq<Seq<char>>
    decreases n,
{
    if n <= 0 {
        seq![]
    } else {
        entities_materials(es, n - 1, compiled) + entity_materials(es[n - 1], compiled)
    }
}

/// The sound references of the first `n` entities.
pub open spec fn entities_sounds(es: Seq<Entity>, n: int) -> Seq<Seq<char>>
    decreases n,
{
    if n <= 0 {
        seq![]
    } else {
        entities_sounds(es, n - 1) + entity_sounds(es[n - 1])
    }
}

fn word_model() -> (r: Vec<char>)
    ensures
        r@ == model_key(),
{
    let r = vec!['m', 'o', 'd', 'e', 'l'];
    assert(r@ =~= model_key());
    r
}

/// Whether `k` is a key that holds a material.
fn material_key_exec(k: &Vec<char>, compiled: bool) -> (r: bool)
    ensures
        r == is_material_key(k@, compiled),
{
    let texture = vec!['t', 'e', 'x', 't', 'u', 'r', 'e'];
    assert(texture@ =~= texture_key());
    if eq_chars(k, &texture) {
        return true;
    }
    if compiled {
        let materials = vec!['m', 'a', 't', 'e', 'r', 'i', 'a', 'l', 's'];
        assert(materials@ =~= materials_key());
        eq_chars(k, &materials)
    } else {
        let material = vec!['m', 'a', 't', 'e', 'r', 'i', 'a', 'l'];
        assert(material@ =~= material_key());
        eq_chars(k, &material)
    }
}

/// Whether a `model` value names a material.
fn material_model_exec(v: &Vec<char>) -> (r: bool)
    ensures
        r == is_material_model(v@),
{
    let vmt = vec!['.', 'v', 'm', 't'];
    let spr = vec!['.', 's', 'p', 'r'];
    assert(vmt@ =~= seq!['.', 'v', 'm', 't']);
    assert(spr@ =~= seq!['.', 's', 'p', 'r']);
    ends_with_chars(v, &vmt) || ends_with_chars(v, &spr)
}

/// Whether a value ends in a sound file suffix, ignoring ASCII case.
pub fn audio_suffix_exec(v: &Vec<char>) -> (r: bool)
    ensures
        r == has_audio_suffix(v@),
{
    let wav = vec!['.', 'w', 'a', 'v'];
    let mp3 = vec!['.', 'm', 'p', '3'];
    let ogg = vec!['.', 'o', 'g', 'g'];
    let flac = vec!['.', 'f', 'l', 'a', 'c'];
    assert(wav@ =~= seq!['.', 'w', 'a', 'v']);
    assert(mp3@ =~= seq!['.', 'm', 'p', '3']);
    assert(ogg@ =~= seq!['.', 'o', 'g', 'g']);
    assert(flac@ =~= seq!['.', 'f', 'l', 'a', 'c']);
    ends_with_chars_ignore_case(v, &wav) || ends_with_chars_ignore_case(v, &mp3)
        || ends_with_chars_ignore_case(v, &ogg) || ends_with_chars_ignore_case(v, &flac)
}

/// Appends the references of the properties `ps` to the three lists.
pub fn collect_properties(
    ps: &Vec<(String, String)>,
    compiled: bool,
    models: &mut Vec<String>,
    materials: &mut Vec<String>,
    sounds: &mut Vec<String>,
)
    ensures
        views(final(models)@) == views(old(models)@) + models_of(ps@, ps@.len() as int),
        views(final(materials)@) == views(old(materials)@) + materials_of(ps@, ps@.len() as int, compiled),
        views(final(sounds)@) == views(old(sounds)@) + sounds_of(ps@, ps@.len() as int),
{
    let model = word_model();
    let mut i: usize = 0;
    while i < ps.len()
        invariant
            i <= ps@.len(),
            model@ == model_key(),
            views(models@) == views(old(models)@) + models_of(ps@, i as int),
            views(materials@) == views(old(materials)@) + materials_of(ps@, i as int, compiled),
            views(sounds@) == views(old(sounds)@) + sounds_of(ps@, i as int),
        decreases ps.len() - i,
    {
        let k = chars_of(ps[i].0.as_str());
        let v = chars_of(ps[i].1.as_str());
        let ghost (m0, t0, s0) = (models@, materials@, sounds@);
        let is_model = eq_chars(&k, &model);
        let names_material = material_model_exec(&v);
        if is_model && !names_material {
            models.push(ps[i].1.clone());
        }
        if is_model && names_material {
            materials.push(string_of_range(&v, 0, v.len() - 4));
        }
        if material_key_exec(&k, compiled) {
            materials.push(ps[i].1.clone());
        }
        if audio_suffix_exec(&v) {
            sounds.push(ps[i].1.clone());
        }
        assert(views(models@) =~= views(m0) + property_models(ps@[i as int].0@, ps@[i as int].1@));
        assert(views(materials@) =~= views(t0) + property_materials(ps@[i as int].0@, ps@[i as int].1@, compiled));
        assert(views(sounds@) =~= views(s0) + property_sounds(ps@[i as int].1@));
        i += 1;
    }
}

/// Appends the materials of the sides of `solids` to `materials`.
pub fn collect_solids(solids: &Vec<Solid>, materials: &mut Vec<String>)
    ensures
        views(final(materials)@) == views(old(materials)@) + solids_materials(solids@, solids@.len() as int),
{
    let tools = vec!['t', 'o', 'o', 'l', 's'];
    assert(tools@ =~= tools_word());
    let mut i: usize = 0;
    while i < solids.len()
        invariant
            i <= solids@.len(),
            tools@ == tools_word(),
            views(materials@) == views(old(materials)@) + solids_materials(solids@, i as int),
        decreases solids.len() - i,
    {
        let sides = &solids[i].sides;
        let ghost before = materials@;
        let mut j: usize = 0;
        while j < sides.len()
            invariant
                j <= sides@.len(),
                tools@ == tools_word(),
                views(materials@) == views(before) + sides_materials(sides@, j as int),
            decreases sides.len() - j,
        {
            let lower = lowercase(sides[j].as_str());
            let lc = chars_of(lower.as_str());
            let ghost m0 = materials@;
            if !contains_chars(&lc, &tools) {
                materials.push(lower);
            }
            assert(views(materials@) =~= views(m0) + side_material(sides@[j as int]@));
            j += 1;
        }
        assert(views(materials@) =~= views(old(materials)@) + solids_materials(solids@, i + 1));
        i += 1;
    }
}

/// Appends the references of the entities `es` to the three lists.
pub fn collect_entities(
    es: &Vec<Entity>,
    compiled: bool,
    models: &mut Vec<String>,
    materials: &mut Vec<String>,
    sounds: &mut Vec<String>,
)
    ensures
        views(final(models)@) == views(old(models)@) + entities_models(es@, es@.len() as int),
        views(final(materials)@) == views(old(materials)@) + entities_materials(es@, es@.len() as int, compiled),
        views(final(sounds)@) == views(old(sounds)@) + entities_sounds(es@, es@.len() as int),
{
    let mut i: usize = 0;
    while i < es.len()
        invariant
            i <= es@.len(),
            views(models@) == views(old(models)@) + entities_models(es@, i as int),
            views(materials@) == views(old(materials)@) + entities_materials(es@, i as int, compiled),
            views(sounds@) == views(old(sounds)@) + entities_sounds(es@, i as int),
        decreases es.len() - i,
    {
        let ghost (m0, t0, s0) = (models@, materials@, sounds@);
        collect_properties(&es[i].properties, compiled, models, materials, sounds);
        if !compiled {
            collect_solids(&es[i].solids, materials);
        }
        assert(views(models@) =~= views(m0) + entity_models(es@[i as int]));
        assert(views(materials@) =~= views(t0) + entity_materials(es@[i as int], compiled));
        assert(views(sounds@) =~= views(s0) + entity_sounds(es@[i as int]));
        assert(views(models@) =~= views(old(models)@) + entities_models(es@, i + 1));
        assert(views(materials@) =~= views(old(materials)@) + entities_materials(es@, i + 1, compiled));
        assert(views(sounds@) =~= views(old(sounds)@) + entities_sounds(es@, i + 1));
        i += 1;
    }
}

} // verus!
