//! References of a text-format map.
use vstd::prelude::*;
use crate::assets::{normal_set, UniqueAssets};
use crate::entity::{
    collect_entities, collect_solids, entities_materials, entities_models, entities_sounds,
    solids_materials, Entity, Solid,
};

verus! {

/// What the references of a text-format map are drawn from: the world's brushes
/// and the entities.
pub struct VmfDocument {
    pub world_solids: Vec<Solid>,
    pub entities: Vec<Entity>,
}

/// The model references of a text-format map.
pub open spec fn vmf_models(d: VmfDocument) -> Seq<Seq<char>> {
    entities_models(d.entities@, d.entities@.len() as int)
}

/// The material references of a text-format map: those of its entities, then the
/// sides of the world's brushes.
pub open spec fn vmf_materials(d: VmfDocument) -> Seq<Seq<char>> {
    entities_materials(d.entities@, d.entities@.len() as int, false) + solids_materials(
        d.world_solids@,
        d.world_solids@.len() as int,
    )
}

/// The sound references of a text-format map.
pub open spec fn vmf_sounds(d: VmfDocument) -> Seq<Seq<char>> {
    entities_sounds(d.entities@, d.entities@.len() as int)
}

/// Adds the references of a text-format map to `u`.
pub fn get_uniques(doc: &VmfDocument, u: &mut UniqueAssets)
    requires
        old(u).wf(),
    ensures
        final(u).wf(),
        final(u).model_set() == old(u).model_set() + normal_set(vmf_models(*doc)),
        final(u).material_set() == old(u).material_set() + normal_set(vmf_materials(*doc)),
        final(u).sound_set() == old(u).sound_set() + normal_set(vmf_sounds(*doc)),
{
    let mut models: Vec<String> = Vec::new();
    let mut materials: Vec<String> = Vec::new();
    let mut sounds: Vec<String> = Vec::new();
    collect_entities(&doc.entities, false, &mut models, &mut materials, &mut sounds);
    collect_solids(&doc.world_solids, &mut materials);
    proof {
        assert(crate::assets::views(models@) =~= vmf_models(*doc));
        assert(crate::assets::views(materials@) =~= vmf_materials(*doc));
        assert(crate::assets::views(sounds@) =~= vmf_sounds(*doc));
    }
    u.insert_models(&models);
    u.insert_materials(&materials);
    u.insert_sounds(&sounds);
}

} // verus!
