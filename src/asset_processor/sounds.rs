//! Sound references resolve as they are; nothing follows from them.
use vstd::prelude::*;
use crate::asset_processor::{all_hits, resolve_all, roots_in};
use crate::assets::UniqueAssets;
use crate::tree::GameTree;

verus! {

/// The nodes of the sound files that the sound references name under the roots.
pub fn process(u_assets: &UniqueAssets, tree: &GameTree, sounds_dirs: &Vec<usize>) -> (r: Vec<usize>)
    requires
        tree.wf(),
        roots_in(*tree, sounds_dirs@),
    ensures
        r@ == all_hits(*tree, sounds_dirs@, u_assets.sounds(), sounds_dirs@.len() as int),
        forall|k: int| 0 <= k < r@.len() ==> 0 < r@[k] < tree.len() && !tree.is_dir(r@[k] as int),
{
    resolve_all(tree, sounds_dirs, u_assets.sounds_name())
}

} // verus!
