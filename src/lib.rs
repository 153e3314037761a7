//! Gathers the game assets that Source-engine maps reference into one output tree.
//!
//! The library holds the logic: the reference set, the extraction rules of the two
//! map formats, the case-insensitive resolver over a snapshot of the game tree, the
//! expansion of models and materials, copy planning and the front-end's state.
pub mod asset_processor;
pub mod assets;
pub mod copy;
pub mod entity;
pub mod parsers;
pub mod path;
pub mod state;
pub mod text;
pub mod tree;
