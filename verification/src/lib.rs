//! Applies precomputed patches to a live instance tree and reports exactly
//! which of the requested changes took effect.

pub mod dom;
pub mod model;
pub mod patch;
pub mod tree;
pub mod patch_apply;
pub mod laws;
