//! The prototype of a sprite: its compiled scripts, its costumes, and its
//! place on the stage. Immutable during execution; every runtime sprite
//! refers back to one of these.

use vstd::prelude::*;
use crate::costume::CostumeAsset;
use crate::instruction::Script;

verus! {

/// The prototype of a sprite.
#[derive(Debug)]
pub struct Target {
    pub scripts: Vec<Script>,
    pub is_stage: bool,
    pub name: String,
    pub layer_order: u32,
    pub costumes: Vec<CostumeAsset>,
}

} // verus!
