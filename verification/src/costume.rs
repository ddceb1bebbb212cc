//! Costume descriptions: an asset with a rotation centre and a name. The
//! binding of a costume to a renderer skin happens outside the engine; the
//! engine only carries the description.

use vstd::prelude::*;
use crate::asset::Asset;

verus! {

/// One costume as the project describes it: its asset, its rotation centre
/// (binary64 bit encodings), and its display name.
#[derive(Debug)]
pub struct CostumeAsset {
    pub asset: Asset,
    pub rotation_center_x: u64,
    pub rotation_center_y: u64,
    pub name: String,
}

} // verus!
