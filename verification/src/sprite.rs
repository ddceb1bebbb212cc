//! The runtime instance of a target: position, direction, size and
//! visibility, all numbers as binary64 bit encodings. The renderer mirror
//! of this state lives outside; the drawable handle is only stored here.

use vstd::prelude::*;
use crate::numerics::{NUM_HUNDRED, NUM_ZERO};
use crate::DrawableID;

verus! {

/// One sprite. `x` and `y` are stage-centred coordinates, `direction` is
/// in degrees with 90 pointing right, `size` is in percent.
#[derive(Debug, Clone, Copy)]
pub struct Sprite {
    pub x: u64,
    pub y: u64,
    pub direction: u64,
    pub size: u64,
    pub visible: bool,
    pub target_index: usize,
    pub layer_order: u32,
    pub drawable: DrawableID,
}

impl Sprite {
    /// A fresh sprite at the origin, facing up, full size, visible.
    pub fn new(target_index: usize, layer_order: u32, drawable: DrawableID) -> (r: Self)
        ensures
            r == (Sprite {
                x: NUM_ZERO,
                y: NUM_ZERO,
                direction: NUM_ZERO,
                size: NUM_HUNDRED,
                visible: true,
                target_index,
                layer_order,
                drawable,
            }),
    {
        Sprite {
            x: NUM_ZERO,
            y: NUM_ZERO,
            direction: NUM_ZERO,
            size: NUM_HUNDRED,
            visible: true,
            target_index,
            layer_order,
            drawable,
        }
    }

    /// Put the sprite at the given coordinates; everything else stays.
    pub fn move_to(&mut self, x: u64, y: u64)
        ensures
            *final(self) == (Sprite { x, y, ..*old(self) }),
    {
        self.x = x;
        self.y = y;
    }
}

} // verus!
