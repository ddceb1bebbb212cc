pub mod asset;
pub mod block;
pub mod block_specs;
pub mod clock;
pub mod compile;
pub mod costume;
pub mod deserialize;
pub mod engine_data;
pub mod execute;
pub mod float_ops;
pub mod instruction;
pub mod json;
pub mod machine;
pub mod numerics;
pub mod project;
pub mod runtime;
pub mod scalar_value;
pub mod sprite;
pub mod target;
pub mod thread;
pub mod trigger;

use vstd::prelude::*;

verus! {

/// Identifies one drawable composited by the renderer. The renderer hands one
/// out per sprite; the runtime only stores and forwards it.
#[derive(Clone, Copy, PartialEq, Eq, Hash, Structural, Debug)]
pub struct DrawableID(pub usize);

} // verus!
