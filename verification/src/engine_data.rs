//! Process-lifetime engine data: the block spec registry and the string
//! table.

use vstd::prelude::*;
use crate::block::{BlockFieldType, BlockShape};
use crate::block_specs::{make_block_specs, BlockSpecs};

verus! {

/// What the engine knows before any project is loaded.
pub struct EngineData {
    pub block_specs: BlockSpecs,
    pub strings: Vec<String>,
}

impl EngineData {
    /// Fresh engine data: the built-in block specs, exactly as
    /// `make_block_specs` lays them out, and no strings.
    pub fn new() -> (r: Self)
        ensures
            r.block_specs.specs@.len() == 4,
            r.block_specs.specs@[0].name@ == "math_number"@,
            r.block_specs.specs@[0].field_names@.len() == 1,
            r.block_specs.specs@[0].field_names@[0]@ == "NUM"@,
            r.block_specs.specs@[0].field_types@ =~= seq![BlockFieldType::Field],
            r.block_specs.specs@[0].shape == BlockShape::Reporter,
            r.block_specs.specs@[1].name@ == "motion_movesteps"@,
            r.block_specs.specs@[1].field_names@.len() == 1,
            r.block_specs.specs@[1].field_names@[0]@ == "STEPS"@,
            r.block_specs.specs@[1].field_types@ =~= seq![BlockFieldType::Input],
            r.block_specs.specs@[1].shape == BlockShape::Command,
            r.block_specs.specs@[2].name@ == "control_repeat"@,
            r.block_specs.specs@[2].field_names@.len() == 2,
            r.block_specs.specs@[2].field_names@[0]@ == "TIMES"@,
            r.block_specs.specs@[2].field_names@[1]@ == "SUBSTACK"@,
            r.block_specs.specs@[2].field_types@ =~= seq![
                BlockFieldType::Input,
                BlockFieldType::Input,
            ],
            r.block_specs.specs@[2].shape == BlockShape::Command,
            r.block_specs.specs@[3].name@ == "event_whenflagclicked"@,
            r.block_specs.specs@[3].field_names@.len() == 0,
            r.block_specs.specs@[3].field_types@ =~= Seq::<BlockFieldType>::empty(),
            r.block_specs.specs@[3].shape == BlockShape::Hat,
            r.strings@ =~= Seq::<String>::empty(),
    {
        EngineData { block_specs: make_block_specs(), strings: Vec::new() }
    }
}

} // verus!
