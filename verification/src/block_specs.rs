//! The registry of block specs, keyed by opcode name.

use vstd::prelude::*;
use crate::block::{BlockFieldType, BlockShape, BlockSpec};
use crate::scalar_value::str_eq;

verus! {

/// Where an opcode stands in a spec table: the index of the first entry
/// whose name is the given one.
pub open spec fn spec_lookup(s: Seq<BlockSpec>, name: Seq<char>) -> Option<int>
    decreases s.len(),
{
    if s.len() == 0 {
        None
    } else if s[0].name@ == name {
        Some(0int)
    } else {
        match spec_lookup(s.drop_first(), name) {
            Some(i) => Some(i + 1),
            None => None,
        }
    }
}

/// The registry of block specs. Lookup by name is a linear search: blocks
/// have few specs and the table is built once.
pub struct BlockSpecs {
    pub specs: Vec<BlockSpec>,
}

impl BlockSpecs {
    /// The spec registered under the given opcode name, if any.
    pub fn get(&self, name: &str) -> (r: Option<&BlockSpec>)
        ensures
            match r {
                Some(sp) => {
                    &&& spec_lookup(self.specs@, name@) is Some
                    &&& *sp == self.specs@[spec_lookup(self.specs@, name@).unwrap()]
                    &&& sp.name@ == name@
                },
                None => spec_lookup(self.specs@, name@) is None,
            },
    {
        let n = self.specs.len();
        let mut i: usize = 0;
        proof {
            assert(self.specs@.skip(0) =~= self.specs@);
        }
        while i < n
            invariant
                i <= n,
                n == self.specs@.len(),
                spec_lookup(self.specs@, name@) == match spec_lookup(
                    self.specs@.skip(i as int),
                    name@,
                ) {
                    Some(k) => Some(k + i),
                    None => None::<int>,
                },
            decreases n - i,
        {
            if str_eq(self.specs[i].name.as_str(), name) {
                proof {
                    assert(self.specs@.skip(i as int)[0] == self.specs@[i as int]);
                }
                return Some(&self.specs[i]);
            }
            proof {
                assert(self.specs@.skip(i as int).drop_first() =~= self.specs@.skip(i + 1));
                assert(self.specs@.skip(i as int)[0] == self.specs@[i as int]);
            }
            i += 1;
        }
        None
    }
}

/// The block specs the engine knows: the number literal, the move command,
/// the repeat loop, and the green-flag hat.
pub fn make_block_specs() -> (r: BlockSpecs)
    ensures
        r.specs@.len() == 4,
        r.specs@[0].name@ == "math_number"@,
        r.specs@[0].field_names@.len() == 1,
        r.specs@[0].field_names@[0]@ == "NUM"@,
        r.specs@[0].field_types@ =~= seq![BlockFieldType::Field],
        r.specs@[0].shape == BlockShape::Reporter,
        r.specs@[1].name@ == "motion_movesteps"@,
        r.specs@[1].field_names@.len() == 1,
        r.specs@[1].field_names@[0]@ == "STEPS"@,
        r.specs@[1].field_types@ =~= seq![BlockFieldType::Input],
        r.specs@[1].shape == BlockShape::Command,
        r.specs@[2].name@ == "control_repeat"@,
        r.specs@[2].field_names@.len() == 2,
        r.specs@[2].field_names@[0]@ == "TIMES"@,
        r.specs@[2].field_names@[1]@ == "SUBSTACK"@,
        r.specs@[2].field_types@ =~= seq![BlockFieldType::Input, BlockFieldType::Input],
        r.specs@[2].shape == BlockShape::Command,
        r.specs@[3].name@ == "event_whenflagclicked"@,
        r.specs@[3].field_names@.len() == 0,
        r.specs@[3].field_types@ =~= Seq::<BlockFieldType>::empty(),
        r.specs@[3].shape == BlockShape::Hat,
{
    let mut specs: Vec<BlockSpec> = Vec::new();

    specs.push(BlockSpec {
        name: String::from_str("math_number"),
        field_names: vec![String::from_str("NUM")],
        field_types: vec![BlockFieldType::Field],
        shape: BlockShape::Reporter,
    });

    specs.push(BlockSpec {
        name: String::from_str("motion_movesteps"),
        field_names: vec![String::from_str("STEPS")],
        field_types: vec![BlockFieldType::Input],
        shape: BlockShape::Command,
    });

    specs.push(BlockSpec {
        name: String::from_str("control_repeat"),
        field_names: vec![String::from_str("TIMES"), String::from_str("SUBSTACK")],
        field_types: vec![BlockFieldType::Input, BlockFieldType::Input],
        shape: BlockShape::Command,
    });

    specs.push(BlockSpec {
        name: String::from_str("event_whenflagclicked"),
        field_names: Vec::new(),
        field_types: Vec::new(),
        shape: BlockShape::Hat,
    });

    BlockSpecs { specs }
}

} // verus!
