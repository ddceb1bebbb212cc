//! The block graph: specs, inputs and blocks, as the loader hands them to
//! the compiler. Blocks of one target live in an index-addressed table;
//! `next`, `parent` and `Substack` refer into that table, while reporter
//! subtrees are owned in place by their slot.

use vstd::prelude::*;
use crate::scalar_value::ScalarValue;

verus! {

broadcast use vstd::std_specs::vec::axiom_vec_index_decreases;

/// Whether a slot only ever holds a literal, or may hold a reporter
/// subtree or a substack reference.
#[derive(Debug, Clone, Copy, PartialEq, Eq, Structural)]
pub enum BlockFieldType {
    Field,
    Input,
}

/// The shape of a block: a statement, a value producer, a boolean
/// producer, or a script head.
#[derive(Debug, Clone, Copy, PartialEq, Eq, Structural)]
pub enum BlockShape {
    Command,
    Reporter,
    Boolean,
    Hat,
}

/// The immutable metadata of one opcode: its name, its slots in order, and
/// its shape.
#[derive(Debug)]
pub struct BlockSpec {
    pub name: String,
    pub field_types: Vec<BlockFieldType>,
    pub field_names: Vec<String>,
    pub shape: BlockShape,
}

/// One slot of a block: a literal value, an owned reporter subtree, or the
/// table index of the first block of a substack.
#[derive(Debug)]
pub enum BlockInput {
    Literal(ScalarValue),
    Reporter(Box<Block>),
    Substack(usize),
}

/// One block of a target's table: its opcode and shape, its slot values in
/// spec order, and the table indices of its successor and its parent.
#[derive(Debug)]
pub struct Block {
    pub opcode: String,
    pub shape: BlockShape,
    pub field_values: Vec<BlockInput>,
    pub next: Option<usize>,
    pub parent: Option<usize>,
}

/// The number of nodes in a slot's owned subtree.
pub open spec fn input_size(inp: BlockInput) -> nat
    decreases inp,
{
    match inp {
        BlockInput::Reporter(b) => 1 + block_size(*b),
        _ => 1,
    }
}

/// The number of nodes in the first `n` slots' owned subtrees.
pub open spec fn inputs_size(v: Vec<BlockInput>, n: nat) -> nat
    decreases v, n,
{
    if n == 0 || n > v@.len() {
        0
    } else {
        input_size(v@[n - 1]) + inputs_size(v, (n - 1) as nat)
    }
}

/// The number of nodes a block owns, itself included.
pub open spec fn block_size(b: Block) -> nat
    decreases b,
{
    1 + inputs_size(b.field_values, b.field_values@.len())
}

} // verus!
