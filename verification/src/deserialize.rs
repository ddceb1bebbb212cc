//! Turning a decoded project description into the engine's own model: the
//! indexed block tables, the compiled scripts, and the costume and target
//! descriptions. The archive and the JSON text are read outside; this
//! module receives `JsonValue` and is verified.

use vstd::prelude::*;
use crate::block::{Block, BlockInput, BlockSpec};
use crate::block_specs::{spec_lookup, BlockSpecs};
use crate::compile::{compile_blocks, jumps_in_range, CompileDiagnostic};
use crate::engine_data::EngineData;
use crate::instruction::Script;
use crate::json::{lemma_obj_lookup_index, obj_index_of, obj_lookup, JsonValue};
use crate::numerics::{f64_as_nat, f64_to_nat_u64};
use crate::scalar_value::ScalarValue;

verus! {

broadcast use vstd::std_specs::vec::axiom_vec_index_decreases;

/// Why a project description was rejected. Schema errors are fatal for
/// the load, as the engine has always treated them.
#[derive(Debug, Clone, Copy, PartialEq, Eq, Structural)]
pub enum DeserializeError {
    /// A value that had to be a scalar was an array, an object or null.
    NotAScalar,
    /// An input descriptor does not have the tagged two-element form.
    MalformedInputDescriptor,
    /// An input descriptor names a primitive the engine has no spec for,
    /// or one whose spec does not take a single literal.
    MissingBlockSpec,
    /// A substack reference names a block id that is not in the table.
    NonexistentSubstack,
    /// A block object has no inputs object.
    BlockHasNoInputs,
    /// A block object has no fields object.
    BlockHasNoFields,
    /// A spec'd slot is in neither the inputs nor the fields.
    MissingBlockInput,
    /// A slot holds something that is neither a scalar nor a descriptor.
    MalformedBlockInput,
    /// A block id that ought to name a table entry does not.
    NonexistentBlockId,
    /// A `next` or `parent` link names a block id that is not in the table.
    InvalidBlockReference,
    /// A block's opcode has no spec.
    UnknownOpcode,
    /// A block's opcode is not a string.
    OpcodeNotString,
    /// A table entry is not an object.
    BlockNotObject,
    /// A costume object misses one of its fields.
    MalformedCostume,
    /// A target object misses one of its fields.
    MalformedTarget,
    /// The project value has no targets array.
    MalformedProject,
}

/// The block's opcode has a spec, and the block fills exactly that spec's
/// slots and carries its shape.
pub open spec fn block_arity_ok(specs: Seq<BlockSpec>, b: Block) -> bool {
    match spec_lookup(specs, b.opcode@) {
        Some(k) => {
            &&& b.field_values@.len() == specs[k].field_names@.len()
            &&& b.shape == specs[k].shape
        },
        None => false,
    }
}

/// Arity holds of a slot's owned reporter subtree, all the way down.
pub open spec fn input_arity_ok(specs: Seq<BlockSpec>, inp: BlockInput) -> bool
    decreases inp,
{
    match inp {
        BlockInput::Reporter(b) => block_arity_ok_rec(specs, *b),
        _ => true,
    }
}

/// Arity holds of a block and of every reporter subtree it owns.
pub open spec fn block_arity_ok_rec(specs: Seq<BlockSpec>, b: Block) -> bool
    decreases b,
{
    &&& block_arity_ok(specs, b)
    &&& forall|i: int|
        0 <= i < b.field_values@.len() ==> input_arity_ok(specs, #[trigger] b.field_values@[i])
}

/// Every table reference of a slot stays below the table length.
pub open spec fn input_refs_ok(inp: BlockInput, n: int) -> bool
    decreases inp,
{
    match inp {
        BlockInput::Substack(i) => i < n,
        BlockInput::Reporter(b) => block_refs_ok(*b, n),
        BlockInput::Literal(_) => true,
    }
}

/// Every table reference of a block — next, parent, and every substack in
/// its owned subtrees — stays below the table length.
pub open spec fn block_refs_ok(b: Block, n: int) -> bool
    decreases b,
{
    &&& (match b.next {
        Some(i) => i < n,
        None => true,
    })
    &&& (match b.parent {
        Some(i) => i < n,
        None => true,
    })
    &&& forall|i: int|
        0 <= i < b.field_values@.len() ==> input_refs_ok(#[trigger] b.field_values@[i], n)
}

/// Whether a JSON value is a scalar leaf: a boolean, a number or text.
pub open spec fn scalar_shaped(v: JsonValue) -> bool {
    v is Bool || v is Num || v is Str
}

/// The opcode name an input-descriptor primitive id lowers through.
pub open spec fn spec_prim_opcode(id: nat) -> Seq<char> {
    if 4 <= id <= 8 {
        "math_number"@
    } else if id == 9 {
        "colour_picker"@
    } else if id == 10 || id == 11 {
        "text"@
    } else if id == 12 {
        "data_variable"@
    } else {
        "data_listcontents"@
    }
}

/// A well-shaped input descriptor: `[shadow, tail]` where the tail is
/// either a primitive leaf `[id, value]` — the id a whole number from 4 to
/// 13 whose opcode has a one-slot spec, the value a scalar — or a block id
/// that is in the table.
pub open spec fn descriptor_shaped(
    specs: Seq<BlockSpec>,
    table: Seq<(String, JsonValue)>,
    d: Seq<JsonValue>,
) -> bool {
    &&& d.len() >= 2
    &&& match d[1] {
        JsonValue::Arr(tail) => {
            &&& tail@.len() >= 2
            &&& match tail@[0] {
                JsonValue::Num(bits) => match f64_as_nat(bits) {
                    Some(pm) => {
                        &&& 4 <= pm <= 13
                        &&& match spec_lookup(specs, spec_prim_opcode(pm)) {
                            Some(k) => specs[k].field_names@.len() == 1,
                            None => false,
                        }
                    },
                    None => false,
                },
                _ => false,
            }
            &&& scalar_shaped(tail@[1])
        },
        JsonValue::Str(id) => obj_index_of(table, id@) is Some,
        _ => false,
    }
}

/// A well-shaped slot of a block object: found under its name in the
/// inputs or, failing that, the fields, and holding a scalar or a
/// well-shaped descriptor.
pub open spec fn slot_shaped(
    specs: Seq<BlockSpec>,
    table: Seq<(String, JsonValue)>,
    inputs: JsonValue,
    fields: JsonValue,
    name: Seq<char>,
) -> bool {
    let entry = match obj_lookup(inputs.entries(), name) {
        Some(e) => Some(e),
        None => obj_lookup(fields.entries(), name),
    };
    match entry {
        Some(JsonValue::Bool(_)) => true,
        Some(JsonValue::Num(_)) => true,
        Some(JsonValue::Str(_)) => true,
        Some(JsonValue::Arr(a)) => descriptor_shaped(specs, table, a@),
        _ => false,
    }
}

/// A well-shaped link slot: a block id that is in the table, or anything
/// but a string (which stands for no link).
pub open spec fn link_shaped(table: Seq<(String, JsonValue)>, v: Option<JsonValue>) -> bool {
    match v {
        Some(JsonValue::Str(id)) => obj_index_of(table, id@) is Some,
        _ => true,
    }
}

/// A well-shaped block object in its table: a known opcode, its own id in
/// the table, inputs and fields objects, every slot of its spec present
/// and well shaped, and in-table next and parent links.
pub open spec fn block_shaped(
    specs: Seq<BlockSpec>,
    table: Seq<(String, JsonValue)>,
    sb: JsonValue,
    block_id: Seq<char>,
) -> bool {
    match obj_lookup(sb.entries(), "opcode"@) {
        Some(JsonValue::Str(op)) => match spec_lookup(specs, op@) {
            Some(k) => {
                &&& obj_index_of(table, block_id) is Some
                &&& match obj_lookup(sb.entries(), "inputs"@) {
                    Some(inputs) => {
                        &&& inputs is Obj
                        &&& match obj_lookup(sb.entries(), "fields"@) {
                            Some(fields) => {
                                &&& fields is Obj
                                &&& forall|j: int|
                                    0 <= j < specs[k].field_names@.len() ==> slot_shaped(
                                        specs,
                                        table,
                                        inputs,
                                        fields,
                                        (#[trigger] specs[k].field_names@[j])@,
                                    )
                            },
                            None => false,
                        }
                    },
                    None => false,
                }
                &&& link_shaped(table, obj_lookup(sb.entries(), "next"@))
                &&& link_shaped(table, obj_lookup(sb.entries(), "parent"@))
            },
            None => false,
        },
        _ => false,
    }
}

/// How a decoded block corresponds to its object under its id: it fills
/// its spec, its references stay in the table, its opcode, next and
/// parent are the object's, and each slot is the lowering of its entry in
/// the inputs or fields.
pub open spec fn block_matches(
    specs: Seq<BlockSpec>,
    table: Seq<(String, JsonValue)>,
    sb: JsonValue,
    block_id: Seq<char>,
    b: Block,
) -> bool {
    &&& block_arity_ok_rec(specs, b)
    &&& block_refs_ok(b, table.len() as int)
    &&& (match obj_lookup(sb.entries(), "opcode"@) {
        Some(JsonValue::Str(op)) => b.opcode@ == op@,
        _ => false,
    })
    &&& (match obj_lookup(sb.entries(), "next"@) {
        Some(JsonValue::Str(id)) => b.next is Some && obj_index_of(table, id@) == Some(
            b.next.unwrap() as int,
        ),
        _ => b.next is None,
    })
    &&& (match obj_lookup(sb.entries(), "parent"@) {
        Some(JsonValue::Str(id)) => b.parent is Some && obj_index_of(table, id@) == Some(
            b.parent.unwrap() as int,
        ),
        _ => b.parent is None,
    })
    &&& (match obj_lookup(sb.entries(), "inputs"@) {
        Some(inputs_v) => match obj_lookup(sb.entries(), "fields"@) {
            Some(fields_v) => forall|j: int|
                0 <= j < b.field_values@.len() ==> slot_matches(
                    table,
                    inputs_v,
                    fields_v,
                    (#[trigger] spec_slot_name(specs, b.opcode@, j)),
                    obj_index_of(table, block_id).unwrap(),
                    b.field_values@[j],
                ),
            None => false,
        },
        None => false,
    })
}

/// The name of the j-th slot of the spec registered under an opcode.
pub open spec fn spec_slot_name(specs: Seq<BlockSpec>, opcode: Seq<char>, j: int) -> Seq<char> {
    match spec_lookup(specs, opcode) {
        Some(k) => specs[k].field_names@[j]@,
        None => Seq::<char>::empty(),
    }
}

/// A well-shaped block table: an object whose every entry is a well-shaped
/// block object under its own id.
pub open spec fn table_shaped(specs: Seq<BlockSpec>, blocks_obj: JsonValue) -> bool {
    &&& blocks_obj is Obj
    &&& forall|i: int|
        0 <= i < blocks_obj.entries().len() ==> {
            &&& (#[trigger] blocks_obj.entries()[i]).1 is Obj
            &&& block_shaped(
                specs,
                blocks_obj.entries(),
                blocks_obj.entries()[i].1,
                blocks_obj.entries()[i].0@,
            )
        }
}

/// A well-shaped costume object: text under md5ext, assetId, dataFormat
/// and name, numbers under the rotation centre.
pub open spec fn costume_shaped(obj: JsonValue) -> bool {
    &&& (match obj_lookup(obj.entries(), "md5ext"@) {
        Some(v) => v is Str,
        _ => false,
    })
    &&& (match obj_lookup(obj.entries(), "assetId"@) {
        Some(v) => v is Str,
        _ => false,
    })
    &&& (match obj_lookup(obj.entries(), "dataFormat"@) {
        Some(v) => v is Str,
        _ => false,
    })
    &&& (match obj_lookup(obj.entries(), "rotationCenterX"@) {
        Some(v) => v is Num,
        _ => false,
    })
    &&& (match obj_lookup(obj.entries(), "rotationCenterY"@) {
        Some(v) => v is Num,
        _ => false,
    })
    &&& (match obj_lookup(obj.entries(), "name"@) {
        Some(v) => v is Str,
        _ => false,
    })
}

/// The elements of an array value; anything else has none.
pub open spec fn arr_items(v: JsonValue) -> Seq<JsonValue> {
    match v {
        JsonValue::Arr(a) => a@,
        _ => Seq::<JsonValue>::empty(),
    }
}

/// A well-shaped target object: the flags and names of the right shapes, a
/// whole-number layer, a well-shaped block table, and well-shaped
/// costumes. Nothing else can fail a target: compile troubles become
/// diagnostics, not errors.
pub open spec fn target_shaped(specs: Seq<BlockSpec>, obj: JsonValue) -> bool {
    &&& (match obj_lookup(obj.entries(), "isStage"@) {
        Some(v) => v is Bool,
        _ => false,
    })
    &&& (match obj_lookup(obj.entries(), "name"@) {
        Some(v) => v is Str,
        _ => false,
    })
    &&& (match obj_lookup(obj.entries(), "layerOrder"@) {
        Some(lv) => match lv {
            JsonValue::Num(bits) => f64_as_nat(bits) is Some,
            _ => false,
        },
        _ => false,
    })
    &&& (match obj_lookup(obj.entries(), "blocks"@) {
        Some(bo) => table_shaped(specs, bo),
        _ => false,
    })
    &&& (match obj_lookup(obj.entries(), "costumes"@) {
        Some(cv) => cv is Arr && forall|i: int|
            0 <= i < arr_items(cv).len() ==> costume_shaped(#[trigger] arr_items(cv)[i]),
        _ => false,
    })
}

/// A well-shaped project value: a targets array of well-shaped target
/// objects.
pub open spec fn project_shaped(specs: Seq<BlockSpec>, v: JsonValue) -> bool {
    match obj_lookup(v.entries(), "targets"@) {
        Some(tv) => tv is Arr && forall|i: int|
            0 <= i < arr_items(tv).len() ==> (#[trigger] arr_items(tv)[i]) is Obj
                && target_shaped(specs, arr_items(tv)[i]),
        _ => false,
    }
}

/// How a lowered slot corresponds to a descriptor `[shadow, tail]`: a
/// block-id tail becomes the substack at that id's table index; a
/// primitive leaf becomes a one-literal reporter of the primitive's
/// opcode, owned by the block at `parent`.
pub open spec fn descriptor_matches(
    table: Seq<(String, JsonValue)>,
    d: Seq<JsonValue>,
    parent: int,
    inp: BlockInput,
) -> bool {
    match d[1] {
        JsonValue::Str(id) => match inp {
            BlockInput::Substack(ix) => obj_index_of(table, id@) == Some(ix as int),
            _ => false,
        },
        JsonValue::Arr(tail) => match inp {
            BlockInput::Reporter(bx) => {
                let b = *bx;
                &&& (match tail@[0] {
                    JsonValue::Num(bits) => match f64_as_nat(bits) {
                        Some(pm) => b.opcode@ == spec_prim_opcode(pm),
                        None => false,
                    },
                    _ => false,
                })
                &&& b.next is None
                &&& (match b.parent {
                    Some(pp) => pp == parent,
                    None => false,
                })
                &&& b.field_values@.len() == 1
                &&& (match tail@[1] {
                    JsonValue::Bool(x) => b.field_values@[0] == BlockInput::Literal(
                        ScalarValue::Bool(x),
                    ),
                    JsonValue::Num(x) => b.field_values@[0] == BlockInput::Literal(
                        ScalarValue::Num(x),
                    ),
                    JsonValue::Str(t) => b.field_values@[0] == BlockInput::Literal(
                        ScalarValue::Text(t),
                    ),
                    _ => false,
                })
            },
            _ => false,
        },
        _ => false,
    }
}

/// How a lowered slot corresponds to its place in the inputs or fields:
/// a scalar entry becomes its literal, a descriptor entry follows
/// `descriptor_matches`.
pub open spec fn slot_matches(
    table: Seq<(String, JsonValue)>,
    inputs: JsonValue,
    fields: JsonValue,
    name: Seq<char>,
    parent: int,
    inp: BlockInput,
) -> bool {
    let entry = match obj_lookup(inputs.entries(), name) {
        Some(e) => Some(e),
        None => obj_lookup(fields.entries(), name),
    };
    match entry {
        Some(JsonValue::Bool(x)) => inp == BlockInput::Literal(ScalarValue::Bool(x)),
        Some(JsonValue::Num(x)) => inp == BlockInput::Literal(ScalarValue::Num(x)),
        Some(JsonValue::Str(t)) => inp == BlockInput::Literal(ScalarValue::Text(t)),
        Some(JsonValue::Arr(a)) => descriptor_matches(table, a@, parent, inp),
        _ => false,
    }
}

/// The scalar a JSON leaf stands for: a boolean, a number, or text.
/// Exactly the other shapes are rejected.
pub fn scalar_from_json(v: &JsonValue) -> (r: Result<ScalarValue, DeserializeError>)
    ensures
        match r {
            Ok(s) => match *v {
                JsonValue::Bool(b) => s == ScalarValue::Bool(b),
                JsonValue::Num(n) => s == ScalarValue::Num(n),
                JsonValue::Str(t) => s == ScalarValue::Text(t),
                _ => false,
            },
            Err(e) => {
                &&& e == DeserializeError::NotAScalar
                &&& !(*v is Bool)
                &&& !(*v is Num)
                &&& !(*v is Str)
            },
        },
{
    match v {
        JsonValue::Bool(b) => Ok(ScalarValue::Bool(*b)),
        JsonValue::Num(n) => Ok(ScalarValue::Num(*n)),
        JsonValue::Str(t) => Ok(ScalarValue::Text(t.clone())),
        _ => Err(DeserializeError::NotAScalar),
    }
}

/// The opcode name an input-descriptor primitive id lowers through:
/// the number primitives share the number spec, the text-like ones the
/// text spec, and the data primitives their own.
fn primitive_opcode(id: u64) -> (r: Option<&'static str>)
    ensures
        r is Some <==> 4 <= id <= 13,
        match r {
            Some(name) => name@ == spec_prim_opcode(id as nat),
            None => true,
        },
{
    if 4 <= id && id <= 8 {
        Some("math_number")
    } else if id == 9 {
        Some("colour_picker")
    } else if id == 10 || id == 11 {
        Some("text")
    } else if id == 12 {
        Some("data_variable")
    } else if id == 13 {
        Some("data_listcontents")
    } else {
        None
    }
}

/// Lower one input descriptor `[shadow, [primitive, value, ..]]` (the
/// shadow tag is not read): a primitive-typed leaf becomes a one-literal
/// reporter block of the matching spec, a string names the substack
/// starting at that block id.
pub fn deserialize_input_descriptor(
    descriptor: &Vec<JsonValue>,
    block_specs: &BlockSpecs,
    blocks_obj: &JsonValue,
    parent: usize,
) -> (r: Result<BlockInput, DeserializeError>)
    requires
        (parent as int) < blocks_obj.entries().len(),
    ensures
        match r {
            Ok(inp) => {
                &&& input_arity_ok(block_specs.specs@, inp)
                &&& input_refs_ok(inp, blocks_obj.entries().len() as int)
                &&& descriptor_matches(blocks_obj.entries(), descriptor@, parent as int, inp)
            },
            Err(_) => true,
        },
        r is Ok <==> descriptor_shaped(block_specs.specs@, blocks_obj.entries(), descriptor@),
{
    if descriptor.len() < 2 {
        return Err(DeserializeError::MalformedInputDescriptor);
    }
    match &descriptor[1] {
        JsonValue::Arr(arr) => {
            if arr.len() < 2 {
                return Err(DeserializeError::MalformedInputDescriptor);
            }
            let prim_bits = match arr[0].as_num_bits() {
                Some(b) => b,
                None => {
                    return Err(DeserializeError::MalformedInputDescriptor);
                },
            };
            let prim = match crate::numerics::f64_to_nat_u64(prim_bits) {
                Some(n) => n,
                None => {
                    return Err(DeserializeError::MalformedInputDescriptor);
                },
            };
            let opcode = match primitive_opcode(prim) {
                Some(name) => name,
                None => {
                    return Err(DeserializeError::MalformedInputDescriptor);
                },
            };
            proof {
                assert(opcode@ == spec_prim_opcode(prim as nat));
            }
            let sp = match block_specs.get(opcode) {
                Some(sp) => sp,
                None => {
                    return Err(DeserializeError::MissingBlockSpec);
                },
            };
            // A primitive leaf carries exactly one literal; a spec of any
            // other arity cannot take it.
            if sp.field_names.len() != 1 {
                return Err(DeserializeError::MissingBlockSpec);
            }
            let value = match scalar_from_json(&arr[1]) {
                Ok(v) => v,
                Err(e) => {
                    return Err(e);
                },
            };
            let block = Block {
                opcode: sp.name.clone(),
                shape: sp.shape,
                field_values: vec![BlockInput::Literal(value)],
                next: None,
                parent: Some(parent),
            };
            proof {
                assert(block.opcode@ == sp.name@);
                assert(spec_lookup(block_specs.specs@, block.opcode@) == spec_lookup(
                    block_specs.specs@,
                    opcode@,
                ));
                assert(block_arity_ok(block_specs.specs@, block));
                assert(forall|i: int|
                    0 <= i < block.field_values@.len() ==> input_arity_ok(
                        block_specs.specs@,
                        #[trigger] block.field_values@[i],
                    ));
                assert(block_arity_ok_rec(block_specs.specs@, block));
                assert(forall|i: int|
                    0 <= i < block.field_values@.len() ==> input_refs_ok(
                        #[trigger] block.field_values@[i],
                        blocks_obj.entries().len() as int,
                    ));
                assert(block_refs_ok(block, blocks_obj.entries().len() as int));
            }
            Ok(BlockInput::Reporter(Box::new(block)))
        },
        JsonValue::Str(substack_id) => {
            match blocks_obj.index_of(substack_id.as_str()) {
                Some(idx) => {
                    proof {
                        lemma_obj_lookup_index(blocks_obj.entries(), substack_id@);
                    }
                    Ok(BlockInput::Substack(idx))
                },
                None => Err(DeserializeError::NonexistentSubstack),
            }
        },
        _ => Err(DeserializeError::MalformedInputDescriptor),
    }
}

/// Flatten one block object: look its opcode's spec up, fill the spec's
/// slots from the inputs and fields objects, and turn the next and parent
/// ids into table indices. The result fills its spec exactly and keeps
/// every reference inside the table.
pub fn deserialize_block(
    serialized_block: &JsonValue,
    block_specs: &BlockSpecs,
    blocks_obj: &JsonValue,
    block_id: &str,
) -> (r: Result<Block, DeserializeError>)
    ensures
        match r {
            Ok(b) => block_matches(
                block_specs.specs@,
                blocks_obj.entries(),
                *serialized_block,
                block_id@,
                b,
            ),
            Err(_) => true,
        },
        r is Ok <==> block_shaped(
            block_specs.specs@,
            blocks_obj.entries(),
            *serialized_block,
            block_id@,
        ),
{
    let opcode = match serialized_block.get("opcode") {
        Some(v) => match v.as_str() {
            Some(s) => s,
            None => {
                return Err(DeserializeError::OpcodeNotString);
            },
        },
        None => {
            return Err(DeserializeError::OpcodeNotString);
        },
    };
    let sp = match block_specs.get(opcode.as_str()) {
        Some(sp) => sp,
        None => {
            return Err(DeserializeError::UnknownOpcode);
        },
    };
    let own_index = match blocks_obj.index_of(block_id) {
        Some(i) => i,
        None => {
            return Err(DeserializeError::NonexistentBlockId);
        },
    };
    proof {
        lemma_obj_lookup_index(blocks_obj.entries(), block_id@);
    }
    let inputs = match serialized_block.get("inputs") {
        Some(v) => {
            if v.is_obj() {
                v
            } else {
                return Err(DeserializeError::BlockHasNoInputs);
            }
        },
        None => {
            return Err(DeserializeError::BlockHasNoInputs);
        },
    };
    let fields = match serialized_block.get("fields") {
        Some(v) => {
            if v.is_obj() {
                v
            } else {
                return Err(DeserializeError::BlockHasNoFields);
            }
        },
        None => {
            return Err(DeserializeError::BlockHasNoFields);
        },
    };

    let ghost bs = block_specs.specs@;
    let ghost tbl = blocks_obj.entries();
    let ghost sb = *serialized_block;
    proof {
        assert(spec_lookup(bs, opcode@) is Some);
    }
    let nnames = sp.field_names.len();
    let mut field_values: Vec<BlockInput> = Vec::new();
    let mut fi: usize = 0;
    while fi < nnames
        invariant
            fi <= nnames,
            bs == block_specs.specs@,
            tbl == blocks_obj.entries(),
            sb == *serialized_block,
            (own_index as int) < blocks_obj.entries().len(),
            nnames == sp.field_names@.len(),
            spec_lookup(bs, opcode@) is Some,
            *sp == bs[spec_lookup(bs, opcode@).unwrap()],
            sp.name@ == opcode@,
            (match obj_lookup(sb.entries(), "opcode"@) {
                Some(JsonValue::Str(op)) => op@ == opcode@,
                _ => false,
            }),
            obj_index_of(tbl, block_id@) == Some(own_index as int),
            obj_lookup(sb.entries(), "inputs"@) == Some(*inputs),
            *inputs is Obj,
            obj_lookup(sb.entries(), "fields"@) == Some(*fields),
            *fields is Obj,
            field_values@.len() == fi,
            forall|i: int|
                0 <= i < fi ==> input_arity_ok(block_specs.specs@, #[trigger] field_values@[i]),
            forall|i: int|
                0 <= i < fi ==> input_refs_ok(
                    #[trigger] field_values@[i],
                    blocks_obj.entries().len() as int,
                ),
            forall|j: int|
                0 <= j < fi ==> slot_shaped(bs, tbl, *inputs, *fields, (#[trigger] sp.field_names@[j])@),
            forall|j: int|
                0 <= j < fi ==> slot_matches(
                    tbl,
                    *inputs,
                    *fields,
                    (#[trigger] sp.field_names@[j])@,
                    own_index as int,
                    field_values@[j],
                ),
        decreases nnames - fi,
    {
        let name = sp.field_names[fi].as_str();
        let entry = match inputs.get(name) {
            Some(e) => e,
            None => match fields.get(name) {
                Some(e) => e,
                None => {
                    proof {
                        assert(!slot_shaped(bs, tbl, *inputs, *fields, name@));
                        assert(!block_shaped(bs, tbl, sb, block_id@));
                    }
                    return Err(DeserializeError::MissingBlockInput);
                },
            },
        };
        let lowered = match entry {
            JsonValue::Bool(_) | JsonValue::Num(_) | JsonValue::Str(_) => {
                match scalar_from_json(entry) {
                    Ok(v) => BlockInput::Literal(v),
                    Err(e) => {
                        return Err(e);
                    },
                }
            },
            JsonValue::Arr(arr) => {
                match deserialize_input_descriptor(arr, block_specs, blocks_obj, own_index) {
                    Ok(inp) => inp,
                    Err(e) => {
                        proof {
                            assert(!slot_shaped(bs, tbl, *inputs, *fields, name@));
                            assert(!block_shaped(bs, tbl, sb, block_id@));
                        }
                        return Err(e);
                    },
                }
            },
            _ => {
                proof {
                    assert(!slot_shaped(bs, tbl, *inputs, *fields, name@));
                    assert(!block_shaped(bs, tbl, sb, block_id@));
                }
                return Err(DeserializeError::MalformedBlockInput);
            },
        };
        proof {
            assert(slot_shaped(bs, tbl, *inputs, *fields, name@));
            assert(slot_matches(tbl, *inputs, *fields, name@, own_index as int, lowered));
        }
        field_values.push(lowered);
        fi += 1;
    }

    let next = match serialized_block.get("next") {
        Some(v) => match v.as_str() {
            Some(id) => match blocks_obj.index_of(id.as_str()) {
                Some(i) => {
                    proof {
                        lemma_obj_lookup_index(blocks_obj.entries(), id@);
                    }
                    Some(i)
                },
                None => {
                    proof {
                        assert(!link_shaped(tbl, obj_lookup(sb.entries(), "next"@)));
                        assert(!block_shaped(bs, tbl, sb, block_id@));
                    }
                    return Err(DeserializeError::InvalidBlockReference);
                },
            },
            None => None,
        },
        None => None,
    };
    let parent = match serialized_block.get("parent") {
        Some(v) => match v.as_str() {
            Some(id) => match blocks_obj.index_of(id.as_str()) {
                Some(i) => {
                    proof {
                        lemma_obj_lookup_index(blocks_obj.entries(), id@);
                    }
                    Some(i)
                },
                None => {
                    proof {
                        assert(!link_shaped(tbl, obj_lookup(sb.entries(), "parent"@)));
                        assert(!block_shaped(bs, tbl, sb, block_id@));
                    }
                    return Err(DeserializeError::InvalidBlockReference);
                },
            },
            None => None,
        },
        None => None,
    };

    let result = Block { opcode: sp.name.clone(), shape: sp.shape, field_values, next, parent };
    proof {
        assert(block_shaped(bs, tbl, sb, block_id@));
        assert(forall|j: int|
            0 <= j < result.field_values@.len() ==> spec_slot_name(bs, result.opcode@, j)
                == (#[trigger] sp.field_names@[j])@);
        assert(block_matches(bs, tbl, sb, block_id@, result));
    }
    Ok(result)
}

/// Flatten a target's whole block table: the entries of the blocks object
/// in order, each by `deserialize_block`. Every block of the result fills
/// its spec and refers only inside the table.
pub fn deserialize_blocks(blocks_obj: &JsonValue, eng_data: &EngineData) -> (r: Result<
    Vec<Block>,
    DeserializeError,
>)
    ensures
        match r {
            Ok(v) => {
                &&& v@.len() == blocks_obj.entries().len()
                &&& forall|i: int|
                    0 <= i < v@.len() ==> block_arity_ok_rec(
                        eng_data.block_specs.specs@,
                        #[trigger] v@[i],
                    )
                &&& forall|i: int|
                    0 <= i < v@.len() ==> block_refs_ok(#[trigger] v@[i], v@.len() as int)
                &&& forall|i: int|
                    0 <= i < v@.len() ==> block_matches(
                        eng_data.block_specs.specs@,
                        blocks_obj.entries(),
                        blocks_obj.entries()[i].1,
                        blocks_obj.entries()[i].0@,
                        #[trigger] v@[i],
                    )
            },
            Err(_) => true,
        },
        r is Ok <==> table_shaped(eng_data.block_specs.specs@, *blocks_obj),
{
    let entries = match blocks_obj {
        JsonValue::Obj(entries) => entries,
        _ => {
            return Err(DeserializeError::BlockNotObject);
        },
    };
    let ghost bs = eng_data.block_specs.specs@;
    let n = entries.len();
    let mut blocks: Vec<Block> = Vec::new();
    let mut i: usize = 0;
    while i < n
        invariant
            i <= n,
            n == entries@.len(),
            bs == eng_data.block_specs.specs@,
            *blocks_obj == JsonValue::Obj(*entries),
            n == blocks_obj.entries().len(),
            blocks@.len() == i,
            forall|k: int|
                0 <= k < i ==> block_arity_ok_rec(
                    eng_data.block_specs.specs@,
                    #[trigger] blocks@[k],
                ),
            forall|k: int| 0 <= k < i ==> block_refs_ok(#[trigger] blocks@[k], n as int),
            forall|k: int|
                0 <= k < i ==> {
                    &&& (#[trigger] entries@[k]).1 is Obj
                    &&& block_shaped(bs, entries@, entries@[k].1, entries@[k].0@)
                },
            forall|k: int|
                0 <= k < i ==> block_matches(
                    bs,
                    entries@,
                    entries@[k].1,
                    entries@[k].0@,
                    #[trigger] blocks@[k],
                ),
        decreases n - i,
    {
        let serialized = &entries[i].1;
        if !serialized.is_obj() {
            proof {
                assert(!table_shaped(bs, *blocks_obj));
            }
            return Err(DeserializeError::BlockNotObject);
        }
        let block = match deserialize_block(
            serialized,
            &eng_data.block_specs,
            blocks_obj,
            entries[i].0.as_str(),
        ) {
            Ok(b) => b,
            Err(e) => {
                proof {
                    assert(!block_shaped(bs, entries@, entries@[i as int].1, entries@[i as int].0@));
                    assert(!table_shaped(bs, *blocks_obj));
                }
                return Err(e);
            },
        };
        proof {
            assert(block_shaped(bs, entries@, entries@[i as int].1, entries@[i as int].0@));
            assert(block_matches(bs, entries@, entries@[i as int].1, entries@[i as int].0@, block));
        }
        blocks.push(block);
        i += 1;
    }
    proof {
        assert(table_shaped(bs, *blocks_obj));
    }
    Ok(blocks)
}

/// One costume as its object describes it: where its bytes live in the
/// archive, its content digest and data format, its rotation centre, and
/// its name. The bytes themselves are read outside.
pub struct CostumePlan {
    pub md5ext: String,
    pub asset_id: String,
    pub data_format: String,
    pub rotation_center_x: u64,
    pub rotation_center_y: u64,
    pub name: String,
}

/// How a costume plan corresponds to its object.
pub open spec fn costume_plan_matches(obj: JsonValue, c: CostumePlan) -> bool {
    &&& obj_lookup(obj.entries(), "md5ext"@) == Some(JsonValue::Str(c.md5ext))
    &&& obj_lookup(obj.entries(), "assetId"@) == Some(JsonValue::Str(c.asset_id))
    &&& obj_lookup(obj.entries(), "dataFormat"@) == Some(JsonValue::Str(c.data_format))
    &&& obj_lookup(obj.entries(), "rotationCenterX"@) == Some(
        JsonValue::Num(c.rotation_center_x),
    )
    &&& obj_lookup(obj.entries(), "rotationCenterY"@) == Some(
        JsonValue::Num(c.rotation_center_y),
    )
    &&& obj_lookup(obj.entries(), "name"@) == Some(JsonValue::Str(c.name))
}

/// Read one costume description out of its object.
pub fn deserialize_costume(serialized_costume: &JsonValue) -> (r: Result<
    CostumePlan,
    DeserializeError,
>)
    ensures
        match r {
            Ok(c) => costume_plan_matches(*serialized_costume, c),
            Err(_) => true,
        },
        r is Ok <==> costume_shaped(*serialized_costume),
{
    let md5ext = match serialized_costume.get("md5ext") {
        Some(v) => match v.as_str() {
            Some(s) => s.clone(),
            None => {
                return Err(DeserializeError::MalformedCostume);
            },
        },
        None => {
            return Err(DeserializeError::MalformedCostume);
        },
    };
    let asset_id = match serialized_costume.get("assetId") {
        Some(v) => match v.as_str() {
            Some(s) => s.clone(),
            None => {
                return Err(DeserializeError::MalformedCostume);
            },
        },
        None => {
            return Err(DeserializeError::MalformedCostume);
        },
    };
    let data_format = match serialized_costume.get("dataFormat") {
        Some(v) => match v.as_str() {
            Some(s) => s.clone(),
            None => {
                return Err(DeserializeError::MalformedCostume);
            },
        },
        None => {
            return Err(DeserializeError::MalformedCostume);
        },
    };
    let rotation_center_x = match serialized_costume.get("rotationCenterX") {
        Some(v) => match v.as_num_bits() {
            Some(b) => b,
            None => {
                return Err(DeserializeError::MalformedCostume);
            },
        },
        None => {
            return Err(DeserializeError::MalformedCostume);
        },
    };
    let rotation_center_y = match serialized_costume.get("rotationCenterY") {
        Some(v) => match v.as_num_bits() {
            Some(b) => b,
            None => {
                return Err(DeserializeError::MalformedCostume);
            },
        },
        None => {
            return Err(DeserializeError::MalformedCostume);
        },
    };
    let name = match serialized_costume.get("name") {
        Some(v) => match v.as_str() {
            Some(s) => s.clone(),
            None => {
                return Err(DeserializeError::MalformedCostume);
            },
        },
        None => {
            return Err(DeserializeError::MalformedCostume);
        },
    };
    Ok(CostumePlan { md5ext, asset_id, data_format, rotation_center_x, rotation_center_y, name })
}

/// One target, ready for the runtime but for its costume bytes: the
/// compiled scripts with the compiler's diagnostics, and the costume
/// plans for the loader outside.
pub struct TargetPlan {
    pub is_stage: bool,
    pub name: String,
    pub layer_order: u32,
    pub scripts: Vec<Script>,
    pub costumes: Vec<CostumePlan>,
    pub diagnostics: Vec<CompileDiagnostic>,
}

/// How a target plan corresponds to its object: the flags and names are
/// the object's, and every compiled script has well-formed jumps.
pub open spec fn target_plan_matches(obj: JsonValue, p: TargetPlan) -> bool {
    &&& obj_lookup(obj.entries(), "isStage"@) == Some(JsonValue::Bool(p.is_stage))
    &&& obj_lookup(obj.entries(), "name"@) == Some(JsonValue::Str(p.name))
    &&& (match obj_lookup(obj.entries(), "layerOrder"@) {
        Some(JsonValue::Num(bits)) => match f64_as_nat(bits) {
            Some(n) => p.layer_order == n % 0x1_0000_0000,
            None => false,
        },
        _ => false,
    })
    &&& (match obj_lookup(obj.entries(), "costumes"@) {
        Some(JsonValue::Arr(a)) => {
            &&& p.costumes@.len() == a@.len()
            &&& forall|i: int|
                0 <= i < a@.len() ==> costume_plan_matches(#[trigger] a@[i], p.costumes@[i])
        },
        _ => false,
    })
    &&& forall|k: int|
        0 <= k < p.scripts@.len() ==> jumps_in_range(#[trigger] p.scripts@[k].instructions@)
}

/// Read one target out of its object: flatten its blocks, compile its
/// scripts, and keep its costume plans for the loader.
pub fn deserialize_target(serialized_target: &JsonValue, eng_data: &EngineData) -> (r: Result<
    TargetPlan,
    DeserializeError,
>)
    ensures
        match r {
            Ok(p) => target_plan_matches(*serialized_target, p),
            Err(_) => true,
        },
        r is Ok <==> target_shaped(eng_data.block_specs.specs@, *serialized_target),
{
    let is_stage = match serialized_target.get("isStage") {
        Some(v) => match v.as_bool() {
            Some(b) => b,
            None => {
                return Err(DeserializeError::MalformedTarget);
            },
        },
        None => {
            return Err(DeserializeError::MalformedTarget);
        },
    };
    let name = match serialized_target.get("name") {
        Some(v) => match v.as_str() {
            Some(s) => s.clone(),
            None => {
                return Err(DeserializeError::MalformedTarget);
            },
        },
        None => {
            return Err(DeserializeError::MalformedTarget);
        },
    };
    let layer_bits = match serialized_target.get("layerOrder") {
        Some(v) => match v.as_num_bits() {
            Some(b) => b,
            None => {
                return Err(DeserializeError::MalformedTarget);
            },
        },
        None => {
            return Err(DeserializeError::MalformedTarget);
        },
    };
    let layer_nat = match f64_to_nat_u64(layer_bits) {
        Some(n) => n,
        None => {
            return Err(DeserializeError::MalformedTarget);
        },
    };
    let layer_order: u32 = (layer_nat % 0x1_0000_0000) as u32;
    let blocks_obj = match serialized_target.get("blocks") {
        Some(v) => {
            if v.is_obj() {
                v
            } else {
                return Err(DeserializeError::MalformedTarget);
            }
        },
        None => {
            return Err(DeserializeError::MalformedTarget);
        },
    };
    let costumes_arr = match serialized_target.get("costumes") {
        Some(v) => match v.as_arr() {
            Some(a) => a,
            None => {
                return Err(DeserializeError::MalformedTarget);
            },
        },
        None => {
            return Err(DeserializeError::MalformedTarget);
        },
    };

    let d_blocks = match deserialize_blocks(blocks_obj, eng_data) {
        Ok(b) => b,
        Err(e) => {
            return Err(e);
        },
    };
    let compiled = compile_blocks(&d_blocks);
    let scripts = compiled.0;
    let diagnostics = compiled.1;

    let ghost tspecs = eng_data.block_specs.specs@;
    let ghost tobj = *serialized_target;
    let nc = costumes_arr.len();
    let mut costumes: Vec<CostumePlan> = Vec::new();
    let mut i: usize = 0;
    while i < nc
        invariant
            i <= nc,
            nc == costumes_arr@.len(),
            costumes@.len() == i,
            tobj == *serialized_target,
            obj_lookup(tobj.entries(), "costumes"@) == Some(JsonValue::Arr(*costumes_arr)),
            forall|k: int|
                0 <= k < i ==> costume_plan_matches(#[trigger] costumes_arr@[k], costumes@[k]),
            forall|k: int| 0 <= k < i ==> costume_shaped(#[trigger] costumes_arr@[k]),
        decreases nc - i,
    {
        let plan = match deserialize_costume(&costumes_arr[i]) {
            Ok(c) => c,
            Err(e) => {
                proof {
                    assert(!costume_shaped(costumes_arr@[i as int]));
                    assert(arr_items(JsonValue::Arr(*costumes_arr)) == costumes_arr@);
                    assert(!target_shaped(tspecs, tobj));
                }
                return Err(e);
            },
        };
        costumes.push(plan);
        i += 1;
    }

    proof {
        assert(arr_items(JsonValue::Arr(*costumes_arr)) == costumes_arr@);
        assert(target_shaped(tspecs, tobj));
    }
    Ok(TargetPlan { is_stage, name, layer_order, scripts, costumes, diagnostics })
}

/// Read a whole project: every entry of its targets array, in order.
pub fn deserialize_project(v: &JsonValue, eng_data: &EngineData) -> (r: Result<
    Vec<TargetPlan>,
    DeserializeError,
>)
    ensures
        match r {
            Ok(ps) => {
                &&& forall|i: int, k: int|
                    0 <= i < ps@.len() && 0 <= k < (#[trigger] ps@[i]).scripts@.len()
                        ==> jumps_in_range(#[trigger] ps@[i].scripts@[k].instructions@)
                &&& (match obj_lookup(v.entries(), "targets"@) {
                    Some(JsonValue::Arr(a)) => ps@.len() == a@.len() && forall|i: int|
                        0 <= i < a@.len() ==> target_plan_matches(
                            #[trigger] a@[i],
                            ps@[i],
                        ),
                    _ => false,
                })
            },
            Err(_) => true,
        },
        r is Ok <==> project_shaped(eng_data.block_specs.specs@, *v),
{
    let targets_arr = match v.get("targets") {
        Some(t) => match t.as_arr() {
            Some(a) => a,
            None => {
                return Err(DeserializeError::MalformedProject);
            },
        },
        None => {
            return Err(DeserializeError::MalformedProject);
        },
    };
    let ghost pspecs = eng_data.block_specs.specs@;
    let ghost pobj = *v;
    let n = targets_arr.len();
    let mut plans: Vec<TargetPlan> = Vec::new();
    let mut i: usize = 0;
    while i < n
        invariant
            i <= n,
            n == targets_arr@.len(),
            plans@.len() == i,
            pspecs == eng_data.block_specs.specs@,
            pobj == *v,
            obj_lookup(pobj.entries(), "targets"@) == Some(JsonValue::Arr(*targets_arr)),
            forall|p: int, k: int|
                0 <= p < plans@.len() && 0 <= k < (#[trigger] plans@[p]).scripts@.len()
                    ==> jumps_in_range(#[trigger] plans@[p].scripts@[k].instructions@),
            forall|p: int|
                0 <= p < i ==> target_plan_matches(#[trigger] targets_arr@[p], plans@[p]),
            forall|p: int|
                0 <= p < i ==> (#[trigger] targets_arr@[p]) is Obj && target_shaped(
                    pspecs,
                    targets_arr@[p],
                ),
        decreases n - i,
    {
        if !targets_arr[i].is_obj() {
            proof {
                assert(arr_items(JsonValue::Arr(*targets_arr)) == targets_arr@);
                assert(!project_shaped(pspecs, pobj));
            }
            return Err(DeserializeError::MalformedProject);
        }
        let plan = match deserialize_target(&targets_arr[i], eng_data) {
            Ok(p) => p,
            Err(e) => {
                proof {
                    assert(!target_shaped(pspecs, targets_arr@[i as int]));
                    assert(arr_items(JsonValue::Arr(*targets_arr)) == targets_arr@);
                    assert(!project_shaped(pspecs, pobj));
                }
                return Err(e);
            },
        };
        let ghost before_plans = plans@;
        plans.push(plan);
        proof {
            assert forall|p: int, k: int|
                0 <= p < plans@.len() && 0 <= k < (#[trigger] plans@[p]).scripts@.len() implies
                jumps_in_range(#[trigger] plans@[p].scripts@[k].instructions@) by {
                if p < before_plans.len() {
                    assert(plans@[p] == before_plans[p]);
                } else {
                    assert(plans@[p] == plan);
                    assert(target_plan_matches(targets_arr@[i as int], plan));
                    assert(jumps_in_range(plan.scripts@[k].instructions@));
                }
            }
        }
        i += 1;
    }
    proof {
        assert(arr_items(JsonValue::Arr(*targets_arr)) == targets_arr@);
        assert(project_shaped(pspecs, pobj));
    }
    Ok(plans)
}

} // verus!
