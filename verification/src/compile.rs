//! The block-to-bytecode compiler: lowers a hat-rooted block graph into a
//! flat instruction sequence, backpatching the forward jump of each repeat
//! loop.
//!
//! Every function only appends to the code (and patches slots it appended
//! itself), and keeps every jump target within [0, length] of the code
//! built so far, so every finished script has well-formed jumps.

use vstd::prelude::*;
use crate::block::{block_size, input_size, inputs_size, Block, BlockInput};
use crate::instruction::{Instruction, Script};
use crate::machine::repeat_block_shape;
use crate::numerics::{NUM_HALF, NUM_ONE};
use crate::scalar_value::{str_eq, ScalarValue};
use crate::trigger::Trigger;

verus! {

/// What the compiler reports. An unknown opcode is a warning — the block
/// lowers to nothing; the others are fatal for their script alone.
#[derive(Debug)]
pub enum CompileDiagnostic {
    /// No spec is known for this opcode; the block was skipped.
    UnknownOpcode(String),
    /// A hat with this opcode cannot be turned into a trigger.
    UnknownHat(String),
    /// A `next` or substack reference leaves the block table.
    InvalidIndex(usize),
    /// The graph nests deeper than any acyclic table of this size can:
    /// it must hold a cycle.
    NestingTooDeep,
}

/// Every jump in the code aims at or below the bound.
pub open spec fn targets_le(code: Seq<Instruction>, bound: int) -> bool {
    forall|i: int|
        0 <= i < code.len() ==> (match #[trigger] code[i] {
            Instruction::Jump(t) => t <= bound,
            Instruction::JumpIfTrue(t) => t <= bound,
            _ => true,
        })
}

/// Every jump aims inside [0, length] of the code itself.
pub open spec fn jumps_in_range(code: Seq<Instruction>) -> bool {
    targets_le(code, code.len() as int)
}

/// The earlier code stands unchanged at the head of the later.
pub open spec fn prefix_of(p: Seq<Instruction>, s: Seq<Instruction>) -> bool {
    p.len() <= s.len() && s.subrange(0, p.len() as int) == p
}

/// Standing at the head is transitive.
pub proof fn lemma_prefix_of_trans(a: Seq<Instruction>, b: Seq<Instruction>, c: Seq<Instruction>)
    requires
        prefix_of(a, b),
        prefix_of(b, c),
    ensures
        prefix_of(a, c),
{
    assert forall|i: int| 0 <= i < a.len() implies c[i] == a[i] by {
        assert(b[i] == c.subrange(0, b.len() as int)[i]);
        assert(a[i] == b.subrange(0, a.len() as int)[i]);
    }
    assert(c.subrange(0, a.len() as int) =~= a);
}

/// Appending one instruction keeps the old code at the head.
pub proof fn lemma_push_prefix(p: Seq<Instruction>, x: Instruction)
    ensures
        prefix_of(p, p.push(x)),
{
    assert(p.push(x).subrange(0, p.len() as int) =~= p);
}

/// The engine's opcode names are pairwise distinct pieces of text.
proof fn lemma_distinct_opcodes()
    ensures
        "math_number"@ != "control_repeat"@,
        "motion_movesteps"@ != "control_repeat"@,
{
    reveal_strlit("math_number");
    reveal_strlit("motion_movesteps");
    reveal_strlit("control_repeat");
    assert("math_number"@.len() == 11);
    assert("control_repeat"@.len() == 14);
    assert("motion_movesteps"@.len() == 16);
}

/// Within a prefix, every slot reads the same.
proof fn lemma_prefix_index(a: Seq<Instruction>, b: Seq<Instruction>, i: int)
    requires
        prefix_of(a, b),
        0 <= i < a.len(),
    ensures
        b[i] == a[i],
{
    assert(a[i] == b.subrange(0, a.len() as int)[i]);
}

/// A slot's subtree is no larger than all slots' together.
pub proof fn lemma_input_size_le(v: Vec<BlockInput>, i: int, n: nat)
    requires
        0 <= i < n,
        n <= v@.len(),
    ensures
        input_size(v@[i]) <= inputs_size(v, n),
    decreases n,
{
    if i < n - 1 {
        lemma_input_size_le(v, i, (n - 1) as nat);
    }
}

/// What one slot lowers to, laid down from code position `at`; nothing
/// when a reference leaves the table or the fuel runs out. This is the
/// compiler's own meaning: each compile function is proved to append
/// exactly this.
pub open spec fn lower_input(blocks: Seq<Block>, inp: BlockInput, at: int, fuel: nat) -> Option<
    Seq<Instruction>,
>
    decreases fuel, input_size(inp), 0nat,
{
    match inp {
        BlockInput::Literal(v) => Some(seq![Instruction::Push(v)]),
        BlockInput::Reporter(b) => lower_block(blocks, *b, at, fuel),
        BlockInput::Substack(i) => lower_chain(blocks, i as int, at, fuel),
    }
}

/// What one block lowers to from code position `at`: a number literal to
/// its push, a move to its input's code then the move, a repeat to the
/// saved frame, the counter code, the counter loop and its cleanup, and
/// an unknown opcode to nothing.
pub open spec fn lower_block(blocks: Seq<Block>, b: Block, at: int, fuel: nat) -> Option<
    Seq<Instruction>,
>
    decreases fuel, block_size(b), 1nat,
{
    if b.opcode@ == "math_number"@ {
        if b.field_values@.len() < 1 {
            Some(Seq::<Instruction>::empty())
        } else {
            {
                proof {
                    lemma_input_size_le(b.field_values, 0, b.field_values@.len());
                }
                lower_input(blocks, b.field_values@[0], at, fuel)
            }
        }
    } else if b.opcode@ == "motion_movesteps"@ {
        if b.field_values@.len() < 1 {
            Some(Seq::<Instruction>::empty())
        } else {
            {
                proof {
                    lemma_input_size_le(b.field_values, 0, b.field_values@.len());
                }
                match lower_input(blocks, b.field_values@[0], at, fuel) {
                    Some(c) => Some(c.push(Instruction::MoveSteps)),
                    None => None,
                }
            }
        }
    } else if b.opcode@ == "control_repeat"@ {
        if b.field_values@.len() < 2 {
            Some(Seq::<Instruction>::empty())
        } else {
            {
                proof {
                    lemma_input_size_le(b.field_values, 0, b.field_values@.len());
                    lemma_input_size_le(b.field_values, 1, b.field_values@.len());
                }
                match lower_input(blocks, b.field_values@[0], at + 1, fuel) {
                    None => None,
                    Some(times) => {
                        let p = at + 2 + times.len();
                        match lower_input(blocks, b.field_values@[1], p + 8, fuel) {
                            None => None,
                            Some(body) => {
                                let q = p + 9 + body.len();
                                Some(
                                    seq![Instruction::SaveStackFrame] + times + seq![
                                        Instruction::WriteFrameValue,
                                        Instruction::ReadFrameValue,
                                        Instruction::Push(ScalarValue::Num(NUM_HALF)),
                                        Instruction::LessThan,
                                        Instruction::JumpIfTrue(q as usize),
                                        Instruction::ReadFrameValue,
                                        Instruction::Push(ScalarValue::Num(NUM_ONE)),
                                        Instruction::Subtract,
                                        Instruction::WriteFrameValue,
                                    ] + body + seq![
                                        Instruction::Jump(p as usize),
                                        Instruction::RestoreStackFrame,
                                    ],
                                )
                            },
                        }
                    },
                }
            }
        }
    } else {
        Some(Seq::<Instruction>::empty())
    }
}

/// What a command chain lowers to from code position `at`: each block
/// along the `next` links in order, the fuel falling with every link.
pub open spec fn lower_chain(blocks: Seq<Block>, idx: int, at: int, fuel: nat) -> Option<
    Seq<Instruction>,
>
    decreases fuel, 0nat, 0nat,
{
    if fuel == 0 {
        None
    } else if idx < 0 || idx >= blocks.len() {
        None
    } else {
        match lower_block(blocks, blocks[idx], at, (fuel - 1) as nat) {
            None => None,
            Some(c) => match blocks[idx].next {
                None => Some(c),
                Some(nx) => match lower_chain(blocks, nx as int, at + c.len(), (fuel - 1) as nat) {
                    None => None,
                    Some(rest) => Some(c + rest),
                },
            },
        }
    }
}

/// The rest of a chain from an optional link: an absent link lowers to
/// nothing more.
pub open spec fn lower_chain_opt(blocks: Seq<Block>, o: Option<usize>, at: int, fuel: nat) -> Option<
    Seq<Instruction>,
>
{
    match o {
        None => Some(Seq::<Instruction>::empty()),
        Some(i) => lower_chain(blocks, i as int, at, fuel),
    }
}

/// Lower one slot: a literal pushes itself, a reporter subtree lowers
/// recursively, a substack reference lowers the chain it names.
pub fn compile_block_input(
    input: &BlockInput,
    instructions: &mut Vec<Instruction>,
    blocks: &Vec<Block>,
    diagnostics: &mut Vec<CompileDiagnostic>,
    fuel: usize,
) -> (r: Result<(), CompileDiagnostic>)
    requires
        jumps_in_range(old(instructions)@),
    ensures
        prefix_of(old(instructions)@, final(instructions)@),
        jumps_in_range(final(instructions)@),
        final(diagnostics)@.len() >= old(diagnostics)@.len(),
        match lower_input(blocks@, *input, old(instructions)@.len() as int, fuel as nat) {
            Some(c) => r is Ok && final(instructions)@ == old(instructions)@ + c,
            None => r is Err,
        },
    decreases fuel, input_size(*input), 0nat,
{
    match input {
        BlockInput::Literal(v) => {
            let ghost before = instructions@;
            let pushed = Instruction::Push(v.duplicate());
            let ghost pushed_now = pushed;
            instructions.push(pushed);
            proof {
                lemma_push_prefix(before, pushed_now);
                assert(*input == BlockInput::Literal(*v));
                assert(lower_input(blocks@, *input, before.len() as int, fuel as nat) == Some(
                    seq![Instruction::Push(*v)],
                ));
                assert(instructions@ =~= before + seq![Instruction::Push(*v)]);
            }
            Ok(())
        },
        BlockInput::Reporter(block) => compile_block(block, instructions, blocks, diagnostics, fuel),
        BlockInput::Substack(idx) => compile_substack(*idx, instructions, blocks, diagnostics, fuel),
    }
}

/// Lower one block by its opcode. A repeat loop saves a frame, stores its
/// counter there, and tests it against one half at the head of each
/// iteration; the exit jump is emitted with a placeholder target and
/// backpatched once the cleanup address is known.
#[verifier::rlimit(80)]
pub fn compile_block(
    block: &Block,
    instructions: &mut Vec<Instruction>,
    blocks: &Vec<Block>,
    diagnostics: &mut Vec<CompileDiagnostic>,
    fuel: usize,
) -> (r: Result<(), CompileDiagnostic>)
    requires
        jumps_in_range(old(instructions)@),
    ensures
        prefix_of(old(instructions)@, final(instructions)@),
        jumps_in_range(final(instructions)@),
        final(diagnostics)@.len() >= old(diagnostics)@.len(),
        (block.opcode@ == "control_repeat"@ && block.field_values@.len() >= 2 && r is Ok)
            ==> exists|p: usize, q: usize| #[trigger] repeat_block_shape(
            final(instructions)@,
            old(instructions)@.len() as usize,
            p,
            q,
        ),
        (block.opcode@ != "math_number"@ && block.opcode@ != "motion_movesteps"@
            && block.opcode@ != "control_repeat"@) ==> ({
            &&& r is Ok
            &&& final(instructions)@ == old(instructions)@
            &&& final(diagnostics)@ == old(diagnostics)@.push(
                CompileDiagnostic::UnknownOpcode(block.opcode),
            )
        }),
        match lower_block(blocks@, *block, old(instructions)@.len() as int, fuel as nat) {
            Some(c) => r is Ok && final(instructions)@ == old(instructions)@ + c,
            None => r is Err,
        },
    decreases fuel, block_size(*block), 1nat,
{
    let ghost base = old(instructions)@;
    proof {
        assert(instructions@.subrange(0, base.len() as int) =~= base);
    }
    let opcode = block.opcode.as_str();
    if str_eq(opcode, "math_number") {
        proof {
            lemma_distinct_opcodes();
        }
        if block.field_values.len() < 1 {
            proof {
                assert(instructions@.subrange(0, base.len() as int) =~= base);
                assert(instructions@ =~= base + Seq::<Instruction>::empty());
            }
            return Ok(());
        }
        proof {
            lemma_input_size_le(block.field_values, 0, block.field_values@.len());
        }
        compile_block_input(&block.field_values[0], instructions, blocks, diagnostics, fuel)
    } else if str_eq(opcode, "motion_movesteps") {
        proof {
            lemma_distinct_opcodes();
        }
        if block.field_values.len() < 1 {
            proof {
                assert(instructions@.subrange(0, base.len() as int) =~= base);
                assert(instructions@ =~= base + Seq::<Instruction>::empty());
            }
            return Ok(());
        }
        proof {
            lemma_input_size_le(block.field_values, 0, block.field_values@.len());
        }
        match compile_block_input(&block.field_values[0], instructions, blocks, diagnostics, fuel) {
            Ok(()) => {},
            Err(e) => {
                return Err(e);
            },
        }
        let ghost mid = instructions@;
        instructions.push(Instruction::MoveSteps);
        proof {
            lemma_push_prefix(mid, Instruction::MoveSteps);
            lemma_prefix_of_trans(base, mid, instructions@);
            let li = lower_input(blocks@, block.field_values@[0], base.len() as int, fuel as nat);
            assert(li is Some);
            let c = li.unwrap();
            assert(mid == base + c);
            assert(instructions@ =~= base + c.push(Instruction::MoveSteps)) by {
                assert(instructions@ == mid.push(Instruction::MoveSteps));
            }
        }
        Ok(())
    } else if str_eq(opcode, "control_repeat") {
        if block.field_values.len() < 2 {
            proof {
                assert(instructions@.subrange(0, base.len() as int) =~= base);
                assert(instructions@ =~= base + Seq::<Instruction>::empty());
            }
            return Ok(());
        }
        proof {
            lemma_input_size_le(block.field_values, 0, block.field_values@.len());
            lemma_input_size_le(block.field_values, 1, block.field_values@.len());
        }
        let ghost mut prev = instructions@;
        instructions.push(Instruction::SaveStackFrame);
        let ghost s_after_save = instructions@;
        proof {
            lemma_push_prefix(prev, Instruction::SaveStackFrame);
            lemma_prefix_of_trans(base, prev, instructions@);
            prev = instructions@;
        }
        match compile_block_input(&block.field_values[0], instructions, blocks, diagnostics, fuel) {
            Ok(()) => {},
            Err(e) => {
                proof {
                    lemma_prefix_of_trans(base, prev, instructions@);
                }
                return Err(e);
            },
        }
        let ghost s_after_times = instructions@;
        proof {
            lemma_prefix_of_trans(base, prev, instructions@);
            prev = instructions@;
        }
        instructions.push(Instruction::WriteFrameValue);
        let ghost s_after_write = instructions@;
        proof {
            lemma_push_prefix(prev, Instruction::WriteFrameValue);
            lemma_prefix_of_trans(base, prev, instructions@);
            prev = instructions@;
        }

        // Run at the start of each iteration: exit once the counter has
        // fallen below one half.
        let label_iteration_start = instructions.len();
        instructions.push(Instruction::ReadFrameValue);
        instructions.push(Instruction::Push(ScalarValue::Num(NUM_HALF)));
        instructions.push(Instruction::LessThan);
        let ghost s_head = instructions@;
        proof {
            assert(instructions@.subrange(0, prev.len() as int) =~= prev);
            lemma_prefix_of_trans(base, prev, instructions@);
            prev = instructions@;
        }

        // Backpatched to the cleanup address after the body is emitted.
        let jump_to_cleanup = instructions.len();
        instructions.push(Instruction::JumpIfTrue(0));
        instructions.push(Instruction::ReadFrameValue);
        instructions.push(Instruction::Push(ScalarValue::Num(NUM_ONE)));
        instructions.push(Instruction::Subtract);
        instructions.push(Instruction::WriteFrameValue);
        let ghost s_dec = instructions@;
        proof {
            assert(instructions@.subrange(0, prev.len() as int) =~= prev);
            lemma_prefix_of_trans(base, prev, instructions@);
            prev = instructions@;
        }

        match compile_block_input(&block.field_values[1], instructions, blocks, diagnostics, fuel) {
            Ok(()) => {},
            Err(e) => {
                proof {
                    lemma_prefix_of_trans(base, prev, instructions@);
                }
                return Err(e);
            },
        }
        let ghost s_body = instructions@;
        proof {
            lemma_prefix_of_trans(base, prev, instructions@);
            prev = instructions@;
        }

        instructions.push(Instruction::Jump(label_iteration_start));

        let label_cleanup_code = instructions.len();
        instructions.push(Instruction::RestoreStackFrame);
        let ghost s_restore = instructions@;
        proof {
            assert(instructions@.subrange(0, prev.len() as int) =~= prev);
            lemma_prefix_of_trans(base, prev, instructions@);
            prev = instructions@;
        }

        instructions[jump_to_cleanup] = Instruction::JumpIfTrue(label_cleanup_code);
        proof {
            assert(instructions@ == prev.update(jump_to_cleanup as int, Instruction::JumpIfTrue(
                label_cleanup_code as usize,
            )));
            assert(jump_to_cleanup >= base.len());
            assert(instructions@.subrange(0, base.len() as int) =~= base) by {
                assert(forall|i: int|
                    0 <= i < base.len() ==> instructions@[i] == prev[i] && prev[i] == base[i]);
            }
            assert(jumps_in_range(instructions@)) by {
                assert(forall|i: int|
                    0 <= i < instructions@.len() && i != jump_to_cleanup
                        ==> instructions@[i] == prev[i]);
            }
            // The emitted block has exactly the proven repeat shape.
            let fin = instructions@;
            let p0 = base.len() as int;
            let p = label_iteration_start as int;
            let q = label_cleanup_code as int;
            assert(s_after_save[p0] == Instruction::SaveStackFrame);
            lemma_prefix_index(s_after_save, s_after_times, p0);
            assert(s_after_write[p0] == Instruction::SaveStackFrame);
            assert(s_dec[p0] == Instruction::SaveStackFrame);
            lemma_prefix_index(s_dec, s_body, p0);
            assert(s_restore[p0] == Instruction::SaveStackFrame);
            assert(p == s_after_write.len());
            assert(s_after_write[p - 1] == Instruction::WriteFrameValue);
            assert(s_dec[p - 1] == Instruction::WriteFrameValue);
            lemma_prefix_index(s_dec, s_body, p - 1);
            assert(s_restore[p - 1] == Instruction::WriteFrameValue);
            assert(s_head[p] == Instruction::ReadFrameValue);
            assert(s_head[p + 1] == Instruction::Push(ScalarValue::Num(NUM_HALF)));
            assert(s_head[p + 2] == Instruction::LessThan);
            assert(s_dec[p] == Instruction::ReadFrameValue);
            assert(s_dec[p + 1] == Instruction::Push(ScalarValue::Num(NUM_HALF)));
            assert(s_dec[p + 2] == Instruction::LessThan);
            assert(s_dec[p + 4] == Instruction::ReadFrameValue);
            assert(s_dec[p + 5] == Instruction::Push(ScalarValue::Num(NUM_ONE)));
            assert(s_dec[p + 6] == Instruction::Subtract);
            assert(s_dec[p + 7] == Instruction::WriteFrameValue);
            lemma_prefix_index(s_dec, s_body, p);
            lemma_prefix_index(s_dec, s_body, p + 1);
            lemma_prefix_index(s_dec, s_body, p + 2);
            lemma_prefix_index(s_dec, s_body, p + 4);
            lemma_prefix_index(s_dec, s_body, p + 5);
            lemma_prefix_index(s_dec, s_body, p + 6);
            lemma_prefix_index(s_dec, s_body, p + 7);
            assert(q == s_body.len() + 1);
            assert(s_restore[q - 1] == Instruction::Jump(label_iteration_start));
            assert(s_restore[q] == Instruction::RestoreStackFrame);
            assert(jump_to_cleanup == p + 3);
            assert(fin[p + 3] == Instruction::JumpIfTrue(label_cleanup_code));
            assert(forall|i: int| 0 <= i < fin.len() && i != p + 3 ==> fin[i] == s_restore[i]);
            assert(p0 + 2 <= p);
            assert(p + 8 <= q);
            assert(repeat_block_shape(
                fin,
                base.len() as usize,
                label_iteration_start,
                label_cleanup_code,
            ));
            // The emitted block is exactly its lowering.
            let ti = lower_input(blocks@, block.field_values@[0], base.len() as int + 1, fuel as nat);
            assert(ti is Some);
            let times = ti.unwrap();
            assert(s_after_times == s_after_save + times);
            assert(p == base.len() + 2 + times.len());
            let bi = lower_input(blocks@, block.field_values@[1], p + 8, fuel as nat);
            assert(s_dec.len() == p + 8);
            assert(bi is Some);
            let body = bi.unwrap();
            assert(s_body == s_dec + body);
            assert(q == p + 9 + body.len());
            let mid_ops = seq![
                Instruction::WriteFrameValue,
                Instruction::ReadFrameValue,
                Instruction::Push(ScalarValue::Num(NUM_HALF)),
                Instruction::LessThan,
                Instruction::JumpIfTrue(label_cleanup_code),
                Instruction::ReadFrameValue,
                Instruction::Push(ScalarValue::Num(NUM_ONE)),
                Instruction::Subtract,
                Instruction::WriteFrameValue,
            ];
            let tail_ops = seq![
                Instruction::Jump(label_iteration_start),
                Instruction::RestoreStackFrame,
            ];
            let target = seq![Instruction::SaveStackFrame] + times + mid_ops + body + tail_ops;
            assert(lower_block(blocks@, *block, base.len() as int, fuel as nat) == Some(target));
            assert(s_after_save =~= base + seq![Instruction::SaveStackFrame]);
            assert(fin.len() == base.len() + target.len());
            assert(fin =~= base + target) by {
                assert(forall|i: int|
                    0 <= i < fin.len() && i != p + 3 ==> fin[i] == s_restore[i]);
                assert(s_restore =~= s_body + tail_ops);
                assert(s_dec =~= s_after_times + seq![
                    Instruction::WriteFrameValue,
                    Instruction::ReadFrameValue,
                    Instruction::Push(ScalarValue::Num(NUM_HALF)),
                    Instruction::LessThan,
                    Instruction::JumpIfTrue(0usize),
                    Instruction::ReadFrameValue,
                    Instruction::Push(ScalarValue::Num(NUM_ONE)),
                    Instruction::Subtract,
                    Instruction::WriteFrameValue,
                ]);
            }
        }
        Ok(())
    } else {
        // Unknown opcode: record it and lower the block to nothing.
        diagnostics.push(CompileDiagnostic::UnknownOpcode(block.opcode.clone()));
        proof {
            assert(instructions@.subrange(0, base.len() as int) =~= base);
            assert(instructions@ =~= base + Seq::<Instruction>::empty());
        }
        Ok(())
    }
}

/// Lower a command chain: from the given table index, follow `next` links
/// and lower each block in turn. The fuel falls with every link, so a
/// cyclic chain is reported instead of followed forever.
pub fn compile_substack(
    substack_id: usize,
    instructions: &mut Vec<Instruction>,
    blocks: &Vec<Block>,
    diagnostics: &mut Vec<CompileDiagnostic>,
    fuel: usize,
) -> (r: Result<(), CompileDiagnostic>)
    requires
        jumps_in_range(old(instructions)@),
    ensures
        prefix_of(old(instructions)@, final(instructions)@),
        jumps_in_range(final(instructions)@),
        final(diagnostics)@.len() >= old(diagnostics)@.len(),
        match lower_chain(blocks@, substack_id as int, old(instructions)@.len() as int, fuel as nat) {
            Some(c) => r is Ok && final(instructions)@ == old(instructions)@ + c,
            None => r is Err,
        },
    decreases fuel, 0nat, 0nat,
{
    let mut fuel_left = fuel;
    let mut next_idx = Some(substack_id);
    let ghost base = old(instructions)@;
    let ghost whole = lower_chain(blocks@, substack_id as int, base.len() as int, fuel as nat);
    proof {
        assert(instructions@.subrange(0, base.len() as int) =~= base);
        assert(base + Seq::<Instruction>::empty() =~= base);
    }

    loop
        invariant
            fuel_left <= fuel,
            base == old(instructions)@,
            whole == lower_chain(blocks@, substack_id as int, base.len() as int, fuel as nat),
            prefix_of(base, instructions@),
            jumps_in_range(instructions@),
            diagnostics@.len() >= old(diagnostics)@.len(),
            match whole {
                Some(c) => match lower_chain_opt(
                    blocks@,
                    next_idx,
                    instructions@.len() as int,
                    fuel_left as nat,
                ) {
                    Some(rest) => base + c == instructions@ + rest,
                    None => false,
                },
                None => lower_chain_opt(
                    blocks@,
                    next_idx,
                    instructions@.len() as int,
                    fuel_left as nat,
                ) is None,
            },
        decreases fuel_left,
    {
        match next_idx {
            None => {
                proof {
                    if whole is Some {
                        assert(instructions@ + Seq::<Instruction>::empty() =~= instructions@);
                    }
                }
                return Ok(());
            },
            Some(block_idx) => {
                if fuel_left == 0 {
                    return Err(CompileDiagnostic::NestingTooDeep);
                }
                fuel_left = fuel_left - 1;
                if block_idx >= blocks.len() {
                    return Err(CompileDiagnostic::InvalidIndex(block_idx));
                }
                let block = &blocks[block_idx];
                next_idx = block.next;

                let ghost before = instructions@;
                match compile_block(block, instructions, blocks, diagnostics, fuel_left) {
                    Ok(()) => {},
                    Err(e) => {
                        proof {
                            lemma_prefix_of_trans(base, before, instructions@);
                        }
                        return Err(e);
                    },
                }
                proof {
                    lemma_prefix_of_trans(base, before, instructions@);
                    let bl = lower_block(
                        blocks@,
                        blocks@[block_idx as int],
                        before.len() as int,
                        fuel_left as nat,
                    );
                    assert(bl is Some);
                    let c1 = bl.unwrap();
                    assert(instructions@ == before + c1);
                    if whole is Some {
                        let c = whole.unwrap();
                        match next_idx {
                            None => {
                                assert(base + c == before + c1);
                                assert(before + c1 =~= instructions@ + Seq::<
                                    Instruction,
                                >::empty());
                            },
                            Some(nx) => {
                                let rest2 = lower_chain(
                                    blocks@,
                                    nx as int,
                                    before.len() as int + c1.len() as int,
                                    fuel_left as nat,
                                );
                                assert(rest2 is Some);
                                assert(base + c == before + (c1 + rest2.unwrap()));
                                assert(before + (c1 + rest2.unwrap()) =~= (before + c1)
                                    + rest2.unwrap());
                            },
                        }
                    }
                }
            },
        }
    }
}

/// The trigger a hat block stands for: the green-flag hat and nothing
/// else; any other opcode is an unknown hat, fatal for its script.
pub fn compile_hat(block: &Block) -> (r: Result<Trigger, CompileDiagnostic>)
    ensures
        block.opcode@ == "event_whenflagclicked"@ ==> r == Ok::<Trigger, CompileDiagnostic>(
            Trigger::WhenFlagClicked,
        ),
        block.opcode@ != "event_whenflagclicked"@ ==> (r matches Err(
            CompileDiagnostic::UnknownHat(op),
        ) && op@ == block.opcode@),
{
    if str_eq(block.opcode.as_str(), "event_whenflagclicked") {
        Ok(Trigger::WhenFlagClicked)
    } else {
        Err(CompileDiagnostic::UnknownHat(block.opcode.clone()))
    }
}

/// The fuel the compiler grants a table: enough for any acyclic graph,
/// where a chain can visit each block at most once at each nesting level.
pub open spec fn table_fuel(n: int) -> nat {
    if n < 46340 {
        (n * n + 64) as nat
    } else {
        usize::MAX as nat
    }
}

/// The scripts the first `n` blocks of a table compile to: one per
/// parentless green-flag block whose chain lowers, in table order, each
/// the lowering of the chain at its `next` link.
pub open spec fn lower_scripts(blocks: Seq<Block>, n: int, fuel: nat) -> Seq<
    (Trigger, Seq<Instruction>),
>
    decreases n,
{
    if n <= 0 {
        Seq::<(Trigger, Seq<Instruction>)>::empty()
    } else {
        let head = lower_scripts(blocks, n - 1, fuel);
        let b = blocks[n - 1];
        if b.parent is None && b.opcode@ == "event_whenflagclicked"@ && lower_chain_opt(
            blocks,
            b.next,
            0,
            fuel,
        ) is Some {
            head.push(
                (Trigger::WhenFlagClicked, lower_chain_opt(blocks, b.next, 0, fuel).unwrap()),
            )
        } else {
            head
        }
    }
}

/// How many of the first `n` blocks of a table are parentless — the roots
/// the compiler owes a script or a diagnostic.
pub open spec fn roots_upto(blocks: Seq<Block>, n: int) -> nat
    decreases n,
{
    if n <= 0 {
        0
    } else {
        roots_upto(blocks, n - 1) + (if blocks[n - 1].parent is None {
            1nat
        } else {
            0nat
        })
    }
}

/// Compile every hat-rooted script of a block table. A root is a block
/// without a parent; its chain starts at its `next` link. Scripts that
/// cannot be compiled are skipped and reported — every root yields a
/// script or at least one diagnostic — and every returned script has all
/// its jumps inside [0, length].
pub fn compile_blocks(blocks: &Vec<Block>) -> (r: (Vec<Script>, Vec<CompileDiagnostic>))
    ensures
        forall|k: int|
            0 <= k < r.0@.len() ==> jumps_in_range(#[trigger] r.0@[k].instructions@),
        r.0@.len() + r.1@.len() >= roots_upto(blocks@, blocks@.len() as int),
        ({
            let expected = lower_scripts(
                blocks@,
                blocks@.len() as int,
                table_fuel(blocks@.len() as int),
            );
            &&& r.0@.len() == expected.len()
            &&& forall|k: int|
                0 <= k < expected.len() ==> {
                    &&& (#[trigger] r.0@[k]).trigger == expected[k].0
                    &&& r.0@[k].instructions@ == expected[k].1
                }
        }),
{
    let mut scripts: Vec<Script> = Vec::new();
    let mut diagnostics: Vec<CompileDiagnostic> = Vec::new();

    // Enough fuel for any acyclic table: a chain can visit each block at
    // most once at each nesting level.
    let n = blocks.len();
    let fuel: usize = if n < 46340 {
        proof {
            assert((n as int) * (n as int) < 0x7FFF_0000) by (nonlinear_arith)
                requires
                    n < 46340,
            ;
        }
        n * n + 64
    } else {
        usize::MAX
    };
    proof {
        assert(fuel as nat == table_fuel(blocks@.len() as int));
    }

    let mut root_idx: usize = 0;
    while root_idx < n
        invariant
            n == blocks@.len(),
            root_idx <= n,
            fuel as nat == table_fuel(blocks@.len() as int),
            forall|k: int|
                0 <= k < scripts@.len() ==> jumps_in_range(#[trigger] scripts@[k].instructions@),
            scripts@.len() + diagnostics@.len() >= roots_upto(blocks@, root_idx as int),
            ({
                let head = lower_scripts(blocks@, root_idx as int, fuel as nat);
                &&& scripts@.len() == head.len()
                &&& forall|k: int|
                    0 <= k < head.len() ==> {
                        &&& (#[trigger] scripts@[k]).trigger == head[k].0
                        &&& scripts@[k].instructions@ == head[k].1
                    }
            }),
        decreases n - root_idx,
    {
        let root_block = &blocks[root_idx];
        let ghost b = blocks@[root_idx as int];
        if root_block.parent.is_none() {
            match compile_hat(root_block) {
                Err(e) => {
                    proof {
                        assert(b.opcode@ != "event_whenflagclicked"@);
                    }
                    diagnostics.push(e);
                },
                Ok(trigger) => {
                    proof {
                        assert(b.opcode@ == "event_whenflagclicked"@);
                    }
                    let mut instructions: Vec<Instruction> = Vec::new();
                    let compiled = match root_block.next {
                        Some(next_idx) => compile_substack(
                            next_idx,
                            &mut instructions,
                            blocks,
                            &mut diagnostics,
                            fuel,
                        ),
                        None => Ok(()),
                    };
                    match compiled {
                        Ok(()) => {
                            proof {
                                assert(lower_chain_opt(blocks@, b.next, 0, fuel as nat) is Some);
                                assert(instructions@ == lower_chain_opt(
                                    blocks@,
                                    b.next,
                                    0,
                                    fuel as nat,
                                ).unwrap()) by {
                                    if b.next is Some {
                                        assert(Seq::<Instruction>::empty() + instructions@
                                            =~= instructions@);
                                    }
                                }
                            }
                            scripts.push(Script { trigger, instructions });
                        },
                        Err(e) => {
                            proof {
                                assert(lower_chain_opt(blocks@, b.next, 0, fuel as nat) is None);
                            }
                            diagnostics.push(e);
                        },
                    }
                },
            }
        }
        root_idx = root_idx + 1;
    }

    (scripts, diagnostics)
}

} // verus!
