//! Single-step execution of one instruction against a thread and a sprite.
//!
//! `spec_execute` is the machine's transition function; `execute` is proved
//! to implement it exactly.

use vstd::prelude::*;
use core::cmp::Ordering;
use crate::float_ops::{
    add_bits, cos_bits, mul_bits, num_add, num_cos, num_mul, num_sin, num_sub, sin_bits, sub_bits,
};
use crate::instruction::Instruction;
use crate::numerics::{NUM_NINETY, NUM_RAD_PER_DEG, NUM_ZERO};
use crate::scalar_value::{spec_compare, spec_to_bool, spec_to_num, ScalarValue};
use crate::sprite::Sprite;
use crate::thread::{Thread, ThreadModel, ThreadStatus};

verus! {

/// Where a sprite stands after moving `steps` along its direction. The
/// direction is in degrees with 0 up and 90 right; taking it to the
/// mathematical angle `(90 - direction)` in radians puts the step's x
/// share on the cosine and its y share on the sine, so a sprite facing 90
/// moves along +x and one facing 0 along +y.
pub open spec fn spec_move_steps(s: Sprite, steps: u64) -> Sprite {
    let angle = num_mul(num_sub(NUM_NINETY, s.direction), NUM_RAD_PER_DEG);
    Sprite {
        x: num_add(s.x, num_mul(num_cos(angle), steps)),
        y: num_add(s.y, num_mul(num_sin(angle), steps)),
        ..s
    }
}

/// What must hold of a thread for the instruction at its program counter
/// to execute: enough operands and frames, and jump targets within
/// [0, length]. Well-formed bytecode maintains this on every path.
pub open spec fn instr_enabled(code: Seq<Instruction>, t: ThreadModel) -> bool
    recommends
        0 <= t.pc < code.len(),
{
    match code[t.pc] {
        Instruction::Push(_) => true,
        Instruction::Yield => true,
        Instruction::Jump(to) => to <= code.len(),
        Instruction::JumpIfTrue(to) => t.stack.len() >= 1 && to <= code.len(),
        Instruction::SaveStackFrame => true,
        Instruction::RestoreStackFrame => t.frames.len() >= 1,
        Instruction::ReadFrameValue => t.frames.len() >= 1,
        Instruction::WriteFrameValue => t.stack.len() >= 1 && t.frames.len() >= 1,
        Instruction::RequestRedraw => true,
        Instruction::Add => t.stack.len() >= 2,
        Instruction::Subtract => t.stack.len() >= 2,
        Instruction::LessThan => t.stack.len() >= 2,
        Instruction::Equals => t.stack.len() >= 2,
        Instruction::GreaterThan => t.stack.len() >= 2,
        Instruction::GotoXY => t.stack.len() >= 2,
        Instruction::MoveSteps => t.stack.len() >= 1,
    }
}

/// The machine state one step produces: the thread, the sprite, and
/// whether the step asked for a redraw.
#[verifier::ext_equal]
pub struct StepResult {
    pub thread: ThreadModel,
    pub sprite: Sprite,
    pub redraw: bool,
}

/// The transition function of the machine: what one instruction does to
/// the thread and the sprite. Binary operators pop `op1` (the top), then
/// `op2`, and compute `op2 (op) op1`. The program counter advances by one
/// unless a jump took it elsewhere.
pub open spec fn spec_execute(code: Seq<Instruction>, t: ThreadModel, s: Sprite) -> StepResult
    recommends
        0 <= t.pc < code.len(),
        instr_enabled(code, t),
{
    match code[t.pc] {
        Instruction::Push(v) => StepResult {
            thread: ThreadModel { pc: t.pc + 1, stack: t.stack.push(v), ..t },
            sprite: s,
            redraw: false,
        },
        Instruction::Yield => StepResult {
            thread: ThreadModel { pc: t.pc + 1, status: ThreadStatus::Yield, ..t },
            sprite: s,
            redraw: false,
        },
        Instruction::Jump(to) => StepResult {
            thread: ThreadModel { pc: to as int, ..t },
            sprite: s,
            redraw: false,
        },
        Instruction::JumpIfTrue(to) => StepResult {
            thread: ThreadModel {
                pc: if spec_to_bool(t.stack.last()) {
                    to as int
                } else {
                    t.pc + 1
                },
                stack: t.stack.drop_last(),
                ..t
            },
            sprite: s,
            redraw: false,
        },
        Instruction::SaveStackFrame => StepResult {
            thread: ThreadModel {
                pc: t.pc + 1,
                frames: t.frames.push(ScalarValue::Num(NUM_ZERO)),
                ..t
            },
            sprite: s,
            redraw: false,
        },
        Instruction::RestoreStackFrame => StepResult {
            thread: ThreadModel { pc: t.pc + 1, frames: t.frames.drop_last(), ..t },
            sprite: s,
            redraw: false,
        },
        Instruction::ReadFrameValue => StepResult {
            thread: ThreadModel { pc: t.pc + 1, stack: t.stack.push(t.frames.last()), ..t },
            sprite: s,
            redraw: false,
        },
        Instruction::WriteFrameValue => StepResult {
            thread: ThreadModel {
                pc: t.pc + 1,
                frames: t.frames.update(t.frames.len() - 1, t.stack.last()),
                ..t
            },
            sprite: s,
            redraw: false,
        },
        Instruction::RequestRedraw => StepResult {
            thread: ThreadModel { pc: t.pc + 1, ..t },
            sprite: s,
            redraw: true,
        },
        Instruction::Add => StepResult {
            thread: ThreadModel {
                pc: t.pc + 1,
                stack: t.stack.drop_last().drop_last().push(
                    ScalarValue::Num(
                        num_add(
                            spec_to_num(t.stack[t.stack.len() - 2]),
                            spec_to_num(t.stack.last()),
                        ),
                    ),
                ),
                ..t
            },
            sprite: s,
            redraw: false,
        },
        Instruction::Subtract => StepResult {
            thread: ThreadModel {
                pc: t.pc + 1,
                stack: t.stack.drop_last().drop_last().push(
                    ScalarValue::Num(
                        num_sub(
                            spec_to_num(t.stack[t.stack.len() - 2]),
                            spec_to_num(t.stack.last()),
                        ),
                    ),
                ),
                ..t
            },
            sprite: s,
            redraw: false,
        },
        Instruction::LessThan => StepResult {
            thread: ThreadModel {
                pc: t.pc + 1,
                stack: t.stack.drop_last().drop_last().push(
                    ScalarValue::Bool(
                        spec_compare(t.stack[t.stack.len() - 2], t.stack.last())
                            == Ordering::Less,
                    ),
                ),
                ..t
            },
            sprite: s,
            redraw: false,
        },
        Instruction::Equals => StepResult {
            thread: ThreadModel {
                pc: t.pc + 1,
                stack: t.stack.drop_last().drop_last().push(
                    ScalarValue::Bool(
                        spec_compare(t.stack[t.stack.len() - 2], t.stack.last())
                            == Ordering::Equal,
                    ),
                ),
                ..t
            },
            sprite: s,
            redraw: false,
        },
        Instruction::GreaterThan => StepResult {
            thread: ThreadModel {
                pc: t.pc + 1,
                stack: t.stack.drop_last().drop_last().push(
                    ScalarValue::Bool(
                        spec_compare(t.stack[t.stack.len() - 2], t.stack.last())
                            == Ordering::Greater,
                    ),
                ),
                ..t
            },
            sprite: s,
            redraw: false,
        },
        Instruction::GotoXY => StepResult {
            thread: ThreadModel {
                pc: t.pc + 1,
                stack: t.stack.drop_last().drop_last(),
                ..t
            },
            sprite: Sprite {
                x: spec_to_num(t.stack[t.stack.len() - 2]),
                y: spec_to_num(t.stack.last()),
                ..s
            },
            redraw: false,
        },
        Instruction::MoveSteps => StepResult {
            thread: ThreadModel { pc: t.pc + 1, stack: t.stack.drop_last(), ..t },
            sprite: spec_move_steps(s, spec_to_num(t.stack.last())),
            redraw: false,
        },
    }
}

/// Whether the thread's program counter sits on an instruction and the
/// stacks are deep enough for it — the well-formedness the interpreter
/// demands. Bytecode from the compiler maintains this on every path.
pub fn thread_step_ready(t: &Thread) -> (r: bool)
    ensures
        r == (t.model().pc < t.code.instructions@.len() && instr_enabled(
            t.code.instructions@,
            t.model(),
        )),
{
    let ip = t.instruction_pointer;
    let len = t.code.instructions.len();
    if ip >= len {
        return false;
    }
    match &t.code.instructions[ip] {
        Instruction::Push(_) => true,
        Instruction::Yield => true,
        Instruction::Jump(to) => *to <= len,
        Instruction::JumpIfTrue(to) => t.stack.len() >= 1 && *to <= len,
        Instruction::SaveStackFrame => true,
        Instruction::RestoreStackFrame => t.stack_frames.len() >= 1,
        Instruction::ReadFrameValue => t.stack_frames.len() >= 1,
        Instruction::WriteFrameValue => t.stack.len() >= 1 && t.stack_frames.len() >= 1,
        Instruction::RequestRedraw => true,
        Instruction::Add => t.stack.len() >= 2,
        Instruction::Subtract => t.stack.len() >= 2,
        Instruction::LessThan => t.stack.len() >= 2,
        Instruction::Equals => t.stack.len() >= 2,
        Instruction::GreaterThan => t.stack.len() >= 2,
        Instruction::GotoXY => t.stack.len() >= 2,
        Instruction::MoveSteps => t.stack.len() >= 1,
    }
}

/// Execute the instruction at the thread's program counter against the
/// thread and the sprite; true when the instruction asked for a redraw.
pub fn execute(sprite: &mut Sprite, current_thread: &mut Thread) -> (redraw: bool)
    requires
        0 <= old(current_thread).model().pc < old(current_thread).code.instructions@.len(),
        instr_enabled(old(current_thread).code.instructions@, old(current_thread).model()),
        old(current_thread).model().status != ThreadStatus::Done,
    ensures
        final(current_thread).code.trigger == old(current_thread).code.trigger,
        final(current_thread).code.instructions@ == old(current_thread).code.instructions@,
        final(sprite).direction == old(sprite).direction,
        final(sprite).size == old(sprite).size,
        final(sprite).visible == old(sprite).visible,
        final(sprite).target_index == old(sprite).target_index,
        final(sprite).layer_order == old(sprite).layer_order,
        final(sprite).drawable == old(sprite).drawable,
        ({
            let r = spec_execute(
                old(current_thread).code.instructions@,
                old(current_thread).model(),
                *old(sprite),
            );
            &&& final(current_thread).model() == r.thread
            &&& *final(sprite) == r.sprite
            &&& redraw == r.redraw
        }),
{
    let ghost code = current_thread.code.instructions@;
    let ghost t0 = current_thread.model();
    let ghost s0 = *sprite;
    let ip = current_thread.instruction_pointer;
    let mut did_jump = false;
    let mut redraw = false;

    // Reading the instruction does not borrow the thread across the match:
    // the arms need the thread mutably.
    let instruction = current_thread.code.instructions[ip].duplicate();

    match instruction {
        Instruction::Push(value) => {
            current_thread.push_stack(value);
        },
        Instruction::Yield => {
            current_thread.yield_thread();
        },
        Instruction::Jump(to) => {
            current_thread.instruction_pointer = to;
            did_jump = true;
        },
        Instruction::JumpIfTrue(to) => {
            let v = current_thread.pop_stack();
            if v.to_bool() {
                current_thread.instruction_pointer = to;
                did_jump = true;
            }
        },
        Instruction::SaveStackFrame => {
            current_thread.push_stack_frame();
        },
        Instruction::RestoreStackFrame => {
            current_thread.pop_stack_frame();
        },
        Instruction::ReadFrameValue => {
            let v = current_thread.peek_stack_frame().frame_value.duplicate();
            current_thread.push_stack(v);
        },
        Instruction::WriteFrameValue => {
            current_thread.write_frame_value();
        },
        Instruction::RequestRedraw => {
            redraw = true;
        },
        Instruction::Add => {
            let op1 = current_thread.pop_stack();
            let op2 = current_thread.pop_stack();
            current_thread.push_stack(ScalarValue::Num(add_bits(op2.to_num(), op1.to_num())));
        },
        Instruction::Subtract => {
            let op1 = current_thread.pop_stack();
            let op2 = current_thread.pop_stack();
            current_thread.push_stack(ScalarValue::Num(sub_bits(op2.to_num(), op1.to_num())));
        },
        Instruction::LessThan => {
            let op1 = current_thread.pop_stack();
            let op2 = current_thread.pop_stack();
            let is_less = match op2.compare(&op1) {
                Ordering::Less => true,
                _ => false,
            };
            current_thread.push_stack(ScalarValue::Bool(is_less));
        },
        Instruction::Equals => {
            let op1 = current_thread.pop_stack();
            let op2 = current_thread.pop_stack();
            let is_equal = match op2.compare(&op1) {
                Ordering::Equal => true,
                _ => false,
            };
            current_thread.push_stack(ScalarValue::Bool(is_equal));
        },
        Instruction::GreaterThan => {
            let op1 = current_thread.pop_stack();
            let op2 = current_thread.pop_stack();
            let is_greater = match op2.compare(&op1) {
                Ordering::Greater => true,
                _ => false,
            };
            current_thread.push_stack(ScalarValue::Bool(is_greater));
        },
        Instruction::GotoXY => {
            let op1 = current_thread.pop_stack();
            let op2 = current_thread.pop_stack();
            sprite.move_to(op2.to_num(), op1.to_num());
        },
        Instruction::MoveSteps => {
            let steps = current_thread.pop_stack().to_num();
            let angle = mul_bits(sub_bits(NUM_NINETY, sprite.direction), NUM_RAD_PER_DEG);
            let dx = mul_bits(cos_bits(angle), steps);
            let dy = mul_bits(sin_bits(angle), steps);
            let nx = add_bits(sprite.x, dx);
            let ny = add_bits(sprite.y, dy);
            sprite.move_to(nx, ny);
        },
    }

    if !did_jump {
        proof {
            assert(current_thread.model().pc == t0.pc);
            assert(t0.pc < code.len());
            assert(current_thread.code.instructions.len() == code.len());
        }
        current_thread.instruction_pointer = current_thread.instruction_pointer + 1;
    }

    proof {
        assert(current_thread.model() =~= spec_execute(code, t0, s0).thread);
    }
    redraw
}

} // verus!
