//! The machine as a whole: iterated steps of the transition function, and
//! the law of the lowered repeat loop — with a natural counter n it runs
//! its body exactly n times, leaves the frame stack as it found it less
//! the loop's own frame, and only ever grows the operand stack.

use vstd::prelude::*;
use core::cmp::Ordering;
use crate::execute::{instr_enabled, spec_execute};
use crate::instruction::Instruction;
use crate::numerics::{f64_of_nat, lemma_f64_of_nat_decode, num_is_nan, NUM_HALF, NUM_ONE};
use crate::scalar_value::{spec_compare, ScalarValue};
use crate::sprite::Sprite;
use crate::thread::ThreadModel;

verus! {

/// One whole machine configuration: a thread and the sprite it drives.
#[verifier::ext_equal]
pub struct MachineState {
    pub thread: ThreadModel,
    pub sprite: Sprite,
}

/// Whether the machine can take a step here.
pub open spec fn machine_ok(code: Seq<Instruction>, m: MachineState) -> bool {
    0 <= m.thread.pc < code.len() && instr_enabled(code, m.thread)
}

/// The configuration one step later.
pub open spec fn machine_step(code: Seq<Instruction>, m: MachineState) -> MachineState {
    let r = spec_execute(code, m.thread, m.sprite);
    MachineState { thread: r.thread, sprite: r.sprite }
}

/// n steps of the machine; a configuration that cannot step stays put.
pub open spec fn run_steps(code: Seq<Instruction>, m: MachineState, n: nat) -> MachineState
    decreases n,
{
    if n == 0 {
        m
    } else if machine_ok(code, m) {
        run_steps(code, machine_step(code, m), (n - 1) as nat)
    } else {
        m
    }
}

/// Running a + b steps is running a, then b.
pub proof fn lemma_run_steps_add(code: Seq<Instruction>, m: MachineState, a: nat, b: nat)
    ensures
        run_steps(code, m, a + b) == run_steps(code, run_steps(code, m, a), b),
    decreases a,
{
    if a > 0 {
        if machine_ok(code, m) {
            lemma_run_steps_add(code, machine_step(code, m), (a - 1) as nat, b);
        } else {
            assert(run_steps(code, m, a) == m);
            assert(run_steps(code, m, a + b) == m);
            assert(run_steps(code, m, b) == m);
        }
    }
}

/// One step of the run, spelled out.
pub proof fn lemma_run_one(code: Seq<Instruction>, m: MachineState)
    requires
        machine_ok(code, m),
    ensures
        run_steps(code, m, 1) == machine_step(code, m),
{
    reveal_with_fuel(run_steps, 2);
}

/// A loop body's effect on the sprite, taken n times over.
pub open spec fn iter_effect(eff: spec_fn(Sprite) -> Sprite, n: nat, s: Sprite) -> Sprite
    decreases n,
{
    if n == 0 {
        s
    } else {
        iter_effect(eff, (n - 1) as nat, eff(s))
    }
}

/// The shape of a lowered repeat loop inside a script: the counter test at
/// `p` with its exit jump to the cleanup at `q`, the decrement after it,
/// and the body up to the back jump at `q - 1`.
pub open spec fn repeat_loop_shape(code: Seq<Instruction>, p: usize, q: usize) -> bool {
    &&& p + 8 <= q
    &&& (q as int) < code.len()
    &&& code[p as int] == Instruction::ReadFrameValue
    &&& code[p + 1] == Instruction::Push(ScalarValue::Num(NUM_HALF))
    &&& code[p + 2] == Instruction::LessThan
    &&& code[p + 3] == Instruction::JumpIfTrue(q)
    &&& code[p + 4] == Instruction::ReadFrameValue
    &&& code[p + 5] == Instruction::Push(ScalarValue::Num(NUM_ONE))
    &&& code[p + 6] == Instruction::Subtract
    &&& code[p + 7] == Instruction::WriteFrameValue
    &&& code[q - 1] == Instruction::Jump(p)
    &&& code[q as int] == Instruction::RestoreStackFrame
}

/// A configuration at the body's first instruction finishes the body: it
/// reaches the back jump in some number of steps with the operand stack
/// only grown, the frame stack untouched, and the sprite taken through
/// the body's effect once.
pub open spec fn body_completes(
    code: Seq<Instruction>,
    p: usize,
    q: usize,
    eff: spec_fn(Sprite) -> Sprite,
    m: MachineState,
) -> bool {
    exists|k: nat|
        {
            let m2 = #[trigger] run_steps(code, m, k);
            &&& m2.thread.pc == q - 1
            &&& m.thread.stack.is_prefix_of(m2.thread.stack)
            &&& m2.thread.frames == m.thread.frames
            &&& m2.sprite == eff(m.sprite)
        }
}

/// What a well-behaved loop body does, wherever it is entered.
pub open spec fn body_runs_clean(
    code: Seq<Instruction>,
    p: usize,
    q: usize,
    eff: spec_fn(Sprite) -> Sprite,
) -> bool {
    forall|m: MachineState|
        (m.thread.pc == p + 8 && m.thread.frames.len() >= 1) ==> #[trigger] body_completes(
            code,
            p,
            q,
            eff,
            m,
        )
}

/// A configuration at the loop head finishes the whole loop: it reaches
/// the instruction after the cleanup in some number of steps, the loop's
/// frame popped, the operand stack only grown, and the body's effect on
/// the sprite taken exactly n times.
pub open spec fn repeat_completes(
    code: Seq<Instruction>,
    p: usize,
    q: usize,
    eff: spec_fn(Sprite) -> Sprite,
    m: MachineState,
    n: nat,
) -> bool {
    exists|k: nat|
        {
            let m2 = #[trigger] run_steps(code, m, k);
            &&& m2.thread.pc == q + 1
            &&& m.thread.stack.is_prefix_of(m2.thread.stack)
            &&& m2.thread.frames == m.thread.frames.drop_last()
            &&& m2.sprite == iter_effect(eff, n, m.sprite)
        }
}

/// How the counter compares to the half threshold: only a counter of zero
/// falls below it.
proof fn lemma_counter_vs_half(n: nat)
    requires
        n <= 0x10_0000_0000_0000,
    ensures
        spec_compare(ScalarValue::Num(f64_of_nat(n)), ScalarValue::Num(NUM_HALF)) == (if n == 0 {
            Ordering::Less
        } else {
            Ordering::Greater
        }),
        !num_is_nan(f64_of_nat(n)),
{
    assert(0x3FE0_0000_0000_0000u64 & 0x7FF0_0000_0000_0000u64 != 0x7FF0_0000_0000_0000u64)
        by (bit_vector);
    assert(0x3FE0_0000_0000_0000u64 & 0x7FFF_FFFF_FFFF_FFFFu64 == 0x3FE0_0000_0000_0000u64)
        by (bit_vector);
    assert(0x3FE0_0000_0000_0000u64 & 0x8000_0000_0000_0000u64 == 0u64) by (bit_vector);
    if n == 0 {
        assert(f64_of_nat(0) == 0u64);
        assert(0u64 & 0x7FF0_0000_0000_0000u64 != 0x7FF0_0000_0000_0000u64) by (bit_vector);
        assert(0u64 & 0x7FFF_FFFF_FFFF_FFFFu64 == 0u64) by (bit_vector);
    } else {
        lemma_f64_of_nat_decode(n);
        let x = f64_of_nat(n);
        assert((0x3FF0_0000_0000_0000u64 <= x && x < 0x4340_0000_0000_0000u64) ==> (x
            & 0x7FF0_0000_0000_0000u64 != 0x7FF0_0000_0000_0000u64 && x & 0x8000_0000_0000_0000u64
            == 0u64 && x & 0x7FFF_FFFF_FFFF_FFFFu64 == x)) by (bit_vector);
    }
}

/// Prefixes chain: a prefix of a prefix is a prefix.
proof fn lemma_prefix_chain(a: Seq<ScalarValue>, b: Seq<ScalarValue>, c: Seq<ScalarValue>)
    requires
        a.is_prefix_of(b),
        b.is_prefix_of(c),
    ensures
        a.is_prefix_of(c),
{
    assert(c.subrange(0, a.len() as int) =~= b.subrange(0, a.len() as int));
}

/// The repeat law: entered at its head with the counter holding the exact
/// encoding of a natural number n, a lowered repeat loop whose body is
/// well behaved runs the body exactly n times and comes out past its
/// cleanup, the loop frame popped and the operand stack only grown.
pub proof fn lemma_repeat_loop_runs(
    code: Seq<Instruction>,
    p: usize,
    q: usize,
    eff: spec_fn(Sprite) -> Sprite,
    m: MachineState,
    n: nat,
)
    requires
        repeat_loop_shape(code, p, q),
        body_runs_clean(code, p, q, eff),
        m.thread.pc == p,
        m.thread.frames.len() >= 1,
        m.thread.frames.last() == ScalarValue::Num(f64_of_nat(n)),
        n <= 0x10_0000_0000_0000,
    ensures
        repeat_completes(code, p, q, eff, m, n),
    decreases n,
{
    let c = f64_of_nat(n);
    let st = m.thread.stack;
    lemma_counter_vs_half(n);

    // The four head steps: read the counter, push the threshold, compare,
    // and take or skip the exit jump.
    let g1 = machine_step(code, m);
    assert(machine_ok(code, m));
    lemma_run_one(code, m);
    assert(run_steps(code, m, 1) == g1);
    assert(g1.thread.pc == p + 1 && g1.thread.stack == st.push(c_val(c)) && g1.thread.frames
        == m.thread.frames && g1.sprite == m.sprite);

    let g2 = machine_step(code, g1);
    assert(machine_ok(code, g1));
    lemma_run_steps_add(code, m, 1, 1);
        lemma_run_one(code, g1);
    assert(run_steps(code, m, 2) == g2);
    assert(g2.thread.pc == p + 2 && g2.thread.stack == st.push(c_val(c)).push(
        c_val(NUM_HALF),
    ) && g2.thread.frames == m.thread.frames && g2.sprite == m.sprite);

    let g3 = machine_step(code, g2);
    assert(machine_ok(code, g2));
    lemma_run_steps_add(code, m, 2, 1);
        lemma_run_one(code, g2);
    assert(run_steps(code, m, 3) == g3);
    let below = n == 0;
    assert(g2.thread.stack[g2.thread.stack.len() - 2] == c_val(c));
    assert(g2.thread.stack.last() == c_val(NUM_HALF));
    assert(g3.thread.stack =~= st.push(ScalarValue::Bool(below))) by {
        assert(g2.thread.stack.drop_last().drop_last() =~= st);
    }
    assert(g3.thread.pc == p + 3 && g3.thread.frames == m.thread.frames && g3.sprite == m.sprite);

    let g4 = machine_step(code, g3);
    assert(machine_ok(code, g3));
    lemma_run_steps_add(code, m, 3, 1);
        lemma_run_one(code, g3);
    assert(run_steps(code, m, 4) == g4);
    assert(g4.thread.stack =~= st);
    assert(g4.thread.frames == m.thread.frames && g4.sprite == m.sprite);

    if n == 0 {
        // The exit jump went to the cleanup: pop the loop frame and leave.
        assert(g4.thread.pc == q);
        let g5 = machine_step(code, g4);
        assert(machine_ok(code, g4));
        lemma_run_steps_add(code, m, 4, 1);
        lemma_run_one(code, g4);
        assert(run_steps(code, m, 5) == g5);
        assert(g5.thread.pc == q + 1);
        assert(g5.thread.stack == g4.thread.stack);
        assert(g5.thread.frames == m.thread.frames.drop_last());
        assert(g5.sprite == m.sprite);
        assert(st.is_prefix_of(g5.thread.stack)) by {
            assert(g5.thread.stack.subrange(0, st.len() as int) =~= st);
        }
        assert(iter_effect(eff, 0, m.sprite) == m.sprite);
        assert({
            let m2 = run_steps(code, m, 5);
            &&& m2.thread.pc == q + 1
            &&& m.thread.stack.is_prefix_of(m2.thread.stack)
            &&& m2.thread.frames == m.thread.frames.drop_last()
            &&& m2.sprite == iter_effect(eff, 0, m.sprite)
        });
    } else {
        // The jump fell through: decrement the counter, run the body, and
        // jump back with the counter one lower.
        assert(g4.thread.pc == p + 4);

        let g5 = machine_step(code, g4);
        assert(machine_ok(code, g4));
        lemma_run_steps_add(code, m, 4, 1);
        lemma_run_one(code, g4);
        assert(run_steps(code, m, 5) == g5);
        assert(g5.thread.pc == p + 5 && g5.thread.stack =~= st.push(c_val(c)));

        let g6 = machine_step(code, g5);
        assert(machine_ok(code, g5));
        lemma_run_steps_add(code, m, 5, 1);
        lemma_run_one(code, g5);
        assert(run_steps(code, m, 6) == g6);
        assert(g6.thread.pc == p + 6 && g6.thread.stack =~= st.push(c_val(c)).push(
            c_val(NUM_ONE),
        ));

        let g7 = machine_step(code, g6);
        assert(machine_ok(code, g6));
        lemma_run_steps_add(code, m, 6, 1);
        lemma_run_one(code, g6);
        assert(run_steps(code, m, 7) == g7);
        let c1 = f64_of_nat((n - 1) as nat);
        lemma_f64_of_nat_decode(n);
        assert(crate::float_ops::num_sub(c, NUM_ONE) == c1);
        assert(g7.thread.stack =~= st.push(c_val(c1))) by {
            assert(g6.thread.stack.drop_last().drop_last() =~= st);
        }
        assert(g7.thread.pc == p + 7 && g7.thread.frames == m.thread.frames);

        let g8 = machine_step(code, g7);
        assert(machine_ok(code, g7));
        lemma_run_steps_add(code, m, 7, 1);
        lemma_run_one(code, g7);
        assert(run_steps(code, m, 8) == g8);
        assert(g8.thread.pc == p + 8);
        assert(g8.thread.stack == g7.thread.stack);
        assert(g8.thread.frames == m.thread.frames.update(
            m.thread.frames.len() - 1,
            c_val(c1),
        ));
        assert(g8.sprite == m.sprite);

        // The body hypothesis carries the machine to the back jump.
        assert(body_completes(code, p, q, eff, g8));
        let kb = choose|k: nat|
            {
                let m2 = #[trigger] run_steps(code, g8, k);
                &&& m2.thread.pc == q - 1
                &&& g8.thread.stack.is_prefix_of(m2.thread.stack)
                &&& m2.thread.frames == g8.thread.frames
                &&& m2.sprite == eff(g8.sprite)
            };
        let g9 = run_steps(code, g8, kb);
        lemma_run_steps_add(code, m, 8, kb);
        assert(run_steps(code, m, 8 + kb) == g9);

        let g10 = machine_step(code, g9);
        assert(machine_ok(code, g9));
        lemma_run_steps_add(code, m, 8 + kb, 1);
        lemma_run_one(code, g9);
        assert(run_steps(code, m, 8 + kb + 1) == g10);
        assert(g10.thread.pc == p);
        assert(g10.thread.stack == g9.thread.stack);
        assert(g10.thread.frames == g8.thread.frames);
        assert(g10.sprite == eff(m.sprite));

        // The loop head again, with the counter one lower.
        assert(g10.thread.frames.len() == m.thread.frames.len());
        assert(g10.thread.frames.last() == c_val(c1));
        lemma_repeat_loop_runs(code, p, q, eff, g10, (n - 1) as nat);
        let k2 = choose|k: nat|
            {
                let m2 = #[trigger] run_steps(code, g10, k);
                &&& m2.thread.pc == q + 1
                &&& g10.thread.stack.is_prefix_of(m2.thread.stack)
                &&& m2.thread.frames == g10.thread.frames.drop_last()
                &&& m2.sprite == iter_effect(eff, (n - 1) as nat, g10.sprite)
            };
        let g_end = run_steps(code, g10, k2);
        lemma_run_steps_add(code, m, 8 + kb + 1, k2);
        assert(run_steps(code, m, 8 + kb + 1 + k2) == g_end);

        assert(g_end.thread.frames =~= m.thread.frames.drop_last()) by {
            assert(g10.thread.frames.drop_last() =~= m.thread.frames.drop_last());
        }
        assert(g_end.sprite == iter_effect(eff, n, m.sprite));
        assert(st.is_prefix_of(g_end.thread.stack)) by {
            assert(st.is_prefix_of(st.push(c_val(c1)))) by {
                assert(st.push(c_val(c1)).subrange(0, st.len() as int) =~= st);
            }
            lemma_prefix_chain(st, st.push(c_val(c1)), g9.thread.stack);
            lemma_prefix_chain(st, g9.thread.stack, g_end.thread.stack);
        }
        assert({
            let m2 = run_steps(code, m, 8 + kb + 1 + k2);
            &&& m2.thread.pc == q + 1
            &&& m.thread.stack.is_prefix_of(m2.thread.stack)
            &&& m2.thread.frames == m.thread.frames.drop_last()
            &&& m2.sprite == iter_effect(eff, n, m.sprite)
        });
    }
}

/// Shorthand for a number value on the operand stack.
pub open spec fn c_val(b: u64) -> ScalarValue {
    ScalarValue::Num(b)
}

/// The simplest loop body — push a step count and
/// move the sprite — satisfies the body hypothesis of the repeat law: it runs from
/// the body's start to the back jump in two steps, leaves both stacks as
/// they were, and moves the sprite by the pushed count.
pub proof fn lemma_move_body_runs_clean(code: Seq<Instruction>, p: usize, q: usize, v: ScalarValue)
    requires
        repeat_loop_shape(code, p, q),
        q == p + 11,
        code[p + 8] == Instruction::Push(v),
        code[p + 9] == Instruction::MoveSteps,
    ensures
        body_runs_clean(code, p, q, |s: Sprite| crate::execute::spec_move_steps(s, crate::scalar_value::spec_to_num(v))),
{
    let eff = |s: Sprite| crate::execute::spec_move_steps(s, crate::scalar_value::spec_to_num(v));
    assert forall|m: MachineState| (m.thread.pc == p + 8 && m.thread.frames.len() >= 1) implies
        #[trigger] body_completes(code, p, q, eff, m) by {
        let g1 = machine_step(code, m);
        assert(machine_ok(code, m));
        lemma_run_one(code, m);
        assert(g1.thread.pc == p + 9);
        assert(g1.thread.stack == m.thread.stack.push(v));
        let g2 = machine_step(code, g1);
        assert(machine_ok(code, g1));
        lemma_run_steps_add(code, m, 1, 1);
        lemma_run_one(code, g1);
        assert(run_steps(code, m, 2) == g2);
        assert(g2.thread.pc == q - 1);
        assert(g2.thread.stack =~= m.thread.stack);
        assert(g2.thread.frames == m.thread.frames);
        assert(g2.sprite == eff(m.sprite));
        assert(m.thread.stack.is_prefix_of(g2.thread.stack)) by {
            assert(g2.thread.stack.subrange(0, m.thread.stack.len() as int) =~= m.thread.stack);
        }
        assert({
            let m2 = run_steps(code, m, 2);
            &&& m2.thread.pc == q - 1
            &&& m.thread.stack.is_prefix_of(m2.thread.stack)
            &&& m2.thread.frames == m.thread.frames
            &&& m2.sprite == eff(m.sprite)
        });
    }
}

/// The shape of a whole lowered repeat block: the frame save at `p0`, the
/// counter code up to the frame write at `p - 1`, and the loop from `p`
/// to the cleanup at `q`.
pub open spec fn repeat_block_shape(code: Seq<Instruction>, p0: usize, p: usize, q: usize) -> bool {
    &&& p0 + 2 <= p
    &&& code[p0 as int] == Instruction::SaveStackFrame
    &&& code[p - 1] == Instruction::WriteFrameValue
    &&& repeat_loop_shape(code, p, q)
}

/// A configuration right after the frame save finishes the counter code:
/// it reaches the frame write having pushed exactly the counter, with the
/// frame stack and the sprite untouched.
pub open spec fn times_completes(
    code: Seq<Instruction>,
    p: usize,
    cbits: u64,
    m: MachineState,
) -> bool {
    exists|k: nat|
        {
            let m2 = #[trigger] run_steps(code, m, k);
            &&& m2.thread.pc == p - 1
            &&& m2.thread.stack == m.thread.stack.push(c_val(cbits))
            &&& m2.thread.frames == m.thread.frames
            &&& m2.sprite == m.sprite
        }
}

/// What well-behaved counter code does, wherever it is entered.
pub open spec fn times_runs_clean(code: Seq<Instruction>, p0: usize, p: usize, cbits: u64) -> bool {
    forall|m: MachineState|
        (m.thread.pc == p0 + 1 && m.thread.frames.len() >= 1) ==> #[trigger] times_completes(
            code,
            p,
            cbits,
            m,
        )
}

/// The frame balance of the lowered repeat block: on every terminating
/// path, the frame the block saves is the frame its cleanup restores, so
/// the block leaves the frame stack exactly as it found it — and the body
/// has run exactly n times on the way.
pub proof fn lemma_repeat_block_balances(
    code: Seq<Instruction>,
    p0: usize,
    p: usize,
    q: usize,
    eff: spec_fn(Sprite) -> Sprite,
    m: MachineState,
    n: nat,
)
    requires
        repeat_block_shape(code, p0, p, q),
        times_runs_clean(code, p0, p, f64_of_nat(n)),
        body_runs_clean(code, p, q, eff),
        m.thread.pc == p0,
        n <= 0x10_0000_0000_0000,
    ensures
        exists|k: nat|
            {
                let m2 = #[trigger] run_steps(code, m, k);
                &&& m2.thread.pc == q + 1
                &&& m.thread.stack.is_prefix_of(m2.thread.stack)
                &&& m2.thread.frames == m.thread.frames
                &&& m2.sprite == iter_effect(eff, n, m.sprite)
            },
{
    let cbits = f64_of_nat(n);
    // The save pushes a fresh frame.
    let g1 = machine_step(code, m);
    assert(machine_ok(code, m));
    lemma_run_one(code, m);
    assert(g1.thread.pc == p0 + 1);
    assert(g1.thread.frames == m.thread.frames.push(c_val(0)));
    assert(g1.thread.stack == m.thread.stack && g1.sprite == m.sprite);

    // The counter code pushes the counter.
    assert(times_completes(code, p, cbits, g1));
    let kt = choose|k: nat|
        {
            let m2 = #[trigger] run_steps(code, g1, k);
            &&& m2.thread.pc == p - 1
            &&& m2.thread.stack == g1.thread.stack.push(c_val(cbits))
            &&& m2.thread.frames == g1.thread.frames
            &&& m2.sprite == g1.sprite
        };
    let g2 = run_steps(code, g1, kt);
    lemma_run_steps_add(code, m, 1, kt);
    assert(run_steps(code, m, 1 + kt) == g2);

    // The write stores the counter into the fresh frame.
    let g3 = machine_step(code, g2);
    assert(machine_ok(code, g2));
    lemma_run_steps_add(code, m, 1 + kt, 1);
    lemma_run_one(code, g2);
    assert(run_steps(code, m, 1 + kt + 1) == g3);
    assert(g3.thread.pc == p);
    assert(g3.thread.frames =~= m.thread.frames.push(c_val(cbits))) by {
        assert(g2.thread.frames.update(g2.thread.frames.len() - 1, c_val(cbits))
            =~= m.thread.frames.push(c_val(cbits)));
    }
    assert(g3.thread.stack == g2.thread.stack && g3.sprite == m.sprite);

    // The loop law runs the counter down and pops the frame again.
    assert(g3.thread.frames.last() == c_val(cbits));
    lemma_repeat_loop_runs(code, p, q, eff, g3, n);
    let kl = choose|k: nat|
        {
            let m2 = #[trigger] run_steps(code, g3, k);
            &&& m2.thread.pc == q + 1
            &&& g3.thread.stack.is_prefix_of(m2.thread.stack)
            &&& m2.thread.frames == g3.thread.frames.drop_last()
            &&& m2.sprite == iter_effect(eff, n, g3.sprite)
        };
    let g4 = run_steps(code, g3, kl);
    lemma_run_steps_add(code, m, 1 + kt + 1, kl);
    assert(run_steps(code, m, 1 + kt + 1 + kl) == g4);
    assert(g4.thread.frames =~= m.thread.frames) by {
        assert(m.thread.frames.push(c_val(cbits)).drop_last() =~= m.thread.frames);
    }
    assert(m.thread.stack.is_prefix_of(g4.thread.stack)) by {
        assert(m.thread.stack.is_prefix_of(g3.thread.stack)) by {
            assert(g3.thread.stack.subrange(0, m.thread.stack.len() as int)
                =~= m.thread.stack);
        }
        lemma_prefix_chain(m.thread.stack, g3.thread.stack, g4.thread.stack);
    }
    assert({
        let m2 = run_steps(code, m, 1 + kt + 1 + kl);
        &&& m2.thread.pc == q + 1
        &&& m.thread.stack.is_prefix_of(m2.thread.stack)
        &&& m2.thread.frames == m.thread.frames
        &&& m2.sprite == iter_effect(eff, n, m.sprite)
    });
}

} // verus!
