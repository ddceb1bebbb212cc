//! The cooperative tick scheduler: one execution context per target, kept
//! in layer order, stepped round-robin one instruction at a time until the
//! tick's work or budget runs out.

use vstd::prelude::*;
use crate::clock::{elapsed_nanos, instant_now};
use crate::execute::{execute, instr_enabled, spec_execute, thread_step_ready};
use crate::instruction::Instruction;
use crate::project::Project;
use crate::sprite::Sprite;
use crate::thread::{Thread, ThreadModel, ThreadStatus};
use crate::trigger::{trigger_matches_spec, Trigger};
use crate::instruction::Script;
use crate::numerics::{NUM_HUNDRED, NUM_ZERO};
use crate::DrawableID;

verus! {

/// One sprite together with the threads of its target's scripts.
pub struct ExecutionContext {
    pub sprite: Sprite,
    pub threads: Vec<Thread>,
}

/// How many scheduler passes one tick may take at most. The wall clock
/// ends a tick long before this; the bound only makes termination plain.
pub const TICK_PASS_LIMIT: u64 = 0xFFFF_FFFF_FFFF_FFFF;

/// One tick's time budget: a thirtieth of a second, one frame at 30 Hz.
pub const STEP_TIME_NANOS: u64 = 33_333_333;

/// The runtime: the execution contexts in layer order, the redraw gate,
/// and whether ill-formed bytecode was ever met (a fatal fault; the
/// offending thread is retired).
pub struct Runtime {
    pub exec_contexts: Vec<ExecutionContext>,
    pub redraw_requested: bool,
    pub fault: bool,
}

/// A thread that was built for a script and not yet started: Done, at the
/// script's first instruction, with empty stacks.
pub open spec fn thread_fresh(th: Thread, sc: Script) -> bool {
    &&& th.code.trigger == sc.trigger
    &&& th.code.instructions@ == sc.instructions@
    &&& th.model() == (ThreadModel {
        pc: 0,
        stack: Seq::<ScalarValueAlias>::empty(),
        frames: Seq::<ScalarValueAlias>::empty(),
        status: ThreadStatus::Done,
    })
}

/// A context describes its target: a fresh sprite carrying the target's
/// layer order and drawable, and one fresh thread per script.
pub open spec fn context_wf(
    targets: Seq<crate::target::Target>,
    drawables: Seq<DrawableID>,
    c: ExecutionContext,
) -> bool {
    let ti = c.sprite.target_index;
    &&& ti < targets.len()
    &&& c.sprite == (Sprite {
        x: NUM_ZERO,
        y: NUM_ZERO,
        direction: NUM_ZERO,
        size: NUM_HUNDRED,
        visible: true,
        target_index: ti,
        layer_order: targets[ti as int].layer_order,
        drawable: drawables[ti as int],
    })
    &&& c.threads@.len() == targets[ti as int].scripts@.len()
    &&& forall|s: int|
        0 <= s < c.threads@.len() ==> thread_fresh(
            #[trigger] c.threads@[s],
            targets[ti as int].scripts@[s],
        )
}

/// Whether some context stands for target `k`.
pub open spec fn has_target(ctxs: Seq<ExecutionContext>, k: int) -> bool {
    exists|i: int| 0 <= i < ctxs.len() && (#[trigger] ctxs[i]).sprite.target_index == k
}

/// The strict scheduling order of two contexts: lower layer first, and the
/// earlier target first among equals.
pub open spec fn ctx_lt(a: ExecutionContext, b: ExecutionContext) -> bool {
    ||| a.sprite.layer_order < b.sprite.layer_order
    ||| (a.sprite.layer_order == b.sprite.layer_order && a.sprite.target_index
        < b.sprite.target_index)
}

/// What one tick may not touch: the shape of the contexts, each thread's
/// code, and each sprite's identity.
pub open spec fn contexts_frame(a: Seq<ExecutionContext>, b: Seq<ExecutionContext>) -> bool {
    &&& a.len() == b.len()
    &&& forall|i: int| 0 <= i < a.len() ==> ctx_frame(a[i], #[trigger] b[i])
}

/// One context's untouchable part.
pub open spec fn ctx_frame(a: ExecutionContext, b: ExecutionContext) -> bool {
    &&& b.sprite.layer_order == a.sprite.layer_order
    &&& b.sprite.target_index == a.sprite.target_index
    &&& b.sprite.drawable == a.sprite.drawable
    &&& b.threads@.len() == a.threads@.len()
    &&& forall|t: int|
        0 <= t < a.threads@.len() ==> {
            &&& (#[trigger] b.threads@[t]).code.trigger == a.threads@[t].code.trigger
            &&& b.threads@[t].code.instructions@ == a.threads@[t].code.instructions@
        }
}

type ScalarValueAlias = crate::scalar_value::ScalarValue;

/// Whether the visit of thread `j` in a round is skipped: an earlier
/// thread of the same context was already Done when visited, which ends
/// the context's round.
pub open spec fn round_skipped(threads: Seq<Thread>, j: int) -> bool {
    exists|i: int| 0 <= i < j && (#[trigger] threads[i]).status == ThreadStatus::Done
}

/// The status a visit works from: the first round of a tick un-parks a
/// thread that yielded until this tick.
pub open spec fn entry_status(st: ThreadStatus, first_round: bool) -> ThreadStatus {
    if st == ThreadStatus::YieldTick && first_round {
        ThreadStatus::Running
    } else {
        st
    }
}

/// What one round's visit does to one thread and the sprite it drives:
/// a skipped thread, a Done thread and a parked thread stay as they are;
/// a thread past its last instruction is retired to Done; a live thread
/// on well-formed bytecode takes exactly one machine step; a live thread
/// on ill-formed bytecode is retired to Done (the fault case).
pub open spec fn thread_round_rel(
    ot: Thread,
    nt: Thread,
    s_in: Sprite,
    s_out: Sprite,
    first_round: bool,
    skipped: bool,
) -> bool {
    let code = ot.code.instructions@;
    let entry = entry_status(ot.status, first_round);
    &&& nt.code.trigger == ot.code.trigger
    &&& nt.code.instructions@ == code
    &&& if skipped || ot.status == ThreadStatus::Done {
        &&& nt.model() == ot.model()
        &&& s_out == s_in
    } else if entry == ThreadStatus::Running || entry == ThreadStatus::Yield {
        if ot.model().pc >= code.len() {
            &&& nt.model() == (ThreadModel { status: ThreadStatus::Done, ..ot.model() })
            &&& s_out == s_in
        } else if instr_enabled(code, ot.model()) {
            let r = spec_execute(code, ThreadModel { status: entry, ..ot.model() }, s_in);
            &&& nt.model() == r.thread
            &&& s_out == r.sprite
        } else {
            &&& nt.model() == (ThreadModel { status: ThreadStatus::Done, ..ot.model() })
            &&& s_out == s_in
        }
    } else {
        &&& nt.model() == ot.model()
        &&& s_out == s_in
    }
}

/// Whether the visit of thread `j` executes a redraw request this round.
pub open spec fn visit_redraws(threads: Seq<Thread>, j: int, first_round: bool) -> bool {
    let t = threads[j];
    let code = t.code.instructions@;
    let entry = entry_status(t.status, first_round);
    &&& !round_skipped(threads, j)
    &&& t.status != ThreadStatus::Done
    &&& (entry == ThreadStatus::Running || entry == ThreadStatus::Yield)
    &&& 0 <= t.model().pc < code.len()
    &&& instr_enabled(code, t.model())
    &&& code[t.model().pc] is RequestRedraw
}

/// Whether some visit of this context asks for a redraw this round.
pub open spec fn ctx_redraws(oc: ExecutionContext, first_round: bool) -> bool {
    exists|j: int|
        0 <= j < oc.threads@.len() && #[trigger] visit_redraws(oc.threads@, j, first_round)
}

/// Whether some visit of the whole round asks for a redraw.
pub open spec fn pass_redraws(old_cs: Seq<ExecutionContext>, first_round: bool) -> bool {
    exists|i: int| 0 <= i < old_cs.len() && #[trigger] ctx_redraws(old_cs[i], first_round)
}

/// What one round does to one context: each thread in script order by
/// `thread_round_rel`, the sprite threaded through the visits in order.
pub open spec fn ctx_round_rel(oc: ExecutionContext, nc: ExecutionContext, first_round: bool) -> bool {
    &&& nc.threads@.len() == oc.threads@.len()
    &&& exists|sp: Seq<Sprite>|
        {
            &&& sp.len() == oc.threads@.len() + 1
            &&& sp[0] == oc.sprite
            &&& nc.sprite == sp[oc.threads@.len() as int]
            &&& forall|j: int|
                0 <= j < oc.threads@.len() ==> thread_round_rel(
                    oc.threads@[j],
                    #[trigger] nc.threads@[j],
                    sp[j],
                    sp[j + 1],
                    first_round,
                    round_skipped(oc.threads@, j),
                )
        }
}

/// What one round does to the whole runtime: every context in layer
/// order, each by `ctx_round_rel`.
pub open spec fn pass_rel(
    old_cs: Seq<ExecutionContext>,
    new_cs: Seq<ExecutionContext>,
    first_round: bool,
) -> bool {
    &&& new_cs.len() == old_cs.len()
    &&& forall|i: int|
        0 <= i < old_cs.len() ==> ctx_round_rel(old_cs[i], #[trigger] new_cs[i], first_round)
}

/// A run of rounds: consecutive states one round apart, the first round
/// of the tick marked as such.
pub open spec fn rounds_ok(rounds: Seq<Seq<ExecutionContext>>) -> bool {
    &&& rounds.len() >= 2
    &&& forall|i: int|
        0 <= i < rounds.len() - 1 ==> pass_rel(rounds[i], #[trigger] rounds[i + 1], i == 0)
}

/// Whether any round of the run asked for a redraw.
pub open spec fn rounds_redraw(rounds: Seq<Seq<ExecutionContext>>) -> bool {
    exists|i: int| 0 <= i < rounds.len() - 1 && pass_redraws(#[trigger] rounds[i], i == 0)
}

/// Every Running thread of the context stands behind an earlier Done
/// thread, so the round that found the context idle skipped it.
pub open spec fn ctx_quiet(c: ExecutionContext) -> bool {
    forall|j: int|
        0 <= j < c.threads@.len() ==> ((#[trigger] c.threads@[j]).status == ThreadStatus::Running
            ==> round_skipped(c.threads@, j))
}

/// One machine step asks for a redraw exactly on a RequestRedraw.
proof fn lemma_step_redraw(code: Seq<Instruction>, t: ThreadModel, s: Sprite)
    requires
        0 <= t.pc < code.len(),
    ensures
        spec_execute(code, t, s).redraw == (code[t.pc] is RequestRedraw),
{
}

/// What a trigger dispatch does to one thread: a listener is hard-reset to
/// Running at the start; any other thread is exactly as it was.
pub open spec fn thread_started(ot: Thread, nt: Thread, trigger: Trigger) -> bool {
    &&& nt.code.trigger == ot.code.trigger
    &&& nt.code.instructions@ == ot.code.instructions@
    &&& (trigger_matches_spec(ot.code.trigger, trigger) ==> nt.model() == (ThreadModel {
        pc: 0,
        stack: Seq::<ScalarValueAlias>::empty(),
        frames: Seq::<ScalarValueAlias>::empty(),
        status: ThreadStatus::Running,
    }))
    &&& (!trigger_matches_spec(ot.code.trigger, trigger) ==> nt == ot)
}

/// What a trigger dispatch does to one context: the sprite stays, and each
/// thread is started or left alone as its script's trigger decides.
pub open spec fn hats_started(oc: ExecutionContext, nc: ExecutionContext, trigger: Trigger) -> bool {
    &&& nc.sprite == oc.sprite
    &&& nc.threads@.len() == oc.threads@.len()
    &&& forall|t: int|
        0 <= t < oc.threads@.len() ==> thread_started(
            oc.threads@[t],
            #[trigger] nc.threads@[t],
            trigger,
        )
}

impl Runtime {
    /// Build the runtime for a project: one context per target, one thread
    /// per script, sorted by layer order, targets of one layer in their
    /// project order. The drawables come one per target, in target order.
    pub fn new(project: &Project, drawables: &Vec<DrawableID>) -> (r: Runtime)
        requires
            drawables@.len() == project.targets@.len(),
        ensures
            r.redraw_requested == false,
            r.fault == false,
            r.exec_contexts@.len() == project.targets@.len(),
            forall|i: int|
                0 <= i < r.exec_contexts@.len() ==> context_wf(
                    project.targets@,
                    drawables@,
                    #[trigger] r.exec_contexts@[i],
                ),
            forall|i: int, j: int|
                0 <= i < j < r.exec_contexts@.len() ==> ctx_lt(
                    #[trigger] r.exec_contexts@[i],
                    #[trigger] r.exec_contexts@[j],
                ),
            forall|k: int| 0 <= k < project.targets@.len() ==> #[trigger] has_target(
                r.exec_contexts@,
                k,
            ),
    {
        let n = project.targets.len();
        let mut exec_contexts: Vec<ExecutionContext> = Vec::new();
        let mut ti: usize = 0;
        while ti < n
            invariant
                n == project.targets@.len(),
                n == drawables@.len(),
                exec_contexts@.len() == ti,
                ti <= n,
                forall|i: int|
                    0 <= i < exec_contexts@.len() ==> context_wf(
                        project.targets@,
                        drawables@,
                        #[trigger] exec_contexts@[i],
                    ),
                forall|i: int, j: int|
                    0 <= i < j < exec_contexts@.len() ==> ctx_lt(
                        #[trigger] exec_contexts@[i],
                        #[trigger] exec_contexts@[j],
                    ),
                forall|i: int|
                    0 <= i < exec_contexts@.len() ==> (#[trigger] exec_contexts@[i]).sprite.target_index
                        < ti,
                forall|k: int| 0 <= k < ti ==> #[trigger] has_target(exec_contexts@, k),
            decreases n - ti,
        {
            let target = &project.targets[ti];
            let ns = target.scripts.len();
            let mut threads: Vec<Thread> = Vec::new();
            let mut si: usize = 0;
            while si < ns
                invariant
                    si <= ns,
                    ns == target.scripts@.len(),
                    threads@.len() == si,
                    forall|s: int|
                        0 <= s < si ==> thread_fresh(
                            #[trigger] threads@[s],
                            target.scripts@[s],
                        ),
                decreases ns - si,
            {
                threads.push(Thread::new(&target.scripts[si]));
                si += 1;
            }
            let sprite = Sprite::new(ti, target.layer_order, drawables[ti]);
            let ctx = ExecutionContext { sprite, threads };

            // Stable placement: after every context whose layer does not
            // exceed the new one, before the first whose layer does.
            let mut p: usize = 0;
            while p < exec_contexts.len() && exec_contexts[p].sprite.layer_order
                <= target.layer_order
                invariant
                    p <= exec_contexts@.len(),
                    forall|q: int|
                        0 <= q < p ==> (#[trigger] exec_contexts@[q]).sprite.layer_order
                            <= target.layer_order,
                decreases exec_contexts@.len() - p,
            {
                p += 1;
            }

            let ghost before = exec_contexts@;
            let ghost pp = p as int;
            exec_contexts.insert(p, ctx);
            proof {
                let after = exec_contexts@;
                assert forall|i: int, j: int|
                    0 <= i < j < after.len() implies ctx_lt(
                    #[trigger] after[i],
                    #[trigger] after[j],
                ) by {
                    if i < pp && j == pp {
                        assert(after[i] == before[i]);
                    } else if i == pp && j > pp {
                        assert(after[j] == before[j - 1]);
                        assert(before[pp].sprite.layer_order > target.layer_order);
                        if j - 1 > pp {
                            assert(ctx_lt(before[pp], before[j - 1]));
                        }
                    } else if i < pp && j > pp {
                        assert(after[i] == before[i]);
                        assert(after[j] == before[j - 1]);
                    } else if i < pp && j < pp {
                        assert(after[i] == before[i]);
                        assert(after[j] == before[j]);
                    } else if i > pp && j > pp {
                        assert(after[i] == before[i - 1]);
                        assert(after[j] == before[j - 1]);
                    }
                }
                assert forall|k: int| 0 <= k < ti + 1 implies #[trigger] has_target(
                    exec_contexts@,
                    k,
                ) by {
                    if k == ti {
                        assert(exec_contexts@[pp].sprite.target_index == k);
                    } else {
                        assert(has_target(before, k));
                        let w = choose|i: int|
                            0 <= i < before.len() && (#[trigger] before[i]).sprite.target_index
                                == k;
                        if w < pp {
                            assert(exec_contexts@[w].sprite.target_index == k);
                        } else {
                            assert(exec_contexts@[w + 1].sprite.target_index == k);
                        }
                    }
                }
            }
            ti += 1;
        }
        Runtime { exec_contexts, redraw_requested: false, fault: false }
    }

    /// Start every thread whose script listens for the trigger; every
    /// other thread, and every sprite, stays exactly as it was.
    pub fn start_hats(&mut self, trigger: &Trigger)
        ensures
            final(self).redraw_requested == old(self).redraw_requested,
            final(self).fault == old(self).fault,
            final(self).exec_contexts@.len() == old(self).exec_contexts@.len(),
            forall|i: int|
                0 <= i < old(self).exec_contexts@.len() ==> hats_started(
                    old(self).exec_contexts@[i],
                    #[trigger] final(self).exec_contexts@[i],
                    *trigger,
                ),
    {
        let ghost old_ctxs = self.exec_contexts@;
        let mut done: Vec<ExecutionContext> = Vec::new();
        while self.exec_contexts.len() > 0
            invariant
                self.redraw_requested == old(self).redraw_requested,
                self.fault == old(self).fault,
                done@.len() + self.exec_contexts@.len() == old_ctxs.len(),
                forall|i: int|
                    0 <= i < self.exec_contexts@.len() ==> #[trigger] self.exec_contexts@[i]
                        == old_ctxs[done@.len() + i],
                forall|i: int|
                    0 <= i < done@.len() ==> hats_started(old_ctxs[i], #[trigger] done@[i], *trigger),
            decreases self.exec_contexts@.len(),
        {
            let ghost ci = done@.len() as int;
            let mut ctx = self.exec_contexts.remove(0);
            proof {
                assert(ctx == old_ctxs[ci]);
            }
            let ghost old_threads = ctx.threads@;
            let mut processed: Vec<Thread> = Vec::new();
            while ctx.threads.len() > 0
                invariant
                    ctx.sprite == old_ctxs[ci].sprite,
                    processed@.len() + ctx.threads@.len() == old_threads.len(),
                    forall|i: int|
                        0 <= i < ctx.threads@.len() ==> #[trigger] ctx.threads@[i]
                            == old_threads[processed@.len() + i],
                    forall|t: int|
                        0 <= t < processed@.len() ==> thread_started(
                            old_threads[t],
                            #[trigger] processed@[t],
                            *trigger,
                        ),
                decreases ctx.threads@.len(),
            {
                let mut thread = ctx.threads.remove(0);
                if thread.trigger_matches(trigger) {
                    thread.start();
                }
                processed.push(thread);
            }
            ctx.threads = processed;
            proof {
                assert forall|t: int| 0 <= t < old_ctxs[ci].threads@.len() implies thread_started(
                    old_ctxs[ci].threads@[t],
                    #[trigger] ctx.threads@[t],
                    *trigger,
                ) by {
                    assert(thread_started(old_threads[t], processed@[t], *trigger));
                }
                assert(hats_started(old_ctxs[ci], ctx, *trigger));
            }
            done.push(ctx);
        }
        self.exec_contexts = done;
    }

    /// One tick: step every live thread round-robin, one instruction per
    /// visit, in layer order, until no thread is Running, the step time is
    /// spent, or a redraw was asked for; true when the tick ended on its
    /// time budget. The final contexts are some whole number of rounds
    /// (at least one) from the old ones, the redraw gate is set exactly
    /// when a visit executed a redraw request, and a tick that ended on
    /// neither time nor redraw left no Running thread except behind a
    /// Done thread. A thread on ill-formed bytecode is retired and the
    /// fault is recorded; the bytecode of the engine's own compiler never
    /// trips this.
    pub fn step_threads(&mut self) -> (time_up: bool)
        ensures
            contexts_frame(old(self).exec_contexts@, final(self).exec_contexts@),
            old(self).fault ==> final(self).fault,
            exists|rounds: Seq<Seq<ExecutionContext>>|
                {
                    &&& #[trigger] rounds_ok(rounds)
                    &&& rounds[0] == old(self).exec_contexts@
                    &&& rounds[rounds.len() - 1] == final(self).exec_contexts@
                    &&& final(self).redraw_requested == rounds_redraw(rounds)
                },
            (!time_up && !final(self).redraw_requested) ==> forall|i: int|
                0 <= i < final(self).exec_contexts@.len() ==> ctx_quiet(
                    #[trigger] final(self).exec_contexts@[i],
                ),
    {
        let ghost ctxs0 = self.exec_contexts@;
        let clock = instant_now();
        self.redraw_requested = false;
        let mut ran_first_tick = false;
        let mut fuel: u64 = TICK_PASS_LIMIT;
        let mut redraw = false;
        let mut fault_seen = false;
        let ghost mut rounds: Seq<Seq<ExecutionContext>> = seq![ctxs0];

        loop
            invariant
                ctxs0 == old(self).exec_contexts@,
                contexts_frame(ctxs0, self.exec_contexts@),
                self.redraw_requested == false,
                self.fault == old(self).fault,
                rounds.len() >= 1,
                ran_first_tick == (rounds.len() >= 2),
                rounds[0] == ctxs0,
                rounds[rounds.len() - 1] == self.exec_contexts@,
                forall|i: int|
                    0 <= i < rounds.len() - 1 ==> pass_rel(rounds[i], #[trigger] rounds[i + 1], i
                        == 0),
                redraw == exists|i: int|
                    0 <= i < rounds.len() - 1 && pass_redraws(#[trigger] rounds[i], i == 0),
            decreases fuel,
        {
            let mut any_active = false;
            let mut pass_saw = false;
            let ghost pass_start = self.exec_contexts@;
            let ghost first = !ran_first_tick;
            let ghost redraw0 = redraw;

            let mut done: Vec<ExecutionContext> = Vec::new();
            while self.exec_contexts.len() > 0
                invariant
                    self.redraw_requested == false,
                    self.fault == old(self).fault,
                    first == !ran_first_tick,
                    done@.len() + self.exec_contexts@.len() == pass_start.len(),
                    forall|i: int|
                        0 <= i < self.exec_contexts@.len() ==> #[trigger] self.exec_contexts@[i]
                            == pass_start[done@.len() + i],
                    forall|i: int|
                        0 <= i < done@.len() ==> ctx_frame(pass_start[i], #[trigger] done@[i]),
                    forall|i: int|
                        0 <= i < done@.len() ==> ctx_round_rel(
                            pass_start[i],
                            #[trigger] done@[i],
                            first,
                        ),
                    !any_active ==> forall|i: int|
                        0 <= i < done@.len() ==> ctx_quiet(#[trigger] done@[i]),
                    pass_saw == exists|i: int|
                        0 <= i < done@.len() && #[trigger] ctx_redraws(pass_start[i], first),
                decreases self.exec_contexts@.len(),
            {
                let ghost ci = done@.len() as int;
                let ghost active0 = any_active;
                let ghost saw0 = pass_saw;
                let mut ctx = self.exec_contexts.remove(0);
                proof {
                    assert(ctx == pass_start[ci]);
                }
                let ghost threads0 = ctx.threads@;
                let ghost sprite0 = ctx.sprite;
                let mut sprite = ctx.sprite;
                let mut processed: Vec<Thread> = Vec::new();
                let mut rest_done = false;
                let ghost mut chain: Seq<Sprite> = seq![ctx.sprite];
                while ctx.threads.len() > 0
                    invariant
                        first == !ran_first_tick,
                        ctx.sprite == sprite0,
                        processed@.len() + ctx.threads@.len() == threads0.len(),
                        forall|i: int|
                            0 <= i < ctx.threads@.len() ==> #[trigger] ctx.threads@[i]
                                == threads0[processed@.len() + i],
                        forall|t: int|
                            0 <= t < processed@.len() ==> {
                                &&& (#[trigger] processed@[t]).code.trigger
                                    == threads0[t].code.trigger
                                &&& processed@[t].code.instructions@
                                    == threads0[t].code.instructions@
                            },
                        sprite.layer_order == sprite0.layer_order,
                        sprite.target_index == sprite0.target_index,
                        sprite.drawable == sprite0.drawable,
                        chain.len() == processed@.len() + 1,
                        chain[0] == sprite0,
                        sprite == chain[processed@.len() as int],
                        forall|j: int|
                            0 <= j < processed@.len() ==> thread_round_rel(
                                threads0[j],
                                #[trigger] processed@[j],
                                chain[j],
                                chain[j + 1],
                                first,
                                round_skipped(threads0, j),
                            ),
                        rest_done == exists|i: int|
                            0 <= i < processed@.len() && (#[trigger] threads0[i]).status
                                == ThreadStatus::Done,
                        forall|j: int|
                            0 <= j < processed@.len() ==> ((#[trigger] threads0[j]).status
                                == ThreadStatus::Done ==> processed@[j].status
                                == ThreadStatus::Done),
                        active0 ==> any_active,
                        pass_saw == (saw0 || exists|j: int|
                            0 <= j < processed@.len() && #[trigger] visit_redraws(
                                threads0,
                                j,
                                first,
                            )),
                        !any_active ==> forall|j: int|
                            0 <= j < processed@.len() ==> ((#[trigger] processed@[j]).status
                                == ThreadStatus::Running ==> round_skipped(threads0, j)),
                    decreases ctx.threads@.len(),
                {
                    let ghost cur = processed@.len() as int;
                    let mut thread = ctx.threads.remove(0);
                    let ghost t_entry = thread;
                    let ghost s_in = sprite;
                    proof {
                        assert(t_entry == threads0[cur]);
                    }
                    if !rest_done {
                        if thread.status == ThreadStatus::Done {
                            // The first Done thread ends this context's
                            // round, as the scheduler has always done.
                            rest_done = true;
                        } else {
                            if thread.status == ThreadStatus::YieldTick && !ran_first_tick {
                                thread.resume();
                            }
                            if thread.status == ThreadStatus::Running || thread.status
                                == ThreadStatus::Yield {
                                if thread.instruction_pointer >= thread.code.instructions.len() {
                                    // Ran off the end: the script is over.
                                    thread.status = ThreadStatus::Done;
                                } else if thread_step_ready(&thread) {
                                    proof {
                                        lemma_step_redraw(
                                            t_entry.code.instructions@,
                                            thread.model(),
                                            sprite,
                                        );
                                    }
                                    if execute(&mut sprite, &mut thread) {
                                        pass_saw = true;
                                        proof {
                                            assert(visit_redraws(threads0, cur, first));
                                        }
                                    } else {
                                        proof {
                                            assert(!visit_redraws(threads0, cur, first));
                                        }
                                    }
                                } else {
                                    fault_seen = true;
                                    thread.status = ThreadStatus::Done;
                                }
                            }
                            if thread.status == ThreadStatus::Running {
                                any_active = true;
                            }
                        }
                    }
                    proof {
                        assert(thread_round_rel(
                            threads0[cur],
                            thread,
                            s_in,
                            sprite,
                            first,
                            round_skipped(threads0, cur),
                        ));
                        assert((exists|j: int|
                            0 <= j < cur + 1 && #[trigger] visit_redraws(threads0, j, first))
                            == ((exists|j: int|
                            0 <= j < cur && #[trigger] visit_redraws(threads0, j, first))
                            || visit_redraws(threads0, cur, first)));
                        chain = chain.push(sprite);
                    }
                    processed.push(thread);
                }
                ctx.threads = processed;
                ctx.sprite = sprite;
                proof {
                    assert(ctx_frame(pass_start[ci], ctx));
                    assert(ctx_round_rel(pass_start[ci], ctx, first)) by {
                        assert(chain.len() == pass_start[ci].threads@.len() + 1);
                        assert(chain[0] == pass_start[ci].sprite);
                        assert(ctx.sprite == chain[pass_start[ci].threads@.len() as int]);
                    }
                    assert(ctx_redraws(pass_start[ci], first) == exists|j: int|
                        0 <= j < threads0.len() && #[trigger] visit_redraws(threads0, j, first));
                    assert((exists|i: int|
                        0 <= i < ci + 1 && #[trigger] ctx_redraws(pass_start[i], first)) == ((
                    exists|i: int| 0 <= i < ci && #[trigger] ctx_redraws(pass_start[i], first))
                        || ctx_redraws(pass_start[ci], first)));
                    if !any_active {
                        assert forall|j: int|
                            0 <= j < ctx.threads@.len() && (#[trigger] ctx.threads@[j]).status
                                == ThreadStatus::Running implies round_skipped(
                            ctx.threads@,
                            j,
                        ) by {
                            assert(round_skipped(threads0, j));
                            let w = choose|i: int|
                                0 <= i < j && (#[trigger] threads0[i]).status
                                    == ThreadStatus::Done;
                            assert(ctx.threads@[w].status == ThreadStatus::Done);
                        }
                        assert(ctx_quiet(ctx));
                    }
                }
                done.push(ctx);
            }
            self.exec_contexts = done;
            ran_first_tick = true;
            proof {
                assert(pass_rel(pass_start, self.exec_contexts@, first));
                assert(pass_saw == pass_redraws(pass_start, first));
                assert forall|i: int| 0 <= i < ctxs0.len() implies ctx_frame(
                    ctxs0[i],
                    #[trigger] self.exec_contexts@[i],
                ) by {
                    let a = ctxs0[i];
                    let b = pass_start[i];
                    let c = self.exec_contexts@[i];
                    assert(ctx_frame(a, b));
                    assert(ctx_frame(b, c));
                    assert forall|t: int| 0 <= t < a.threads@.len() implies {
                        &&& (#[trigger] c.threads@[t]).code.trigger == a.threads@[t].code.trigger
                        &&& c.threads@[t].code.instructions@ == a.threads@[t].code.instructions@
                    } by {
                        assert(b.threads@[t].code.trigger == a.threads@[t].code.trigger);
                        assert(c.threads@[t].code.trigger == b.threads@[t].code.trigger);
                    }
                }
            }
            if pass_saw {
                redraw = true;
            }
            proof {
                let n0 = rounds.len() as int;
                let rounds_new = rounds.push(self.exec_contexts@);
                assert(forall|i: int| 0 <= i < n0 ==> rounds_new[i] == #[trigger] rounds[i]);
                assert(rounds_new[n0] == self.exec_contexts@);
                assert(rounds_new[n0 - 1] == pass_start);
                assert(pass_rel(rounds_new[n0 - 1], rounds_new[n0], (n0 - 1) == 0));
                // The redraw flag tracks exactly the rounds that asked.
                if redraw0 {
                    let w = choose|i: int|
                        0 <= i < n0 - 1 && pass_redraws(#[trigger] rounds[i], i == 0);
                    assert(pass_redraws(rounds_new[w], w == 0));
                }
                if pass_saw {
                    assert(pass_redraws(rounds_new[n0 - 1], (n0 - 1) == 0));
                }
                assert forall|i: int|
                    0 <= i < rounds_new.len() - 1 && pass_redraws(
                        #[trigger] rounds_new[i],
                        i == 0,
                    ) implies redraw by {
                    if i < n0 - 1 {
                        assert(pass_redraws(rounds[i], i == 0));
                    } else {
                        assert(rounds_new[i] == pass_start);
                        assert(pass_redraws(pass_start, first));
                    }
                }
                rounds = rounds_new;
                assert(redraw == exists|i: int|
                    0 <= i < rounds.len() - 1 && pass_redraws(#[trigger] rounds[i], i == 0));
            }

            let elapsed = elapsed_nanos(&clock) >= STEP_TIME_NANOS;
            if !any_active || elapsed || redraw || fuel == 0 {
                if redraw {
                    self.redraw_requested = true;
                }
                if fault_seen {
                    self.fault = true;
                }
                proof {
                    assert(self.redraw_requested == redraw);
                    assert(rounds_ok(rounds));
                    assert(rounds[rounds.len() - 1] == self.exec_contexts@);
                    assert(self.redraw_requested == rounds_redraw(rounds));
                }
                return elapsed || fuel == 0;
            }
            fuel = fuel - 1;
        }
    }
}

} // verus!
