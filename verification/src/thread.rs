//! Per-script execution state: program counter, operand stack, frame stack
//! and status.

use vstd::prelude::*;
use crate::instruction::Script;
use crate::numerics::NUM_ZERO;
use crate::scalar_value::ScalarValue;
use crate::trigger::{trigger_matches_spec, Trigger};

verus! {

/// Where a thread stands in the scheduler's eyes. A fresh thread is Done
/// until a trigger starts it.
#[derive(Debug, Clone, Copy, PartialEq, Eq, Structural)]
pub enum ThreadStatus {
    Running,
    Yield,
    YieldTick,
    Done,
}

/// One frame of the frame stack: a scratch slot holding a single value,
/// such as the remaining iteration count of a repeat loop.
#[derive(Debug)]
pub struct StackFrame {
    pub frame_value: ScalarValue,
}

/// The mathematical state of a thread: program counter, the two stacks (the
/// frame stack as the sequence of its frame values), and the status.
#[verifier::ext_equal]
pub struct ThreadModel {
    pub pc: int,
    pub stack: Seq<ScalarValue>,
    pub frames: Seq<ScalarValue>,
    pub status: ThreadStatus,
}

/// One thread: its compiled script and its execution state. Popping an
/// empty stack would be a compiler bug, so the stack operations require the
/// stack they touch to be non-empty.
pub struct Thread {
    pub code: Script,
    pub stack: Vec<ScalarValue>,
    pub stack_frames: Vec<StackFrame>,
    pub instruction_pointer: usize,
    pub status: ThreadStatus,
}

impl Thread {
    /// The operand stack, bottom first.
    pub open spec fn stack_model(&self) -> Seq<ScalarValue> {
        self.stack@
    }

    /// The frame values, bottom first.
    pub open spec fn frames_model(&self) -> Seq<ScalarValue> {
        self.stack_frames@.map_values(|f: StackFrame| f.frame_value)
    }

    /// The whole execution state as one mathematical value.
    pub open spec fn model(&self) -> ThreadModel {
        ThreadModel {
            pc: self.instruction_pointer as int,
            stack: self.stack_model(),
            frames: self.frames_model(),
            status: self.status,
        }
    }

    /// A fresh thread on the given script: Done, at the start, with empty
    /// stacks.
    pub fn new(code: &Script) -> (r: Self)
        ensures
            r.code.trigger == code.trigger,
            r.code.instructions@ == code.instructions@,
            r.model() == (ThreadModel {
                pc: 0,
                stack: Seq::<ScalarValue>::empty(),
                frames: Seq::<ScalarValue>::empty(),
                status: ThreadStatus::Done,
            }),
    {
        let r = Thread {
            code: code.duplicate(),
            stack: Vec::new(),
            stack_frames: Vec::new(),
            instruction_pointer: 0,
            status: ThreadStatus::Done,
        };
        proof {
            assert(r.frames_model() =~= Seq::<ScalarValue>::empty());
        }
        r
    }

    /// Whether this thread's script listens for the given trigger.
    pub fn trigger_matches(&self, trigger: &Trigger) -> (r: bool)
        ensures
            r == trigger_matches_spec(self.code.trigger, *trigger),
    {
        self.code.trigger.matches(trigger)
    }

    /// Hard reset: Running from the first instruction with empty stacks.
    pub fn start(&mut self)
        ensures
            final(self).code.trigger == old(self).code.trigger,
            final(self).code.instructions@ == old(self).code.instructions@,
            final(self).model() == (ThreadModel {
                pc: 0,
                stack: Seq::<ScalarValue>::empty(),
                frames: Seq::<ScalarValue>::empty(),
                status: ThreadStatus::Running,
            }),
    {
        self.status = ThreadStatus::Running;
        self.instruction_pointer = 0;
        self.stack.clear();
        self.stack_frames.clear();
        proof {
            assert(self.frames_model() =~= Seq::<ScalarValue>::empty());
        }
    }

    /// Un-park the thread; everything but the status stays.
    pub fn resume(&mut self)
        ensures
            final(self).code.trigger == old(self).code.trigger,
            final(self).code.instructions@ == old(self).code.instructions@,
            final(self).model() == (ThreadModel { status: ThreadStatus::Running, ..old(self).model() }),
    {
        self.status = ThreadStatus::Running;
    }

    /// Park the thread for the rest of the current scheduler round.
    pub fn yield_thread(&mut self)
        ensures
            final(self).code.trigger == old(self).code.trigger,
            final(self).code.instructions@ == old(self).code.instructions@,
            final(self).model() == (ThreadModel { status: ThreadStatus::Yield, ..old(self).model() }),
    {
        self.status = ThreadStatus::Yield;
    }

    /// Push a value onto the operand stack.
    pub fn push_stack(&mut self, value: ScalarValue)
        ensures
            final(self).code.trigger == old(self).code.trigger,
            final(self).code.instructions@ == old(self).code.instructions@,
            final(self).model() == (ThreadModel {
                stack: old(self).model().stack.push(value),
                ..old(self).model()
            }),
    {
        self.stack.push(value);
    }

    /// Pop the operand stack's top.
    pub fn pop_stack(&mut self) -> (r: ScalarValue)
        requires
            old(self).model().stack.len() > 0,
        ensures
            r == old(self).model().stack.last(),
            final(self).code.trigger == old(self).code.trigger,
            final(self).code.instructions@ == old(self).code.instructions@,
            final(self).model() == (ThreadModel {
                stack: old(self).model().stack.drop_last(),
                ..old(self).model()
            }),
    {
        proof {
            assert(self.stack@.len() > 0);
        }
        let r = self.stack.pop().unwrap();
        proof {
            assert(self.stack@ =~= old(self).model().stack.drop_last());
        }
        r
    }

    /// The operand stack's top, in place.
    pub fn peek_stack(&self) -> (r: &ScalarValue)
        requires
            self.model().stack.len() > 0,
        ensures
            *r == self.model().stack.last(),
    {
        let n = self.stack.len();
        &self.stack[n - 1]
    }

    /// Push a fresh frame holding the number zero.
    pub fn push_stack_frame(&mut self)
        ensures
            final(self).code.trigger == old(self).code.trigger,
            final(self).code.instructions@ == old(self).code.instructions@,
            final(self).model() == (ThreadModel {
                frames: old(self).model().frames.push(ScalarValue::Num(NUM_ZERO)),
                ..old(self).model()
            }),
    {
        self.stack_frames.push(StackFrame { frame_value: ScalarValue::Num(NUM_ZERO) });
        proof {
            assert(self.frames_model() =~= old(self).frames_model().push(
                ScalarValue::Num(NUM_ZERO),
            ));
        }
    }

    /// Pop the top frame.
    pub fn pop_stack_frame(&mut self) -> (r: StackFrame)
        requires
            old(self).model().frames.len() > 0,
        ensures
            r.frame_value == old(self).model().frames.last(),
            final(self).code.trigger == old(self).code.trigger,
            final(self).code.instructions@ == old(self).code.instructions@,
            final(self).model() == (ThreadModel {
                frames: old(self).model().frames.drop_last(),
                ..old(self).model()
            }),
    {
        proof {
            assert(self.stack_frames@.len() > 0);
        }
        let r = self.stack_frames.pop().unwrap();
        proof {
            assert(self.frames_model() =~= old(self).frames_model().drop_last());
        }
        r
    }

    /// The top frame, in place.
    pub fn peek_stack_frame(&self) -> (r: &StackFrame)
        requires
            self.model().frames.len() > 0,
        ensures
            r.frame_value == self.model().frames.last(),
    {
        let n = self.stack_frames.len();
        &self.stack_frames[n - 1]
    }

    /// Copy the operand stack's top into the top frame; the stack keeps its
    /// top.
    pub fn write_frame_value(&mut self)
        requires
            old(self).model().stack.len() > 0,
            old(self).model().frames.len() > 0,
        ensures
            final(self).code.trigger == old(self).code.trigger,
            final(self).code.instructions@ == old(self).code.instructions@,
            final(self).model() == (ThreadModel {
                frames: old(self).model().frames.update(
                    old(self).model().frames.len() - 1,
                    old(self).model().stack.last(),
                ),
                ..old(self).model()
            }),
    {
        let sn = self.stack.len();
        let top = self.stack[sn - 1].duplicate();
        let fn_ = self.stack_frames.len();
        self.stack_frames[fn_ - 1] = StackFrame { frame_value: top };
        proof {
            assert(self.frames_model() =~= old(self).frames_model().update(
                old(self).frames_model().len() - 1,
                old(self).model().stack.last(),
            ));
        }
    }
}

} // verus!
