//! The bytecode alphabet and the compiled script.

use vstd::prelude::*;
use crate::scalar_value::ScalarValue;
use crate::trigger::Trigger;

verus! {

/// One bytecode instruction. Jump targets are absolute indices into the
/// script's own instruction sequence.
#[derive(Debug)]
pub enum Instruction {
    /// Push a clone of the value onto the operand stack.
    Push(ScalarValue),
    /// Park this thread for the rest of the current scheduler round.
    Yield,
    /// Set the program counter to the target.
    Jump(usize),
    /// Pop a value; if it coerces to true, set the program counter to the target.
    JumpIfTrue(usize),
    /// Push a fresh stack frame holding the number zero.
    SaveStackFrame,
    /// Pop the top stack frame.
    RestoreStackFrame,
    /// Push a copy of the current frame's value onto the operand stack.
    ReadFrameValue,
    /// Copy the operand-stack top into the current frame, leaving the stack as it is.
    WriteFrameValue,
    /// Ask the scheduler to end the tick and draw a frame.
    RequestRedraw,
    /// Pop two values, push their numeric sum.
    Add,
    /// Pop two values, push their numeric difference.
    Subtract,
    /// Pop two values, push whether the lower one is less.
    LessThan,
    /// Pop two values, push whether they compare equal.
    Equals,
    /// Pop two values, push whether the lower one is greater.
    GreaterThan,
    /// Pop y then x, and move the sprite there.
    GotoXY,
    /// Pop a step count and move the sprite that far along its direction.
    MoveSteps,
}

/// One compiled script: the trigger that starts it and its instructions.
#[derive(Debug)]
pub struct Script {
    pub trigger: Trigger,
    pub instructions: Vec<Instruction>,
}

impl Instruction {
    /// A copy of the instruction.
    pub fn duplicate(&self) -> (r: Self)
        ensures
            r == *self,
    {
        match self {
            Instruction::Push(v) => Instruction::Push(v.duplicate()),
            Instruction::Yield => Instruction::Yield,
            Instruction::Jump(t) => Instruction::Jump(*t),
            Instruction::JumpIfTrue(t) => Instruction::JumpIfTrue(*t),
            Instruction::SaveStackFrame => Instruction::SaveStackFrame,
            Instruction::RestoreStackFrame => Instruction::RestoreStackFrame,
            Instruction::ReadFrameValue => Instruction::ReadFrameValue,
            Instruction::WriteFrameValue => Instruction::WriteFrameValue,
            Instruction::RequestRedraw => Instruction::RequestRedraw,
            Instruction::Add => Instruction::Add,
            Instruction::Subtract => Instruction::Subtract,
            Instruction::LessThan => Instruction::LessThan,
            Instruction::Equals => Instruction::Equals,
            Instruction::GreaterThan => Instruction::GreaterThan,
            Instruction::GotoXY => Instruction::GotoXY,
            Instruction::MoveSteps => Instruction::MoveSteps,
        }
    }
}

impl Script {
    /// A copy of the script: same trigger, same instructions.
    pub fn duplicate(&self) -> (r: Self)
        ensures
            r.trigger == self.trigger,
            r.instructions@ == self.instructions@,
    {
        let mut instructions: Vec<Instruction> = Vec::new();
        let n = self.instructions.len();
        let mut i: usize = 0;
        while i < n
            invariant
                i <= n,
                n == self.instructions@.len(),
                instructions@.len() == i,
                forall|j: int| 0 <= j < i ==> instructions@[j] == self.instructions@[j],
            decreases n - i,
        {
            instructions.push(self.instructions[i].duplicate());
            i += 1;
        }
        proof {
            assert(instructions@ =~= self.instructions@);
        }
        Script { trigger: self.trigger.duplicate(), instructions }
    }
}

} // verus!
