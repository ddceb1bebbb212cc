//! The block-to-bytecode compiler on concrete block tables.

use tabi::block::{Block, BlockInput, BlockShape};
use tabi::block_specs::make_block_specs;
use tabi::compile::{compile_blocks, CompileDiagnostic};
use tabi::instruction::Instruction;
use tabi::scalar_value::ScalarValue;
use tabi::trigger::Trigger;

fn hat(next: Option<usize>) -> Block {
    Block {
        opcode: String::from("event_whenflagclicked"),
        shape: BlockShape::Hat,
        field_values: Vec::new(),
        next,
        parent: None,
    }
}

fn move_steps(steps: f64, next: Option<usize>, parent: usize) -> Block {
    Block {
        opcode: String::from("motion_movesteps"),
        shape: BlockShape::Command,
        field_values: vec![BlockInput::Literal(ScalarValue::Num(steps.to_bits()))],
        next,
        parent: Some(parent),
    }
}

fn repeat(times: f64, substack: usize, next: Option<usize>, parent: usize) -> Block {
    Block {
        opcode: String::from("control_repeat"),
        shape: BlockShape::Command,
        field_values: vec![
            BlockInput::Literal(ScalarValue::Num(times.to_bits())),
            BlockInput::Substack(substack),
        ],
        next,
        parent: Some(parent),
    }
}

#[test]
fn spec_registry_contents() {
    let specs = make_block_specs();
    assert_eq!(specs.specs.len(), 4);
    assert_eq!(specs.specs[0].name, "math_number");
    assert_eq!(specs.specs[1].name, "motion_movesteps");
    assert_eq!(specs.specs[2].name, "control_repeat");
    assert_eq!(specs.specs[3].name, "event_whenflagclicked");
    // Arity matches the slot lists.
    assert_eq!(specs.specs[2].field_names, vec!["TIMES", "SUBSTACK"]);
    assert_eq!(specs.specs[0].field_names.len(), specs.specs[0].field_types.len());
    assert!(specs.get("control_repeat").is_some());
    assert!(specs.get("no_such_opcode").is_none());
}

#[test]
fn single_move_compiles_to_push_and_move() {
    let blocks = vec![hat(Some(1)), move_steps(10.0, None, 0)];
    let (scripts, diagnostics) = compile_blocks(&blocks);
    assert_eq!(diagnostics.len(), 0);
    assert_eq!(scripts.len(), 1);
    assert!(matches!(&scripts[0].trigger, Trigger::WhenFlagClicked));
    let ins = &scripts[0].instructions;
    assert_eq!(ins.len(), 2);
    assert!(matches!(&ins[0], Instruction::Push(ScalarValue::Num(b)) if *b == 10.0f64.to_bits()));
    assert!(matches!(&ins[1], Instruction::MoveSteps));
}

#[test]
fn repeat_lowers_with_backpatched_exit() {
    let blocks = vec![hat(Some(1)), repeat(3.0, 2, None, 1), move_steps(1.0, None, 1)];
    let (scripts, diagnostics) = compile_blocks(&blocks);
    assert_eq!(diagnostics.len(), 0);
    assert_eq!(scripts.len(), 1);
    let ins = &scripts[0].instructions;
    assert_eq!(ins.len(), 15);
    assert!(matches!(&ins[0], Instruction::SaveStackFrame));
    assert!(matches!(&ins[1], Instruction::Push(ScalarValue::Num(b)) if *b == 3.0f64.to_bits()));
    assert!(matches!(&ins[2], Instruction::WriteFrameValue));
    assert!(matches!(&ins[3], Instruction::ReadFrameValue));
    assert!(matches!(&ins[4], Instruction::Push(ScalarValue::Num(b)) if *b == 0.5f64.to_bits()));
    assert!(matches!(&ins[5], Instruction::LessThan));
    // The exit jump was backpatched to the cleanup address.
    assert!(matches!(&ins[6], Instruction::JumpIfTrue(14)));
    assert!(matches!(&ins[7], Instruction::ReadFrameValue));
    assert!(matches!(&ins[8], Instruction::Push(ScalarValue::Num(b)) if *b == 1.0f64.to_bits()));
    assert!(matches!(&ins[9], Instruction::Subtract));
    assert!(matches!(&ins[10], Instruction::WriteFrameValue));
    assert!(matches!(&ins[11], Instruction::Push(ScalarValue::Num(b)) if *b == 1.0f64.to_bits()));
    assert!(matches!(&ins[12], Instruction::MoveSteps));
    assert!(matches!(&ins[13], Instruction::Jump(3)));
    assert!(matches!(&ins[14], Instruction::RestoreStackFrame));
}

#[test]
fn every_jump_stays_in_range() {
    let blocks = vec![hat(Some(1)), repeat(5.0, 2, None, 1), repeat(2.0, 3, None, 2),
        move_steps(1.0, None, 2)];
    let (scripts, _) = compile_blocks(&blocks);
    assert_eq!(scripts.len(), 1);
    let ins = &scripts[0].instructions;
    for i in ins.iter() {
        match i {
            Instruction::Jump(t) | Instruction::JumpIfTrue(t) => assert!(*t <= ins.len()),
            _ => {},
        }
    }
}

#[test]
fn frames_balance_across_compiled_script() {
    // Every SaveStackFrame is matched by a RestoreStackFrame: the nesting
    // count of the emitted sequence ends at zero and never goes below.
    let blocks = vec![hat(Some(1)), repeat(5.0, 2, None, 1), repeat(2.0, 3, None, 2),
        move_steps(1.0, None, 2)];
    let (scripts, _) = compile_blocks(&blocks);
    let ins = &scripts[0].instructions;
    let mut depth: i64 = 0;
    for i in ins.iter() {
        match i {
            Instruction::SaveStackFrame => depth += 1,
            Instruction::RestoreStackFrame => {
                depth -= 1;
                assert!(depth >= 0);
            },
            _ => {},
        }
    }
    assert_eq!(depth, 0);
}

#[test]
fn unknown_opcode_is_skipped_with_diagnostic() {
    let mut odd = move_steps(1.0, None, 0);
    odd.opcode = String::from("looks_sayforsecs");
    let blocks = vec![hat(Some(1)), odd];
    let (scripts, diagnostics) = compile_blocks(&blocks);
    assert_eq!(scripts.len(), 1);
    assert_eq!(scripts[0].instructions.len(), 0);
    assert_eq!(diagnostics.len(), 1);
    assert!(matches!(&diagnostics[0], CompileDiagnostic::UnknownOpcode(op) if op == "looks_sayforsecs"));
}

#[test]
fn unknown_hat_is_fatal_for_its_script_only() {
    let mut odd_hat = hat(Some(2));
    odd_hat.opcode = String::from("event_whenkeypressed");
    let blocks = vec![odd_hat, hat(Some(2)), move_steps(1.0, None, 1)];
    let (scripts, diagnostics) = compile_blocks(&blocks);
    // The second hat still compiles.
    assert_eq!(scripts.len(), 1);
    assert_eq!(scripts[0].instructions.len(), 2);
    assert_eq!(diagnostics.len(), 1);
    assert!(matches!(&diagnostics[0], CompileDiagnostic::UnknownHat(op) if op == "event_whenkeypressed"));
}

#[test]
fn cyclic_chain_is_reported() {
    // The single command's next link points back at itself.
    let blocks = vec![hat(Some(1)), move_steps(1.0, Some(1), 0)];
    let (scripts, diagnostics) = compile_blocks(&blocks);
    assert_eq!(scripts.len(), 0);
    assert_eq!(diagnostics.len(), 1);
    assert!(matches!(&diagnostics[0], CompileDiagnostic::NestingTooDeep));
}

#[test]
fn out_of_table_reference_is_reported() {
    let blocks = vec![hat(Some(7))];
    let (scripts, diagnostics) = compile_blocks(&blocks);
    assert_eq!(scripts.len(), 0);
    assert!(matches!(&diagnostics[0], CompileDiagnostic::InvalidIndex(7)));
}

#[test]
fn hat_without_next_compiles_to_empty_script() {
    let blocks = vec![hat(None)];
    let (scripts, diagnostics) = compile_blocks(&blocks);
    assert_eq!(diagnostics.len(), 0);
    assert_eq!(scripts.len(), 1);
    assert_eq!(scripts[0].instructions.len(), 0);
}
