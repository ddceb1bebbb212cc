//! The interpreter driven instruction by instruction, over whole compiled
//! scripts and hand-written snippets.

use tabi::block::{Block, BlockInput, BlockShape};
use tabi::compile::compile_blocks;
use tabi::execute::execute;
use tabi::instruction::{Instruction, Script};
use tabi::scalar_value::ScalarValue;
use tabi::sprite::Sprite;
use tabi::thread::Thread;
use tabi::trigger::Trigger;
use tabi::DrawableID;

fn hat(next: Option<usize>) -> Block {
    Block {
        opcode: String::from("event_whenflagclicked"),
        shape: BlockShape::Hat,
        field_values: Vec::new(),
        next,
        parent: None,
    }
}

fn move_steps(steps: f64, next: Option<usize>, parent: usize) -> Block {
    Block {
        opcode: String::from("motion_movesteps"),
        shape: BlockShape::Command,
        field_values: vec![BlockInput::Literal(ScalarValue::Num(steps.to_bits()))],
        next,
        parent: Some(parent),
    }
}

fn repeat(times: f64, substack: usize, next: Option<usize>, parent: usize) -> Block {
    Block {
        opcode: String::from("control_repeat"),
        shape: BlockShape::Command,
        field_values: vec![
            BlockInput::Literal(ScalarValue::Num(times.to_bits())),
            BlockInput::Substack(substack),
        ],
        next,
        parent: Some(parent),
    }
}

/// Run the script to its end, counting instructions and how often the
/// frame cleanup ran; the sprite starts at the origin facing right.
fn run_script(script: &Script) -> (Sprite, usize, usize) {
    let mut sprite = Sprite::new(0, 0, DrawableID(0));
    sprite.direction = 90.0f64.to_bits();
    let mut thread = Thread::new(script);
    thread.start();
    let mut steps = 0usize;
    let mut restores = 0usize;
    while thread.instruction_pointer < thread.code.instructions.len() {
        if matches!(
            &thread.code.instructions[thread.instruction_pointer],
            Instruction::RestoreStackFrame
        ) {
            restores += 1;
        }
        execute(&mut sprite, &mut thread);
        steps += 1;
        assert!(steps < 100000, "script did not terminate");
    }
    (sprite, steps, restores)
}

fn x_of(sprite: &Sprite) -> f64 {
    f64::from_bits(sprite.x)
}

fn y_of(sprite: &Sprite) -> f64 {
    f64::from_bits(sprite.y)
}

#[test]
fn move_ten_steps_goes_right() {
    let blocks = vec![hat(Some(1)), move_steps(10.0, None, 0)];
    let (scripts, _) = compile_blocks(&blocks);
    let (sprite, steps, _) = run_script(&scripts[0]);
    assert!((x_of(&sprite) - 10.0).abs() < 1e-9);
    assert!(y_of(&sprite).abs() < 1e-9);
    assert_eq!(steps, 2);
}

#[test]
fn repeat_three_accumulates_three_steps() {
    let blocks = vec![hat(Some(1)), repeat(3.0, 2, None, 1), move_steps(1.0, None, 1)];
    let (scripts, _) = compile_blocks(&blocks);
    let (sprite, steps, restores) = run_script(&scripts[0]);
    assert!((x_of(&sprite) - 3.0).abs() < 1e-9);
    // Deterministic count: 3 to set up, 11 per iteration over 3
    // iterations, 4 for the final counter test, 1 to clean up.
    assert_eq!(steps, 3 + 3 * 11 + 4 + 1);
    assert_eq!(restores, 1);
}

#[test]
fn repeat_zero_runs_body_never() {
    let blocks = vec![hat(Some(1)), repeat(0.0, 2, None, 1), move_steps(100.0, None, 1)];
    let (scripts, _) = compile_blocks(&blocks);
    let (sprite, steps, restores) = run_script(&scripts[0]);
    assert!(x_of(&sprite).abs() < 1e-9);
    assert!(y_of(&sprite).abs() < 1e-9);
    assert_eq!(restores, 1);
    assert_eq!(steps, 3 + 4 + 1);
}

#[test]
fn repeat_fractional_counter_rounds_up_from_half() {
    let blocks = vec![hat(Some(1)), repeat(2.7, 2, None, 1), move_steps(1.0, None, 1)];
    let (scripts, _) = compile_blocks(&blocks);
    let (sprite, _, restores) = run_script(&scripts[0]);
    // 2.7, 1.7 and 0.7 all clear the one-half threshold: three runs.
    assert!((x_of(&sprite) - 3.0).abs() < 1e-9);
    assert_eq!(restores, 1);
}

#[test]
fn nested_repeat_multiplies_iterations() {
    let blocks = vec![
        hat(Some(1)),
        repeat(3.0, 2, None, 1),
        repeat(2.0, 3, None, 1),
        move_steps(1.0, None, 2),
    ];
    let (scripts, _) = compile_blocks(&blocks);
    let (sprite, _, restores) = run_script(&scripts[0]);
    assert!((x_of(&sprite) - 6.0).abs() < 1e-9);
    // One cleanup for the outer loop, one per outer iteration for the inner.
    assert_eq!(restores, 4);
}

fn run_plain(instructions: Vec<Instruction>) -> Thread {
    let script = Script { trigger: Trigger::WhenFlagClicked, instructions };
    let mut sprite = Sprite::new(0, 0, DrawableID(0));
    let mut thread = Thread::new(&script);
    thread.start();
    while thread.instruction_pointer < thread.code.instructions.len() {
        execute(&mut sprite, &mut thread);
    }
    thread
}

#[test]
fn coerced_addition_of_text_and_number() {
    let mut thread = run_plain(vec![
        Instruction::Push(ScalarValue::Text(String::from("2"))),
        Instruction::Push(ScalarValue::Num(3.0f64.to_bits())),
        Instruction::Add,
    ]);
    let top = thread.pop_stack();
    assert!(matches!(&top, ScalarValue::Num(b) if *b == 5.0f64.to_bits()));
}

#[test]
fn less_than_on_empty_and_zero_text() {
    // "" coerces to 0 but is whitespace-only, so the comparison goes
    // textual: "" < "0" holds.
    let mut thread = run_plain(vec![
        Instruction::Push(ScalarValue::Text(String::from(""))),
        Instruction::Push(ScalarValue::Text(String::from("0"))),
        Instruction::LessThan,
    ]);
    let top = thread.pop_stack();
    assert!(matches!(&top, ScalarValue::Bool(true)));
}

#[test]
fn equals_and_greater_on_numbers() {
    let mut thread = run_plain(vec![
        Instruction::Push(ScalarValue::Num(2.0f64.to_bits())),
        Instruction::Push(ScalarValue::Num(2.0f64.to_bits())),
        Instruction::Equals,
    ]);
    assert!(matches!(&thread.pop_stack(), ScalarValue::Bool(true)));

    let mut thread = run_plain(vec![
        Instruction::Push(ScalarValue::Num(3.0f64.to_bits())),
        Instruction::Push(ScalarValue::Num(2.0f64.to_bits())),
        Instruction::GreaterThan,
    ]);
    assert!(matches!(&thread.pop_stack(), ScalarValue::Bool(true)));
}

#[test]
fn goto_xy_pops_y_then_x() {
    let script = Script {
        trigger: Trigger::WhenFlagClicked,
        instructions: vec![
            Instruction::Push(ScalarValue::Num(7.0f64.to_bits())),
            Instruction::Push(ScalarValue::Num(9.0f64.to_bits())),
            Instruction::GotoXY,
        ],
    };
    let mut sprite = Sprite::new(0, 0, DrawableID(0));
    let mut thread = Thread::new(&script);
    thread.start();
    while thread.instruction_pointer < thread.code.instructions.len() {
        execute(&mut sprite, &mut thread);
    }
    // The top of the stack is y, beneath it x.
    assert_eq!(f64::from_bits(sprite.x), 7.0);
    assert_eq!(f64::from_bits(sprite.y), 9.0);
}

#[test]
fn subtract_is_reverse_ordered() {
    let mut thread = run_plain(vec![
        Instruction::Push(ScalarValue::Num(10.0f64.to_bits())),
        Instruction::Push(ScalarValue::Num(4.0f64.to_bits())),
        Instruction::Subtract,
    ]);
    assert!(matches!(&thread.pop_stack(), ScalarValue::Num(b) if *b == 6.0f64.to_bits()));
}

#[test]
fn write_frame_value_keeps_stack_top() {
    let mut thread = run_plain(vec![
        Instruction::SaveStackFrame,
        Instruction::Push(ScalarValue::Num(8.0f64.to_bits())),
        Instruction::WriteFrameValue,
        Instruction::ReadFrameValue,
        Instruction::Equals,
        Instruction::RestoreStackFrame,
    ]);
    // The stack held [8, 8] before Equals; the frame copy equals the top.
    assert!(matches!(&thread.pop_stack(), ScalarValue::Bool(true)));
}
