//! The cooperative scheduler: construction order, trigger dispatch, and
//! whole ticks over several sprites.

use tabi::instruction::{Instruction, Script};
use tabi::project::Project;
use tabi::runtime::Runtime;
use tabi::target::Target;
use tabi::thread::ThreadStatus;
use tabi::trigger::Trigger;
use tabi::DrawableID;

fn flag_script(instructions: Vec<Instruction>) -> Script {
    Script { trigger: Trigger::WhenFlagClicked, instructions }
}

fn target(name: &str, layer_order: u32, scripts: Vec<Script>) -> Target {
    Target {
        scripts,
        is_stage: false,
        name: String::from(name),
        layer_order,
        costumes: Vec::new(),
    }
}

fn drawables(n: usize) -> Vec<DrawableID> {
    (0..n).map(DrawableID).collect()
}

#[test]
fn contexts_sort_by_layer_and_keep_input_order() {
    let project = Project {
        targets: vec![
            target("a", 1, vec![]),
            target("b", 0, vec![]),
            target("c", 1, vec![]),
        ],
    };
    let rt = Runtime::new(&project, &drawables(3));
    let order: Vec<usize> = rt.exec_contexts.iter().map(|c| c.sprite.target_index).collect();
    assert_eq!(order, vec![1, 0, 2]);
    assert_eq!(rt.exec_contexts[0].sprite.layer_order, 0);
    assert_eq!(rt.exec_contexts[1].sprite.layer_order, 1);
    assert_eq!(rt.exec_contexts[2].sprite.layer_order, 1);
}

#[test]
fn fresh_threads_are_done_until_started() {
    let project = Project {
        targets: vec![target("a", 0, vec![flag_script(vec![Instruction::Yield])])],
    };
    let mut rt = Runtime::new(&project, &drawables(1));
    assert_eq!(rt.exec_contexts[0].threads[0].status, ThreadStatus::Done);
    rt.start_hats(&Trigger::WhenFlagClicked);
    assert_eq!(rt.exec_contexts[0].threads[0].status, ThreadStatus::Running);
    assert_eq!(rt.exec_contexts[0].threads[0].instruction_pointer, 0);
}

#[test]
fn start_hats_leaves_other_triggers_alone() {
    let project = Project {
        targets: vec![target(
            "a",
            0,
            vec![
                flag_script(vec![Instruction::Yield]),
                Script {
                    trigger: Trigger::WhenKeyPressed('x'),
                    instructions: vec![Instruction::Yield],
                },
            ],
        )],
    };
    let mut rt = Runtime::new(&project, &drawables(1));
    rt.start_hats(&Trigger::WhenFlagClicked);
    assert_eq!(rt.exec_contexts[0].threads[0].status, ThreadStatus::Running);
    assert_eq!(rt.exec_contexts[0].threads[1].status, ThreadStatus::Done);
    rt.start_hats(&Trigger::WhenKeyPressed('x'));
    assert_eq!(rt.exec_contexts[0].threads[1].status, ThreadStatus::Running);
    rt.start_hats(&Trigger::WhenKeyPressed('y'));
    assert_eq!(rt.exec_contexts[0].threads[1].status, ThreadStatus::Running);
}

#[test]
fn one_tick_runs_a_short_script_to_done() {
    let project = Project {
        targets: vec![target(
            "a",
            0,
            vec![flag_script(vec![
                Instruction::Push(tabi::scalar_value::ScalarValue::Num(5.0f64.to_bits())),
                Instruction::Push(tabi::scalar_value::ScalarValue::Num(6.0f64.to_bits())),
                Instruction::GotoXY,
            ])],
        )],
    };
    let mut rt = Runtime::new(&project, &drawables(1));
    rt.start_hats(&Trigger::WhenFlagClicked);
    rt.step_threads();
    assert_eq!(rt.exec_contexts[0].threads[0].status, ThreadStatus::Done);
    assert_eq!(f64::from_bits(rt.exec_contexts[0].sprite.x), 5.0);
    assert_eq!(f64::from_bits(rt.exec_contexts[0].sprite.y), 6.0);
    assert!(!rt.fault);
}

#[test]
fn two_sprites_of_many_yields_share_one_tick() {
    let mut yields = Vec::new();
    for _ in 0..1000 {
        yields.push(Instruction::Yield);
    }
    let mut yields2 = Vec::new();
    for _ in 0..1000 {
        yields2.push(Instruction::Yield);
    }
    let project = Project {
        targets: vec![
            target("a", 0, vec![flag_script(yields)]),
            target("b", 1, vec![flag_script(yields2)]),
        ],
    };
    let mut rt = Runtime::new(&project, &drawables(2));
    rt.start_hats(&Trigger::WhenFlagClicked);
    // One tick either drains both scripts or stops on the step-time
    // budget; it must return either way, with no fault and no redraw.
    rt.step_threads();
    assert!(!rt.redraw_requested);
    assert!(!rt.fault);
    for ctx in &rt.exec_contexts {
        assert!(ctx.threads[0].instruction_pointer <= 1000);
    }
}

#[test]
fn redraw_request_ends_the_tick() {
    let project = Project {
        targets: vec![target(
            "a",
            0,
            vec![flag_script(vec![
                Instruction::RequestRedraw,
                Instruction::Yield,
                Instruction::Yield,
            ])],
        )],
    };
    let mut rt = Runtime::new(&project, &drawables(1));
    rt.start_hats(&Trigger::WhenFlagClicked);
    rt.step_threads();
    assert!(rt.redraw_requested);
    // The redraw gate ended the tick after the first round: the thread
    // stands right after its redraw request, its two Yields unrun.
    assert_eq!(rt.exec_contexts[0].threads[0].instruction_pointer, 1);
}

#[test]
fn ill_formed_bytecode_retires_the_thread() {
    // A jump beyond the script is an invariant violation: the thread is
    // retired and the fault recorded.
    let project = Project {
        targets: vec![target("a", 0, vec![flag_script(vec![Instruction::Jump(99)])])],
    };
    let mut rt = Runtime::new(&project, &drawables(1));
    rt.start_hats(&Trigger::WhenFlagClicked);
    rt.step_threads();
    assert!(rt.fault);
    assert_eq!(rt.exec_contexts[0].threads[0].status, ThreadStatus::Done);
}

#[test]
fn yield_tick_parks_until_next_tick() {
    let project = Project {
        targets: vec![target("a", 0, vec![flag_script(vec![Instruction::Yield])])],
    };
    let mut rt = Runtime::new(&project, &drawables(1));
    rt.start_hats(&Trigger::WhenFlagClicked);
    rt.exec_contexts[0].threads[0].status = ThreadStatus::YieldTick;
    rt.step_threads();
    // The first round of the new tick resumed it; its one instruction
    // parked it again for the round, which was the tick's last.
    assert_eq!(rt.exec_contexts[0].threads[0].status, ThreadStatus::Yield);
    assert_eq!(rt.exec_contexts[0].threads[0].instruction_pointer, 1);
    rt.step_threads();
    // The next tick finds it past its last instruction: the script is over.
    assert_eq!(rt.exec_contexts[0].threads[0].status, ThreadStatus::Done);
}
