//! The verified loader path: JSON model to block tables, scripts, costume
//! plans and assets.

use tabi::asset::{make_asset, AssetError, AssetType};
use tabi::deserialize::{
    deserialize_blocks, deserialize_project, deserialize_target, DeserializeError,
};
use tabi::engine_data::EngineData;
use tabi::execute::execute;
use tabi::json::JsonValue;
use tabi::sprite::Sprite;
use tabi::thread::Thread;
use tabi::trigger::Trigger;
use tabi::DrawableID;

fn s(v: &str) -> JsonValue {
    JsonValue::Str(String::from(v))
}

fn n(x: f64) -> JsonValue {
    JsonValue::Num(x.to_bits())
}

fn obj(entries: Vec<(&str, JsonValue)>) -> JsonValue {
    JsonValue::Obj(entries.into_iter().map(|(k, v)| (String::from(k), v)).collect())
}

/// A number-primitive input descriptor `[shadow, [4, value]]`.
fn num_input(x: f64) -> JsonValue {
    JsonValue::Arr(vec![n(1.0), JsonValue::Arr(vec![n(4.0), n(x)])])
}

/// A substack input descriptor `[shadow, "block id"]`.
fn substack_input(id: &str) -> JsonValue {
    JsonValue::Arr(vec![n(2.0), s(id)])
}

fn block(opcode: &str, inputs: Vec<(&str, JsonValue)>, next: JsonValue, parent: JsonValue)
    -> JsonValue {
    obj(vec![
        ("opcode", s(opcode)),
        ("inputs", obj(inputs)),
        ("fields", obj(vec![])),
        ("next", next),
        ("parent", parent),
    ])
}

fn repeat_blocks() -> JsonValue {
    JsonValue::Obj(vec![
        (
            String::from("a"),
            block("event_whenflagclicked", vec![], s("b"), JsonValue::Null),
        ),
        (
            String::from("b"),
            block(
                "control_repeat",
                vec![("TIMES", num_input(3.0)), ("SUBSTACK", substack_input("c"))],
                JsonValue::Null,
                s("a"),
            ),
        ),
        (
            String::from("c"),
            block("motion_movesteps", vec![("STEPS", num_input(1.0))], JsonValue::Null, s("b")),
        ),
    ])
}

fn repeat_target() -> JsonValue {
    let blocks = repeat_blocks();
    obj(vec![
        ("isStage", JsonValue::Bool(false)),
        ("name", s("Scratchy")),
        ("blocks", blocks),
        ("layerOrder", n(2.0)),
        ("costumes", JsonValue::Arr(vec![obj(vec![
            ("md5ext", s("cd21514d0531fdffb22204e0ec5ed84a.svg")),
            ("assetId", s("cd21514d0531fdffb22204e0ec5ed84a")),
            ("dataFormat", s("svg")),
            ("rotationCenterX", n(240.0)),
            ("rotationCenterY", n(180.0)),
            ("name", s("backdrop1")),
        ])])),
    ])
}

#[test]
fn target_deserializes_and_its_script_runs() {
    let eng = EngineData::new();
    let plan = deserialize_target(&repeat_target(), &eng).unwrap();
    assert_eq!(plan.is_stage, false);
    assert_eq!(plan.name, "Scratchy");
    assert_eq!(plan.layer_order, 2);
    assert_eq!(plan.diagnostics.len(), 0);
    assert_eq!(plan.scripts.len(), 1);
    assert!(matches!(&plan.scripts[0].trigger, Trigger::WhenFlagClicked));
    assert_eq!(plan.scripts[0].instructions.len(), 15);

    // The loaded script behaves like the hand-built one: three steps right.
    let mut sprite = Sprite::new(0, 0, DrawableID(0));
    sprite.direction = 90.0f64.to_bits();
    let mut thread = Thread::new(&plan.scripts[0]);
    thread.start();
    let mut guard = 0;
    while thread.instruction_pointer < thread.code.instructions.len() {
        execute(&mut sprite, &mut thread);
        guard += 1;
        assert!(guard < 1000);
    }
    assert!((f64::from_bits(sprite.x) - 3.0).abs() < 1e-9);
}

#[test]
fn every_deserialized_block_fills_its_spec() {
    let eng = EngineData::new();
    let blocks_obj = repeat_blocks();
    let table = deserialize_blocks(&blocks_obj, &eng).unwrap();
    assert_eq!(table.len(), 3);
    for b in &table {
        let sp = eng.block_specs.get(b.opcode.as_str()).unwrap();
        assert_eq!(b.field_values.len(), sp.field_names.len());
    }
}

#[test]
fn costume_plan_carries_the_asset_description() {
    let eng = EngineData::new();
    let plan = deserialize_target(&repeat_target(), &eng).unwrap();
    assert_eq!(plan.costumes.len(), 1);
    let c = &plan.costumes[0];
    assert_eq!(c.md5ext, "cd21514d0531fdffb22204e0ec5ed84a.svg");
    assert_eq!(c.data_format, "svg");
    assert_eq!(f64::from_bits(c.rotation_center_x), 240.0);
    assert_eq!(f64::from_bits(c.rotation_center_y), 180.0);
    assert_eq!(c.name, "backdrop1");
}

#[test]
fn project_deserializes_target_list() {
    let eng = EngineData::new();
    let project = obj(vec![("targets", JsonValue::Arr(vec![repeat_target()]))]);
    let plans = deserialize_project(&project, &eng).unwrap();
    assert_eq!(plans.len(), 1);
    assert_eq!(plans[0].name, "Scratchy");
}

#[test]
fn project_without_targets_is_rejected() {
    let eng = EngineData::new();
    let bad = obj(vec![("meta", s("none"))]);
    assert!(matches!(deserialize_project(&bad, &eng), Err(DeserializeError::MalformedProject)));
}

#[test]
fn target_with_dangling_next_is_rejected() {
    let eng = EngineData::new();
    let blocks = JsonValue::Obj(vec![(
        String::from("a"),
        block("event_whenflagclicked", vec![], s("missing"), JsonValue::Null),
    )]);
    let bad = obj(vec![
        ("isStage", JsonValue::Bool(true)),
        ("name", s("Stage")),
        ("blocks", blocks),
        ("layerOrder", n(0.0)),
        ("costumes", JsonValue::Arr(vec![])),
    ]);
    assert!(matches!(deserialize_target(&bad, &eng), Err(DeserializeError::InvalidBlockReference)));
}

#[test]
fn unknown_block_opcode_is_a_schema_error() {
    let eng = EngineData::new();
    let blocks = JsonValue::Obj(vec![(
        String::from("a"),
        block("sound_play", vec![], JsonValue::Null, JsonValue::Null),
    )]);
    let bad = obj(vec![
        ("isStage", JsonValue::Bool(true)),
        ("name", s("Stage")),
        ("blocks", blocks),
        ("layerOrder", n(0.0)),
        ("costumes", JsonValue::Arr(vec![])),
    ]);
    assert!(matches!(deserialize_target(&bad, &eng), Err(DeserializeError::UnknownOpcode)));
}

#[test]
fn fractional_layer_order_is_rejected() {
    let eng = EngineData::new();
    let bad = obj(vec![
        ("isStage", JsonValue::Bool(true)),
        ("name", s("Stage")),
        ("blocks", JsonValue::Obj(vec![])),
        ("layerOrder", n(1.5)),
        ("costumes", JsonValue::Arr(vec![])),
    ]);
    assert!(matches!(deserialize_target(&bad, &eng), Err(DeserializeError::MalformedTarget)));
}

#[test]
fn assets_build_from_hex_ids() {
    let a = make_asset(
        vec![1, 2, 3],
        "0123456789abcdef0123456789ABCDEF",
        "svg",
    )
    .unwrap();
    assert_eq!(a.asset_type, AssetType::SVG);
    assert_eq!(a.data, vec![1, 2, 3]);
    assert_eq!(
        a.md5_digest,
        vec![0x01, 0x23, 0x45, 0x67, 0x89, 0xab, 0xcd, 0xef, 0x01, 0x23, 0x45, 0x67, 0x89, 0xab,
            0xcd, 0xef]
    );
}

#[test]
fn asset_with_unknown_format_is_rejected() {
    assert!(matches!(
        make_asset(vec![], "0123456789abcdef0123456789abcdef", "bmp"),
        Err(AssetError::UnknownAssetType)
    ));
}

#[test]
fn asset_with_bad_id_is_rejected() {
    // Not hex at all.
    assert!(matches!(make_asset(vec![], "zz", "svg"), Err(AssetError::BadAssetId)));
    // Valid hex, wrong digest length.
    assert!(matches!(make_asset(vec![], "abcd", "svg"), Err(AssetError::BadAssetId)));
}
