use shah_visual::schema::{Schema, SchemaModel};
use shah_visual::show_schema::{show_schema_value, string_schema_value, Draw, Leaf};

fn label(s: &str) -> Draw {
    Draw::Label(s.to_string())
}

fn open(title: &str, idx: u64, depth: usize) -> Draw {
    Draw::Open { title: title.to_string(), idx, depth, open: depth == 0 }
}

fn model(name: &str, fields: Vec<(&str, Schema)>) -> Schema {
    Schema::Model(SchemaModel {
        name: name.to_string(),
        size: 0,
        fields: fields.into_iter().map(|(n, s)| (n.to_string(), s)).collect(),
    })
}

fn array(length: u64, kind: Schema) -> Schema {
    Schema::Array { is_str: false, length, kind: Box::new(kind) }
}

fn string(length: u64) -> Schema {
    Schema::Array { is_str: true, length, kind: Box::new(Schema::U8) }
}

#[test]
fn leaves_are_written_as_text() {
    let text = |s: &str| Leaf::Text(s.to_string());
    assert_eq!(string_schema_value(&Schema::U8, &[200]), text("200"));
    assert_eq!(string_schema_value(&Schema::I8, &[200]), text("-56"));
    assert_eq!(string_schema_value(&Schema::U16, &[0, 1]), text("256"));
    assert_eq!(string_schema_value(&Schema::I16, &[0xff, 0xff]), text("-1"));
    assert_eq!(string_schema_value(&Schema::U32, &70000u32.to_le_bytes()), text("70000"));
    assert_eq!(string_schema_value(&Schema::I32, &(-70000i32).to_le_bytes()), text("-70000"));
    assert_eq!(string_schema_value(&Schema::U64, &u64::MAX.to_le_bytes()), text("18446744073709551615"));
    assert_eq!(string_schema_value(&Schema::I64, &i64::MIN.to_le_bytes()), text("-9223372036854775808"));
    assert_eq!(string_schema_value(&Schema::Bool, &[0]), text("false"));
    assert_eq!(string_schema_value(&Schema::Bool, &[3]), text("true"));
    assert_eq!(string_schema_value(&Schema::Gene, &[0u8; 16]), text("Gene(---)"));
    let mut gene = [0u8; 16];
    gene[0] = 9;
    gene[8] = 1;
    gene[9] = 2;
    gene[12] = 7;
    assert_eq!(string_schema_value(&Schema::Gene, &gene), text("Gene(9, 1, [2, 0, 0], 7)"));
    assert_eq!(string_schema_value(&Schema::F32, &1.5f32.to_le_bytes()), Leaf::Float32(1.5f32.to_bits()));
    assert_eq!(string_schema_value(&Schema::F64, &(-1.5f64).to_le_bytes()), Leaf::Float64((-1.5f64).to_bits()));
}

#[test]
fn a_model_is_a_section_with_its_fields() {
    let user = model("User", vec![("id", Schema::U64), ("name", string(4)), ("active", Schema::Bool)]);
    let mut bytes = 1u64.to_le_bytes().to_vec();
    bytes.extend_from_slice(b"ab\0\0");
    bytes.push(1);
    let drawn = show_schema_value(&user, &bytes, None, 0, 0);
    assert_eq!(
        drawn,
        vec![
            open("<User />", 0, 0),
            label("id: 1"),
            Draw::Str { label: Some("name".to_string()), text: "ab".to_string() },
            label("active: true"),
            Draw::Close,
        ]
    );
}

#[test]
fn nested_models_are_folded_below_the_top() {
    let point = || model("Point", vec![("x", Schema::I16), ("y", Schema::I16)]);
    let line = model("Line", vec![("from", point()), ("to", point()), ("w", Schema::U8)]);
    let bytes: Vec<u8> = [1i16, -1, 2, -2].iter().flat_map(|v| v.to_le_bytes()).chain([9u8]).collect();
    let drawn = show_schema_value(&line, &bytes, Some("line"), 3, 0);
    assert_eq!(
        drawn,
        vec![
            label("line"),
            open("<Line />", 3, 0),
            label("from"),
            open("<Point />", 0, 1),
            label("x: 1"),
            label("y: -1"),
            Draw::Close,
            label("to"),
            open("<Point />", 0, 1),
            label("x: 2"),
            label("y: -2"),
            Draw::Close,
            label("w: 9"),
            Draw::Close,
        ]
    );
    assert!(matches!(drawn[1], Draw::Open { open: true, .. }));
    assert!(matches!(drawn[3], Draw::Open { open: false, .. }));
}

#[test]
fn strings_are_text_or_empty() {
    let drawn = show_schema_value(&string(6), b"hello\0", Some("s"), 0, 1);
    assert_eq!(drawn, vec![Draw::Str { label: Some("s".to_string()), text: "hello".to_string() }]);
    let drawn = show_schema_value(&string(3), &[0, 0, 0], None, 0, 1);
    assert_eq!(drawn, vec![Draw::Str { label: None, text: String::new() }]);
    let drawn = show_schema_value(&string(3), b"abc", None, 0, 1);
    assert_eq!(drawn, vec![Draw::Str { label: None, text: "abc".to_string() }]);
}

#[test]
fn arrays_of_numbers_are_one_label() {
    let bytes: Vec<u8> = [1u16, 2, 300].iter().flat_map(|v| v.to_le_bytes()).collect();
    let drawn = show_schema_value(&array(3, Schema::U16), &bytes, Some("v"), 0, 2);
    assert_eq!(drawn, vec![label("v: [u16; 3]: [1, 2, 300]")]);
    let drawn = show_schema_value(&array(3, Schema::U16), &bytes, None, 0, 2);
    assert_eq!(drawn, vec![label(": [u16; 3]: [1, 2, 300]")]);
    let drawn = show_schema_value(&array(0, Schema::I64), &[], Some("none"), 0, 2);
    assert_eq!(drawn, vec![label("none: [i64; 0]: []")]);
    let bytes: Vec<u8> = [0.5f32, -2.0].iter().flat_map(|v| v.to_le_bytes()).collect();
    let drawn = show_schema_value(&array(2, Schema::F32), &bytes, Some("f"), 0, 2);
    assert_eq!(
        drawn,
        vec![Draw::Float32s {
            prefix: "f: [f32; 2]: ".to_string(),
            bits: vec![0.5f32.to_bits(), (-2.0f32).to_bits()],
        }]
    );
    let bytes: Vec<u8> = [0.5f64].iter().flat_map(|v| v.to_le_bytes()).collect();
    let drawn = show_schema_value(&array(1, Schema::F64), &bytes, None, 0, 2);
    assert_eq!(
        drawn,
        vec![Draw::Float64s { prefix: ": [f64; 1]: ".to_string(), bits: vec![0.5f64.to_bits()] }]
    );
    // bytes that are not marked as text are numbers
    let drawn = show_schema_value(&array(2, Schema::U8), b"ab", Some("raw"), 0, 0);
    assert_eq!(drawn, vec![label("raw: [u8; 2]: [97, 98]")]);
}

#[test]
fn other_arrays_stand_between_brackets() {
    let pair = || model("P", vec![("a", Schema::U8)]);
    let drawn = show_schema_value(&array(2, pair()), &[7, 8], Some("ps"), 0, 0);
    assert_eq!(
        drawn,
        vec![
            label("ps: ["),
            open("<P />", 0, 1),
            label("a: 7"),
            Draw::Close,
            open("<P />", 1, 1),
            label("a: 8"),
            Draw::Close,
            label("]"),
        ]
    );
    let drawn = show_schema_value(&array(2, Schema::Bool), &[0, 1], None, 0, 0);
    assert_eq!(drawn, vec![label("["), label("false"), label("true"), label("]")]);
    let drawn = show_schema_value(&array(1, Schema::Gene), &[0u8; 16], Some("g"), 0, 0);
    assert_eq!(drawn, vec![label("g: ["), label("Gene(---)"), label("]")]);
    let drawn = show_schema_value(&array(0, Schema::Gene), &[], Some("g"), 0, 0);
    assert_eq!(drawn, vec![label("g: ["), label("]")]);
}

#[test]
fn tuples_draw_each_item_in_its_place() {
    let tuple = Schema::Tuple(vec![Schema::U8, string(2), model("M", vec![("x", Schema::U8)])]);
    let drawn = show_schema_value(&tuple, &[5, b'o', b'k', 6], Some("t"), 0, 0);
    assert_eq!(
        drawn,
        vec![
            label("t: ("),
            label("5"),
            Draw::Str { label: None, text: "ok".to_string() },
            open("<M />", 2, 1),
            label("x: 6"),
            Draw::Close,
            label(")"),
        ]
    );
    let drawn = show_schema_value(&Schema::Tuple(vec![]), &[], None, 0, 0);
    assert_eq!(drawn, vec![label("("), label(")")]);
}

#[test]
fn a_leaf_on_its_own_is_one_label() {
    assert_eq!(show_schema_value(&Schema::U16, &[1, 1], Some("n"), 0, 0), vec![label("n: 257")]);
    assert_eq!(show_schema_value(&Schema::U16, &[1, 1], None, 0, 0), vec![label("257")]);
    assert_eq!(
        show_schema_value(&Schema::F64, &2.0f64.to_le_bytes(), Some("x"), 0, 0),
        vec![Draw::Float64 { prefix: "x: ".to_string(), bits: 2.0f64.to_bits() }]
    );
    assert_eq!(
        show_schema_value(&Schema::F32, &2.0f32.to_le_bytes(), None, 0, 0),
        vec![Draw::Float32 { prefix: String::new(), bits: 2.0f32.to_bits() }]
    );
}

#[test]
fn depth_stops_at_the_largest() {
    let inner = model("In", vec![]);
    let outer = model("Out", vec![("in", inner)]);
    let drawn = show_schema_value(&outer, &[], None, 0, usize::MAX);
    assert_eq!(
        drawn,
        vec![
            open("<Out />", 0, usize::MAX),
            label("in"),
            open("<In />", 0, usize::MAX),
            Draw::Close,
            Draw::Close,
        ]
    );
}
