use libconfig_ser::ser;
use libconfig_ser::to_string;
use libconfig_ser::value::Value;

fn format(v: Value) -> String {
    to_string(&v).unwrap()
}

fn text(s: &str) -> Value {
    Value::Str(s.to_string())
}

fn record(name: &str, fields: Vec<(&str, Value)>) -> Value {
    Value::Struct {
        name: name.to_string(),
        fields: fields.into_iter().map(|(k, v)| (k.to_string(), v)).collect(),
    }
}

#[test]
fn sequences_separate_elements_with_commas() {
    assert_eq!(format(Value::Sequence(Vec::new())), "[]");
    assert_eq!(format(Value::Sequence(vec![Value::U32(1)])), "[1]");
    assert_eq!(format(Value::Sequence(vec![Value::U32(1), text("a"), Value::Bool(false)])), "[1,\"a\",false]");
    assert_eq!(format(Value::Tuple(vec![Value::I64(1), Value::U64(2)])), "[1L,2UL]");
}

#[test]
fn nested_sequences_keep_their_brackets() {
    let inner_a = Value::Sequence(vec![Value::U32(1), Value::U32(2)]);
    let inner_b = Value::Sequence(vec![Value::U32(3)]);
    assert_eq!(format(Value::Sequence(vec![inner_a, inner_b])), "[[1,2],[3]]");
    assert_eq!(
        format(Value::Sequence(vec![Value::Sequence(Vec::new()), Value::Sequence(Vec::new())])),
        "[[],[]]"
    );
}

#[test]
fn a_real_that_ends_like_an_opening_bracket_hides_the_next_comma() {
    let odd = Value::Sequence(vec![Value::Real("[".to_string()), Value::U32(1)]);
    assert_eq!(format(odd), "[[1]");
    let empty = Value::Sequence(vec![Value::Real(String::new()), Value::U32(1)]);
    assert_eq!(format(empty), "[1]");
}

#[test]
fn map_entries_are_key_assign_value() {
    assert_eq!(format(Value::Mapping(Vec::new())), ";");
    assert_eq!(format(Value::Mapping(vec![(text("k"), Value::U32(1))])), "\"k\" = 1;");
    assert_eq!(
        format(Value::Mapping(vec![(text("a"), Value::U32(1)), (text("b"), Value::Bool(true))])),
        "\"a\" = 1,\"b\" = true;"
    );
}

#[test]
fn a_map_as_the_value_of_a_field() {
    let doc = record("Doc", vec![("m", Value::Mapping(vec![(Value::U32(1), Value::U32(2))]))]);
    assert_eq!(format(doc), "m = 1 = 2;;");
}

#[test]
fn outermost_struct_has_one_line_for_each_field() {
    let doc = record(
        "Doc",
        vec![("a", Value::I64(-3)), ("b", text("x")), ("c", Value::Absent), ("d", Value::Bytes(vec![1, 2]))],
    );
    assert_eq!(format(doc), "a = -3L;\nb = \"x\";\nc = null;\nd = [1,2];");
}

#[test]
fn outermost_struct_of_two_is_its_fields_as_documents() {
    let x = || Value::Sequence(vec![Value::U32(1), text("s")]);
    let y = || Value::NewtypeVariant { variant: "V".to_string(), value: Box::new(Value::U8(9)) };
    let doc = record("Doc", vec![("first", x()), ("second", y())]);
    let expected = format!("first = {};\nsecond = {};", format(x()), format(y()));
    assert_eq!(format(doc), expected);
}

#[test]
fn an_outermost_struct_without_fields_is_empty() {
    assert_eq!(format(record("Empty", Vec::new())), "");
}

#[test]
fn nesting_indents_by_four_spaces_for_each_level() {
    let c = record("C", vec![("c", Value::U32(1)), ("d", Value::U32(2))]);
    let b = record("B", vec![("b", c), ("e", Value::Bool(true))]);
    let a = record("A", vec![("a", b), ("f", Value::U32(3))]);
    let expected = "a = {\n    b = {\n        c = 1;\n        d = 2;\n};\n    e = true;\n};\nf = 3;";
    assert_eq!(format(a), expected);
}

#[test]
fn a_nested_struct_without_fields_is_an_empty_block() {
    let doc = record("Doc", vec![("a", record("Empty", Vec::new()))]);
    assert_eq!(format(doc), "a = {\n\n};");
}

#[test]
fn a_present_struct_is_written_as_the_struct() {
    let inner = record("In", vec![("x", Value::U32(1))]);
    let doc = record("Doc", vec![("a", Value::Present(Box::new(inner)))]);
    assert_eq!(format(doc), "a = {\n    x = 1;\n};");
    let outer = Value::Present(Box::new(record("In", vec![("x", Value::U32(1))])));
    assert_eq!(format(outer), "x = 1;");
}

#[test]
fn a_struct_in_a_sequence_is_written_under_its_name() {
    let doc = Value::Sequence(vec![record("P", vec![("x", Value::U32(1))])]);
    assert_eq!(format(doc), "[P = {\nx = 1;]");
}

#[test]
fn a_struct_in_a_sequence_inside_a_block_closes_the_block_early() {
    let point = record("P", vec![("x", Value::U32(1))]);
    let inner = record("In", vec![("list", Value::Sequence(vec![point]))]);
    let doc = record("Doc", vec![("a", inner)]);
    assert_eq!(format(doc), "a = {\n    list = [P = {\n    x = 1;\n}];;");
}

#[test]
fn newtype_variant_of_a_struct_is_a_block() {
    let v = Value::NewtypeVariant {
        variant: "V".to_string(),
        value: Box::new(record("In", vec![("a", Value::U32(1))])),
    };
    assert_eq!(format(v), "V = {\n    a = 1;\n};");
}

#[test]
fn tuple_variant_is_its_name_and_a_sequence() {
    let empty = Value::TupleVariant { variant: "T".to_string(), items: Vec::new() };
    assert_eq!(format(empty), "T = [];");
    let three = Value::TupleVariant {
        variant: "T".to_string(),
        items: vec![Value::I8(-1), text("a"), Value::Unit],
    };
    assert_eq!(format(three), "T = [-1,\"a\",null];");
}

#[test]
fn struct_variant_writes_its_fields_at_the_current_level() {
    let v = Value::StructVariant {
        variant: "S".to_string(),
        fields: vec![("a".to_string(), Value::U32(1)), ("b".to_string(), Value::U32(2))],
    };
    assert_eq!(format(v), "S = {\na = 1;\nb = 2;\n};");
    let field = Value::StructVariant {
        variant: "S".to_string(),
        fields: vec![("a".to_string(), Value::U32(1))],
    };
    assert_eq!(format(record("Doc", vec![("e", field)])), "e = S = {\na = 1;\n};;");
}

#[test]
fn struct_variant_inside_a_block_leaves_the_level_as_it_found_it() {
    let variant = Value::StructVariant {
        variant: "S".to_string(),
        fields: vec![("a".to_string(), Value::U32(1)), ("z".to_string(), Value::Bool(true))],
    };
    let inner = record("B", vec![("e", variant), ("c", Value::U32(2))]);
    let doc = record("A", vec![("b", inner), ("d", Value::U32(3))]);
    let expected =
        "b = {\n    e = S = {\n    a = 1;\n    z = true;\n};;\n    c = 2;\n};\nd = 3;";
    assert_eq!(format(doc), expected);
}

#[test]
fn maps_inside_maps_and_sequences() {
    let inner = || Value::Mapping(vec![(text("a"), Value::U32(1)), (text("b"), Value::U32(2))]);
    let outer = Value::Mapping(vec![(text("k"), inner()), (text("l"), Value::U32(3))]);
    assert_eq!(format(outer), "\"k\" = \"a\" = 1,\"b\" = 2;,\"l\" = 3;");
    let keyed = Value::Mapping(vec![(inner(), Value::Unit), (Value::U8(1), Value::U8(2))]);
    assert_eq!(format(keyed), "\"a\" = 1,\"b\" = 2; = null,1 = 2;");
    let list = Value::Sequence(vec![Value::Mapping(Vec::new()), inner()]);
    assert_eq!(format(list), "[;,\"a\" = 1,\"b\" = 2;]");
}

#[test]
fn a_struct_as_the_first_key_of_the_outermost_map_is_the_outermost_struct() {
    let key = record("K", vec![("x", Value::U32(1))]);
    let doc = Value::Mapping(vec![(key, Value::U32(2))]);
    assert_eq!(format(doc), "x = 1; = 2;");
}

#[test]
fn unit_variant_is_its_quoted_name() {
    assert_eq!(format(Value::UnitVariant { variant: "Unit".to_string() }), format(text("Unit")));
}

#[test]
fn both_entry_points_agree() {
    let doc = record("Doc", vec![("a", Value::U32(1)), ("b", record("In", vec![("c", text("d"))]))]);
    assert_eq!(to_string(&doc).unwrap(), ser::to_string(&doc).unwrap());
}
