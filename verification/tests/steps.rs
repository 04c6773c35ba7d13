use libconfig_ser::ser::Serializer;
use libconfig_ser::value::Value;

#[test]
fn a_new_serializer_has_written_nothing() {
    assert_eq!(Serializer::new().into_string(), "");
}

#[test]
fn steps_of_a_struct_by_hand() {
    let mut s = Serializer::new();
    s.serialize_struct("Doc");
    s.begin_field("int");
    s.serialize_u32(1);
    s.end_field();
    s.begin_field("seq");
    s.serialize_seq();
    s.begin_element();
    s.serialize_str("a");
    s.begin_element();
    s.serialize_str("b");
    s.end_seq();
    s.end_field();
    s.end_struct();
    assert_eq!(s.into_string(), "int = 1;\nseq = [\"a\",\"b\"];");
}

#[test]
fn steps_of_a_nested_struct_by_hand() {
    let mut s = Serializer::new();
    s.serialize_struct("Outer");
    s.begin_field("inner");
    s.serialize_struct("Inner");
    s.begin_field("x");
    s.serialize_i64(-5);
    s.end_field();
    s.begin_field("y");
    s.serialize_real("0.5");
    s.end_field();
    s.end_struct();
    s.end_field();
    s.end_struct();
    assert_eq!(s.into_string(), "inner = {\n    x = -5L;\n    y = 0.5;\n};");
}

#[test]
fn steps_of_the_variants_by_hand() {
    let mut s = Serializer::new();
    s.serialize_unit_variant("Unit");
    assert_eq!(s.into_string(), "\"Unit\"");

    let mut s = Serializer::new();
    s.begin_newtype_variant("Newtype");
    s.serialize_u32(1);
    s.end_newtype_variant();
    assert_eq!(s.into_string(), "Newtype = 1;");

    let mut s = Serializer::new();
    s.serialize_tuple_variant("Tuple");
    s.begin_element();
    s.serialize_u32(1);
    s.begin_element();
    s.serialize_u32(2);
    s.end_tuple_variant();
    assert_eq!(s.into_string(), "Tuple = [1,2];");

    let mut s = Serializer::new();
    s.serialize_struct_variant("Struct");
    s.begin_field("a");
    s.serialize_u32(1);
    s.end_field();
    s.end_struct_variant();
    assert_eq!(s.into_string(), "Struct = {\na = 1;\n};");
}

#[test]
fn steps_of_a_map_by_hand() {
    let mut s = Serializer::new();
    s.serialize_map();
    s.begin_key();
    s.serialize_str("k");
    s.begin_value();
    s.serialize_bool(true);
    s.end_map();
    assert_eq!(s.into_string(), "\"k\" = true;");
}

#[test]
fn whole_values_between_steps() {
    let mut s = Serializer::new();
    s.serialize_tuple();
    s.serialize_element(&Value::U8(1));
    s.serialize_element(&Value::Sequence(vec![Value::Unit]));
    s.end_seq();
    assert_eq!(s.into_string(), "[1,[null]]");

    let mut s = Serializer::new();
    s.serialize_struct("Doc");
    s.serialize_field("a", &Value::I16(-2));
    s.serialize_field("b", &Value::Char('c'));
    s.end_struct();
    assert_eq!(s.into_string(), "a = -2;\nb = \"c\";");

    let mut s = Serializer::new();
    s.serialize_map();
    s.serialize_key(&Value::U32(1));
    s.serialize_value(&Value::U32(2));
    s.end_map();
    assert_eq!(s.into_string(), "1 = 2;");

    let mut s = Serializer::new();
    s.serialize_newtype_variant("N", &Value::Absent);
    assert_eq!(s.into_string(), "N = null;");
}

#[test]
fn plain_wrappers_write_what_they_wrap() {
    let mut s = Serializer::new();
    s.serialize_tuple_struct();
    s.begin_element();
    s.serialize_unit_struct();
    s.begin_element();
    s.serialize_newtype_struct(&Value::U16(3));
    s.begin_element();
    s.serialize_some(&Value::I32(-4));
    s.begin_element();
    s.serialize_none();
    s.end_seq();
    assert_eq!(s.into_string(), "[null,3,-4,null]");
}

#[test]
fn closing_a_struct_at_level_zero_writes_nothing() {
    let mut s = Serializer::new();
    s.serialize_str("x");
    s.end_struct();
    assert_eq!(s.into_string(), "\"x\"");
}

#[test]
fn a_struct_after_other_text_is_written_under_its_name() {
    let mut s = Serializer::new();
    s.serialize_bool(true);
    s.serialize_struct("Named");
    s.begin_field("a");
    s.serialize_u8(1);
    s.end_field();
    s.end_struct();
    assert_eq!(s.into_string(), "trueNamed = {\na = 1;");
}

#[test]
fn only_the_first_key_of_a_map_has_no_comma() {
    let mut s = Serializer::new();
    s.serialize_map();
    s.begin_key();
    s.serialize_u32(1);
    s.begin_value();
    s.serialize_u32(2);
    s.begin_key();
    s.serialize_u32(3);
    s.begin_value();
    s.serialize_u32(4);
    s.begin_key();
    s.serialize_u32(5);
    s.begin_value();
    s.serialize_u32(6);
    s.end_map();
    assert_eq!(s.into_string(), "1 = 2,3 = 4,5 = 6;");
}

#[test]
fn a_map_inside_a_map_has_a_first_key_of_its_own() {
    let mut s = Serializer::new();
    s.serialize_map();
    s.begin_key();
    s.serialize_str("outer");
    s.begin_value();
    s.serialize_map();
    s.begin_key();
    s.serialize_str("a");
    s.begin_value();
    s.serialize_u32(1);
    s.begin_key();
    s.serialize_str("b");
    s.begin_value();
    s.serialize_u32(2);
    s.end_map();
    s.begin_key();
    s.serialize_str("next");
    s.begin_value();
    s.serialize_map();
    s.end_map();
    s.begin_key();
    s.serialize_str("last");
    s.begin_value();
    s.serialize_unit();
    s.end_map();
    assert_eq!(s.into_string(), "\"outer\" = \"a\" = 1,\"b\" = 2;,\"next\" = ;,\"last\" = null;");
}

#[test]
fn a_variant_with_named_fields_keeps_the_level() {
    let mut s = Serializer::new();
    s.serialize_struct("A");
    s.begin_field("b");
    s.serialize_struct("B");
    s.begin_field("e");
    s.serialize_struct_variant("S");
    s.begin_field("a");
    s.serialize_u32(1);
    s.end_field();
    s.end_struct_variant();
    s.end_field();
    s.begin_field("c");
    s.serialize_u32(2);
    s.end_field();
    s.end_struct();
    s.end_field();
    s.end_struct();
    assert_eq!(s.into_string(), "b = {\n    e = S = {\n    a = 1;\n};;\n    c = 2;\n};");
}
