use libconfig_ser::to_string;
use libconfig_ser::value::Value;

fn text(s: &str) -> Value {
    Value::Str(s.to_string())
}

fn record(name: &str, fields: Vec<(&str, Value)>) -> Value {
    Value::Struct {
        name: name.to_string(),
        fields: fields.into_iter().map(|(k, v)| (k.to_string(), v)).collect(),
    }
}

#[test]
fn test_struct() {
    let test = record(
        "Test",
        vec![("int", Value::U32(1)), ("seq", Value::Sequence(vec![text("a"), text("b")]))],
    );
    let expected = "int = 1;\nseq = [\"a\",\"b\"];";
    assert_eq!(to_string(&test).unwrap(), expected);
}

#[test]
fn test_ser_struct_bool() {
    let dummy_struct = record("TestBool", vec![("my_bool", Value::Bool(true))]);
    let ser_str = to_string(&dummy_struct).unwrap();
    assert_eq!(ser_str, "my_bool = true;");
}

#[test]
fn test_ser_struct_i16() {
    let dummy_struct = record("TestI16", vec![("my_i16", Value::I16(16))]);
    let ser_str = to_string(&dummy_struct).unwrap();
    assert_eq!(ser_str, "my_i16 = 16;");
}

#[test]
fn test_ser_struct_i64() {
    let dummy_struct = record("TestI64", vec![("my_i64", Value::I64(16))]);
    let ser_str = to_string(&dummy_struct).unwrap();
    assert_eq!(ser_str, "my_i64 = 16L;");
}

#[test]
fn test_ser_struct_u16() {
    let dummy_struct = record("TestU16", vec![("my_u16", Value::U16(16))]);
    let ser_str = to_string(&dummy_struct).unwrap();
    assert_eq!(ser_str, "my_u16 = 16;");
}

#[test]
fn test_ser_struct_u64() {
    let dummy_struct = record("TestU64", vec![("my_u64", Value::U64(16))]);
    let ser_str = to_string(&dummy_struct).unwrap();
    assert_eq!(ser_str, "my_u64 = 16UL;");
}

#[test]
fn test_ser_struct_str() {
    let dummy_struct = record("TestStr", vec![("my_str", Value::Str("ajo".to_string()))]);
    let ser_str = to_string(&dummy_struct).unwrap();
    assert_eq!(ser_str, "my_str = \"ajo\";");
}

#[test]
fn test_ser_struct_two_vars() {
    let dummy_struct =
        record("TestU16Multi", vec![("my_u16", Value::U16(16)), ("your_u16", Value::U16(32))]);
    let ser_str = to_string(&dummy_struct).unwrap();
    assert_eq!(ser_str, "my_u16 = 16;\nyour_u16 = 32;");
}

#[test]
fn test_ser_nested_struct() {
    let dummy_struct = record(
        "TestNestedStruct",
        vec![("nested_struct", record("TestStruct", vec![("my_u16", Value::U16(16))]))],
    );
    let ser_str = to_string(&dummy_struct).unwrap();
    assert_eq!(ser_str, "nested_struct = {\n    my_u16 = 16;\n};");
}

#[test]
fn test_ser_nested_struct_multi_var() {
    let dummy_struct = record(
        "TestStructNestedMultiVar",
        vec![
            ("my_u16", Value::U16(321)),
            (
                "nested_struct",
                record(
                    "TestStructMultiVar",
                    vec![
                        ("my_u16", Value::U16(16)),
                        ("your_str", Value::Str("my nice schtring".to_string())),
                        ("they_u64", Value::U64(0xAAAAAAAA)),
                    ],
                ),
            ),
            ("they_u64", Value::U64(0xffffffff)),
        ],
    );
    let ser_str = to_string(&dummy_struct).unwrap();
    let exp_str = r#"my_u16 = 321;
nested_struct = {
    my_u16 = 16;
    your_str = "my nice schtring";
    they_u64 = 2863311530UL;
};
they_u64 = 4294967295UL;"#;
    assert_eq!(ser_str, exp_str);
}
