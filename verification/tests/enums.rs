use libconfig_ser::to_string;
use libconfig_ser::value::Value;

#[test]
fn test_enum() {
    let u = Value::UnitVariant { variant: "Unit".to_string() };
    let expected = "\"Unit\"";
    assert_eq!(to_string(&u).unwrap(), expected);
}

#[test]
fn test_enum_newtype() {
    let n = Value::NewtypeVariant { variant: "Newtype".to_string(), value: Box::new(Value::U32(1)) };
    let expected = "Newtype = 1;";
    assert_eq!(to_string(&n).unwrap(), expected);
}

#[test]
fn test_enum_tuple() {
    let t = Value::TupleVariant {
        variant: "Tuple".to_string(),
        items: vec![Value::U32(1), Value::U32(2)],
    };
    let expected = "Tuple = [1,2];";
    assert_eq!(to_string(&t).unwrap(), expected);
}

#[test]
fn test_enum_struct() {
    let s = Value::StructVariant {
        variant: "Struct".to_string(),
        fields: vec![("a".to_string(), Value::U32(1))],
    };
    let expected = "Struct = {\na = 1;\n};";
    assert_eq!(to_string(&s).unwrap(), expected);
}
