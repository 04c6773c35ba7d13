use vstd::prelude::*;

verus! {

/// A structured value, described by the shape of its nodes.
///
/// Every node is a scalar, an ordered composite, or one of the four shapes an
/// enum variant can take. Names (of record types, fields and variants) are
/// carried as text.
#[derive(Debug)]
pub enum Value {
    Bool(bool),
    /// A signed integer of 8 bits, written as one of 32 bits is.
    I8(i8),
    /// A signed integer of 16 bits, written as one of 32 bits is.
    I16(i16),
    I32(i32),
    I64(i64),
    /// An unsigned integer of 8 bits, written as one of 32 bits is.
    U8(u8),
    /// An unsigned integer of 16 bits, written as one of 32 bits is.
    U16(u16),
    U32(u32),
    U64(u64),
    /// A number with a fractional part, given as its decimal text.
    Real(String),
    /// A character, which is written as a string of one character.
    Char(char),
    Str(String),
    /// Bytes, which are written as a sequence of unsigned 8-bit integers.
    Bytes(Vec<u8>),
    /// An optional value that is absent.
    Absent,
    /// An optional value that is present.
    Present(Box<Value>),
    Unit,
    /// Values in order, of any length and of any kinds.
    Sequence(Vec<Value>),
    /// A tuple, which is written as a sequence.
    Tuple(Vec<Value>),
    /// Key/value pairs, in insertion order.
    Mapping(Vec<(Value, Value)>),
    /// Named fields, in declaration order, under the name of their type.
    Struct { name: String, fields: Vec<(String, Value)> },
    /// A variant without payload.
    UnitVariant { variant: String },
    /// A variant that carries exactly one unnamed value.
    NewtypeVariant { variant: String, value: Box<Value> },
    /// A variant that carries an ordered list of unnamed values.
    TupleVariant { variant: String, items: Vec<Value> },
    /// A variant that carries named fields.
    StructVariant { variant: String, fields: Vec<(String, Value)> },
}

} // verus!
