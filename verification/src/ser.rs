use crate::error::Error;
use crate::model::{
    decimal, ends_in, ends_with_assign, formatted, indentation, lemma_put_put, quote,
    signed_decimal, State,
};
use crate::text::{collect, push_decimal, push_signed_decimal, push_text};
use crate::value::Value;
use vstd::prelude::*;

verus! {

/// Writes structured values as configuration text, one node at a time.
///
/// The caller walks a value and reports each node; the serializer decides
/// from the end of what it has written which separator, line break or block
/// delimiter the next node needs.
pub struct Serializer {
    output: Vec<char>,
    indentation_level: u64,
    /// A map has been opened and its first key is still to come.
    first_key: bool,
}

impl View for Serializer {
    type V = State;

    closed spec fn view(&self) -> State {
        State {
            output: self.output@,
            indent: self.indentation_level as nat,
            first_key: self.first_key,
        }
    }
}

/// Formats `value` as the outermost value of a document.
pub fn to_string(value: &Value) -> (r: Result<String, Error>)
    ensures
        r matches Ok(text) && text@ == formatted(*value),
{
    let mut serializer = Serializer::new();
    value.serialize(&mut serializer);
    Ok(serializer.into_string())
}

impl Serializer {
    /// Every level of indentation was entered by writing an opening brace
    /// and a line break, so the level never exceeds half the output's length.
    #[verifier::type_invariant]
    spec fn bounded(&self) -> bool {
        2 * self.indentation_level <= self.output@.len()
    }

    /// A serializer that has written nothing, at level 0.
    pub fn new() -> (s: Serializer)
        ensures
            s@ == State::start(),
    {
        Serializer { output: Vec::new(), indentation_level: 0, first_key: false }
    }

    /// The text written so far.
    pub fn into_string(self) -> (text: String)
        ensures
            text@ == self@.output,
    {
        collect(&self.output)
    }

    /// Takes the output out and leaves an empty one behind, so that the
    /// output can be written to by itself. The level is set to 0 meanwhile
    /// and is handed out with the output.
    fn take(&mut self) -> (parts: (Vec<char>, u64))
        ensures
            parts.0@ == old(self)@.output,
            parts.1 == old(self)@.indent,
            2 * parts.1 <= parts.0@.len(),
            final(self)@ == (State { first_key: old(self)@.first_key, ..State::start() }),
    {
        proof {
            use_type_invariant(&*self);
        }
        let mut taken = Serializer {
            output: Vec::new(),
            indentation_level: 0,
            first_key: self.first_key,
        };
        std::mem::swap(self, &mut taken);
        let Serializer { output, indentation_level, first_key: _ } = taken;
        (output, indentation_level)
    }

    /// Puts an output and a level back.
    fn restore(&mut self, output: Vec<char>, indentation_level: u64)
        requires
            2 * indentation_level <= output@.len(),
        ensures
            final(self)@ == (State {
                output: output@,
                indent: indentation_level as nat,
                first_key: old(self)@.first_key,
            }),
    {
        *self = Serializer { output, indentation_level, first_key: self.first_key };
    }

    /// Writes `text`.
    fn put(&mut self, text: &str)
        ensures
            final(self)@ == old(self)@.put(text@),
    {
        let (mut output, level) = self.take();
        push_text(&mut output, text);
        self.restore(output, level);
    }

    /// Writes `c`.
    fn put_char(&mut self, c: char)
        ensures
            final(self)@ == old(self)@.put(seq![c]),
    {
        let (mut output, level) = self.take();
        output.push(c);
        assert(output@ == old(self)@.output + seq![c]);
        self.restore(output, level);
    }

    /// Writes the decimal digits of `v`.
    fn put_decimal(&mut self, v: u64)
        ensures
            final(self)@ == old(self)@.put(decimal(v as nat)),
    {
        let (mut output, level) = self.take();
        push_decimal(&mut output, v);
        self.restore(output, level);
    }

    /// Writes the decimal digits of `v`, after a `-` when `v` is negative.
    fn put_signed_decimal(&mut self, v: i64)
        ensures
            final(self)@ == old(self)@.put(signed_decimal(v as int)),
    {
        let (mut output, level) = self.take();
        push_signed_decimal(&mut output, v);
        self.restore(output, level);
    }

    /// Opens a block and goes one level deeper.
    fn enter_block(&mut self)
        ensures
            final(self)@ == old(self)@.put("{\n"@).deeper(),
    {
        let (mut output, level) = self.take();
        // The level is at most half of a length that fits in `usize`, so one
        // more level fits in `u64`.
        let written: usize = output.len();
        assert(2 * level <= written);
        push_text(&mut output, "{\n");
        proof {
            reveal_strlit("{\n");
        }
        self.restore(output, level + 1);
    }

    /// Goes one level up, or stays at level 0.
    fn leave_block(&mut self)
        ensures
            final(self)@ == old(self)@.shallower(),
    {
        proof {
            use_type_invariant(&*self);
        }
        if self.indentation_level > 0 {
            self.indentation_level -= 1;
        }
    }

    /// Whether the last character written is `c`.
    fn ends_in(&self, c: char) -> (b: bool)
        ensures
            b == ends_in(self@.output, c),
    {
        let n: usize = self.output.len();
        n > 0 && self.output[n - 1] == c
    }

    /// Whether the last two characters written are `= `.
    fn ends_with_assign(&self) -> (b: bool)
        ensures
            b == ends_with_assign(self@.output),
    {
        let n: usize = self.output.len();
        n >= 2 && self.output[n - 2] == '=' && self.output[n - 1] == ' '
    }

    /// Writes `true` or `false`.
    pub fn serialize_bool(&mut self, v: bool)
        ensures
            final(self)@ == old(self)@.put(
                if v {
                    "true"@
                } else {
                    "false"@
                },
            ),
    {
        self.put(
            if v {
                "true"
            } else {
                "false"
            },
        );
    }

    /// Writes `v` as a 32-bit integer.
    pub fn serialize_i8(&mut self, v: i8)
        ensures
            final(self)@ == old(self)@.put(signed_decimal(v as int)),
    {
        self.serialize_i32(v as i32)
    }

    /// Writes `v` as a 32-bit integer.
    pub fn serialize_i16(&mut self, v: i16)
        ensures
            final(self)@ == old(self)@.put(signed_decimal(v as int)),
    {
        self.serialize_i32(v as i32)
    }

    /// Writes the decimal digits of `v`, without a suffix.
    pub fn serialize_i32(&mut self, v: i32)
        ensures
            final(self)@ == old(self)@.put(signed_decimal(v as int)),
    {
        self.put_signed_decimal(v as i64);
    }

    /// Writes the decimal digits of `v` and the suffix `L`.
    pub fn serialize_i64(&mut self, v: i64)
        ensures
            final(self)@ == old(self)@.put(signed_decimal(v as int) + "L"@),
    {
        self.put_signed_decimal(v);
        self.put("L");
        proof {
            lemma_put_put(old(self)@, signed_decimal(v as int), "L"@);
        }
    }

    /// Writes `v` as a 32-bit integer.
    pub fn serialize_u8(&mut self, v: u8)
        ensures
            final(self)@ == old(self)@.put(decimal(v as nat)),
    {
        self.serialize_u32(v as u32)
    }

    /// Writes `v` as a 32-bit integer.
    pub fn serialize_u16(&mut self, v: u16)
        ensures
            final(self)@ == old(self)@.put(decimal(v as nat)),
    {
        self.serialize_u32(v as u32)
    }

    /// Writes the decimal digits of `v`, without a suffix.
    pub fn serialize_u32(&mut self, v: u32)
        ensures
            final(self)@ == old(self)@.put(decimal(v as nat)),
    {
        self.put_decimal(v as u64);
    }

    /// Writes the decimal digits of `v` and the suffix `UL`.
    pub fn serialize_u64(&mut self, v: u64)
        ensures
            final(self)@ == old(self)@.put(decimal(v as nat) + "UL"@),
    {
        self.put_decimal(v);
        self.put("UL");
        proof {
            lemma_put_put(old(self)@, decimal(v as nat), "UL"@);
        }
    }

    /// Writes a number with a fractional part, whose decimal text the caller
    /// has made, as it is.
    pub fn serialize_real(&mut self, text: &str)
        ensures
            final(self)@ == old(self)@.put(text@),
    {
        self.put(text);
    }

    /// Writes `v` as a string of one character.
    pub fn serialize_char(&mut self, v: char)
        ensures
            final(self)@ == old(self)@.put(quote(seq![v])),
    {
        self.put("\"");
        self.put_char(v);
        self.put("\"");
        proof {
            lemma_put_put(old(self)@, "\""@, seq![v]);
            lemma_put_put(old(self)@, "\""@ + seq![v], "\""@);
        }
    }

    /// Writes `v` between double quotes. Nothing in `v` is escaped.
    pub fn serialize_str(&mut self, v: &str)
        ensures
            final(self)@ == old(self)@.put(quote(v@)),
    {
        self.put("\"");
        self.put(v);
        self.put("\"");
        proof {
            lemma_put_put(old(self)@, "\""@, v@);
            lemma_put_put(old(self)@, "\""@ + v@, "\""@);
        }
    }

    /// Writes `v` as a sequence of unsigned 8-bit integers.
    pub fn serialize_bytes(&mut self, v: &[u8])
        ensures
            final(self)@ == old(self)@.open_seq().bytes(v@, v@.len()).close_seq(),
    {
        self.serialize_seq();
        let n: usize = v.len();
        let mut i: usize = 0;
        while i < n
            invariant
                n == v@.len(),
                i <= n,
                self@ == old(self)@.open_seq().bytes(v@, i as nat),
            decreases n - i,
        {
            self.begin_element();
            self.serialize_u8(v[i]);
            i += 1;
        }
        self.end_seq();
    }

    /// Writes an absent optional value, which is written as a unit value.
    pub fn serialize_none(&mut self)
        ensures
            final(self)@ == old(self)@.put("null"@),
    {
        self.serialize_unit()
    }

    /// Writes a present optional value, which is written as the value itself.
    pub fn serialize_some(&mut self, value: &Value)
        ensures
            final(self)@ == old(self)@.value(*value),
    {
        value.serialize(self)
    }

    /// Writes `null`.
    pub fn serialize_unit(&mut self)
        ensures
            final(self)@ == old(self)@.put("null"@),
    {
        self.put("null");
    }

    /// Writes a struct without fields, which is written as a unit value.
    pub fn serialize_unit_struct(&mut self)
        ensures
            final(self)@ == old(self)@.put("null"@),
    {
        self.serialize_unit()
    }

    /// Writes a variant without payload as the string of its name.
    pub fn serialize_unit_variant(&mut self, variant: &str)
        ensures
            final(self)@ == old(self)@.put(quote(variant@)),
    {
        self.serialize_str(variant)
    }

    /// Writes a struct that wraps one value, which is written as that value.
    pub fn serialize_newtype_struct(&mut self, value: &Value)
        ensures
            final(self)@ == old(self)@.value(*value),
    {
        value.serialize(self)
    }

    /// Writes the variant's name and ` = `; the variant's value comes next.
    pub fn begin_newtype_variant(&mut self, variant: &str)
        ensures
            final(self)@ == old(self)@.open_newtype_variant(variant@),
    {
        self.put(variant);
        self.put(" = ");
    }

    /// Closes a variant that carried one value.
    pub fn end_newtype_variant(&mut self)
        ensures
            final(self)@ == old(self)@.close_newtype_variant(),
    {
        self.put(";");
    }

    /// Writes a variant that carries one value: its name, ` = `, the value
    /// and `;`.
    pub fn serialize_newtype_variant(&mut self, variant: &str, value: &Value)
        ensures
            final(self)@ == old(self)@.open_newtype_variant(variant@).value(
                *value,
            ).close_newtype_variant(),
    {
        self.begin_newtype_variant(variant);
        value.serialize(self);
        self.end_newtype_variant();
    }

    /// Opens a sequence.
    pub fn serialize_seq(&mut self)
        ensures
            final(self)@ == old(self)@.open_seq(),
    {
        self.put("[");
    }

    /// Opens a tuple, which is written as a sequence.
    pub fn serialize_tuple(&mut self)
        ensures
            final(self)@ == old(self)@.open_seq(),
    {
        self.serialize_seq()
    }

    /// Opens a struct with unnamed fields, which is written as a sequence.
    pub fn serialize_tuple_struct(&mut self)
        ensures
            final(self)@ == old(self)@.open_seq(),
    {
        self.serialize_seq()
    }

    /// Opens a variant that carries a list of values.
    pub fn serialize_tuple_variant(&mut self, variant: &str)
        ensures
            final(self)@ == old(self)@.open_tuple_variant(variant@),
    {
        self.put(variant);
        self.put(" = [");
    }

    /// Opens a map, which has no opening delimiter: nothing is written, and
    /// the key that comes next is the first of this map.
    pub fn serialize_map(&mut self)
        ensures
            final(self)@ == old(self)@.open_map(),
    {
        proof {
            use_type_invariant(&*self);
        }
        self.first_key = true;
    }

    /// Opens a struct of the type `name`. The outermost struct, found with
    /// nothing written yet, opens nothing; a struct found after `= ` opens a
    /// block one level deeper; any other is written under its type's name.
    pub fn serialize_struct(&mut self, name: &str)
        ensures
            final(self)@ == old(self)@.open_struct(name@),
    {
        if self.output.len() > 0 {
            if self.ends_with_assign() {
                self.enter_block();
            } else {
                self.put(name);
                self.put(" = {\n");
            }
        }
    }

    /// Opens a variant that carries named fields.
    pub fn serialize_struct_variant(&mut self, variant: &str)
        ensures
            final(self)@ == old(self)@.open_struct_variant(variant@),
    {
        self.put(variant);
        self.put(" = {\n");
    }

    /// Writes what separates the next element of a sequence from the one
    /// before it.
    pub fn begin_element(&mut self)
        ensures
            final(self)@ == old(self)@.before_element(),
    {
        if !self.ends_in('[') {
            self.put(",");
        }
    }

    /// Writes `value` as the next element of the sequence that is open.
    pub fn serialize_element(&mut self, value: &Value)
        ensures
            final(self)@ == old(self)@.before_element().value(*value),
        decreases value, 1nat,
    {
        self.begin_element();
        value.serialize(self)
    }

    /// Closes a sequence or a tuple.
    pub fn end_seq(&mut self)
        ensures
            final(self)@ == old(self)@.close_seq(),
    {
        self.put("]");
    }

    /// Closes a variant that carried a list of values.
    pub fn end_tuple_variant(&mut self)
        ensures
            final(self)@ == old(self)@.close_tuple_variant(),
    {
        self.put("];");
    }

    /// Writes what separates the next key of a map from the entry before
    /// it: nothing before the first key, a comma before every other.
    pub fn begin_key(&mut self)
        ensures
            final(self)@ == old(self)@.before_key(),
    {
        proof {
            use_type_invariant(&*self);
        }
        if self.first_key {
            self.first_key = false;
        } else {
            self.put(",");
        }
    }

    /// Writes `key` as the next key of the map that is open.
    pub fn serialize_key(&mut self, key: &Value)
        ensures
            final(self)@ == old(self)@.before_key().value(*key),
        decreases key, 1nat,
    {
        self.begin_key();
        key.serialize(self)
    }

    /// Writes ` = ` between a key of a map and its value.
    pub fn begin_value(&mut self)
        ensures
            final(self)@ == old(self)@.before_map_value(),
    {
        self.put(" = ");
    }

    /// Writes `value` as the value of the key that was written last.
    pub fn serialize_value(&mut self, value: &Value)
        ensures
            final(self)@ == old(self)@.before_map_value().value(*value),
        decreases value, 1nat,
    {
        self.begin_value();
        value.serialize(self)
    }

    /// Closes a map.
    pub fn end_map(&mut self)
        ensures
            final(self)@ == old(self)@.close_map(),
    {
        self.put(";");
        proof {
            use_type_invariant(&*self);
        }
        self.first_key = false;
    }

    /// Starts the line of the field `key`, up to and including ` = `.
    pub fn begin_field(&mut self, key: &str)
        ensures
            final(self)@ == old(self)@.before_field(key@),
    {
        if self.ends_in(';') {
            self.put("\n");
        }
        let ghost line = self@;
        let level: u64 = self.indentation_level;
        let mut done: u64 = 0;
        while done < level
            invariant
                done <= level,
                self@ == line.put(indentation(done as nat)),
            decreases level - done,
        {
            self.put("    ");
            done += 1;
            assert(self@.output == line.output + indentation(done as nat));
        }
        self.put(key);
        self.put(" = ");
    }

    /// Ends the line of a field, after its value.
    pub fn end_field(&mut self)
        ensures
            final(self)@ == old(self)@.after_field(),
    {
        self.put(";");
    }

    /// Writes the line of the field `key` with `value`.
    pub fn serialize_field(&mut self, key: &str, value: &Value)
        ensures
            final(self)@ == old(self)@.before_field(key@).value(*value).after_field(),
        decreases value, 1nat,
    {
        self.begin_field(key);
        value.serialize(self);
        self.end_field();
    }

    /// Closes a struct: above level 0 the block is closed and the level goes
    /// down by one, at level 0 nothing is written.
    pub fn end_struct(&mut self)
        ensures
            final(self)@ == old(self)@.close_struct(),
    {
        if self.indentation_level > 0 {
            self.put("\n}");
            self.leave_block();
        }
    }

    /// Closes a variant that carried named fields, at the level at which it
    /// was opened.
    pub fn end_struct_variant(&mut self)
        ensures
            final(self)@ == old(self)@.close_struct_variant(),
    {
        self.put("\n};");
    }
}

impl Value {
    /// Reports this value to `serializer`, node by node.
    pub fn serialize(&self, serializer: &mut Serializer)
        ensures
            final(serializer)@ == old(serializer)@.value(*self),
        decreases self, 0nat,
    {
        match self {
            Value::Bool(v) => serializer.serialize_bool(*v),
            Value::I8(v) => serializer.serialize_i8(*v),
            Value::I16(v) => serializer.serialize_i16(*v),
            Value::I32(v) => serializer.serialize_i32(*v),
            Value::I64(v) => serializer.serialize_i64(*v),
            Value::U8(v) => serializer.serialize_u8(*v),
            Value::U16(v) => serializer.serialize_u16(*v),
            Value::U32(v) => serializer.serialize_u32(*v),
            Value::U64(v) => serializer.serialize_u64(*v),
            Value::Real(text) => serializer.serialize_real(text.as_str()),
            Value::Char(v) => serializer.serialize_char(*v),
            Value::Str(text) => serializer.serialize_str(text.as_str()),
            Value::Bytes(bytes) => serializer.serialize_bytes(bytes.as_slice()),
            Value::Absent => serializer.serialize_none(),
            Value::Present(inner) => inner.serialize(serializer),
            Value::Unit => serializer.serialize_unit(),
            Value::Sequence(items) => {
                serializer.serialize_seq();
                serialize_elements(serializer, items);
                serializer.end_seq();
            },
            Value::Tuple(items) => {
                serializer.serialize_tuple();
                serialize_elements(serializer, items);
                serializer.end_seq();
            },
            Value::Mapping(entries) => {
                serializer.serialize_map();
                serialize_entries(serializer, entries);
                serializer.end_map();
            },
            Value::Struct { name, fields } => {
                serializer.serialize_struct(name.as_str());
                serialize_fields(serializer, fields);
                serializer.end_struct();
            },
            Value::UnitVariant { variant } => serializer.serialize_unit_variant(variant.as_str()),
            Value::NewtypeVariant { variant, value } => {
                serializer.begin_newtype_variant(variant.as_str());
                value.serialize(serializer);
                serializer.end_newtype_variant();
            },
            Value::TupleVariant { variant, items } => {
                serializer.serialize_tuple_variant(variant.as_str());
                serialize_elements(serializer, items);
                serializer.end_tuple_variant();
            },
            Value::StructVariant { variant, fields } => {
                serializer.serialize_struct_variant(variant.as_str());
                serialize_fields(serializer, fields);
                serializer.end_struct_variant();
            },
        }
    }
}

/// Reports each of `items` as an element of the sequence that is open.
fn serialize_elements(serializer: &mut Serializer, items: &Vec<Value>)
    ensures
        final(serializer)@ == old(serializer)@.elements(items@, items@.len()),
    decreases items, 2nat,
{
    let n: usize = items.len();
    let mut i: usize = 0;
    while i < n
        invariant
            n == items@.len(),
            i <= n,
            serializer@ == old(serializer)@.elements(items@, i as nat),
        decreases n - i,
    {
        serializer.serialize_element(&items[i]);
        i += 1;
    }
}

/// Reports each of `entries` as an entry of the map that is open.
fn serialize_entries(serializer: &mut Serializer, entries: &Vec<(Value, Value)>)
    ensures
        final(serializer)@ == old(serializer)@.entries(entries@, entries@.len()),
    decreases entries, 2nat,
{
    let n: usize = entries.len();
    let mut i: usize = 0;
    while i < n
        invariant
            n == entries@.len(),
            i <= n,
            serializer@ == old(serializer)@.entries(entries@, i as nat),
        decreases n - i,
    {
        serializer.serialize_key(&entries[i].0);
        serializer.serialize_value(&entries[i].1);
        i += 1;
    }
}

/// Reports each of `fields` as a field of the struct that is open.
fn serialize_fields(serializer: &mut Serializer, fields: &Vec<(String, Value)>)
    ensures
        final(serializer)@ == old(serializer)@.fields(fields@, fields@.len()),
    decreases fields, 2nat,
{
    let n: usize = fields.len();
    let mut i: usize = 0;
    while i < n
        invariant
            n == fields@.len(),
            i <= n,
            serializer@ == old(serializer)@.fields(fields@, i as nat),
        decreases n - i,
    {
        serializer.serialize_field(fields[i].0.as_str(), &fields[i].1);
        i += 1;
    }
}

} // verus!
