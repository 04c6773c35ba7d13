use crate::frame::{law_shift_value, neutral, opens_with_struct, shifted};
use crate::growth::law_value_appends;
use crate::model::{
    ends_in, ends_with_assign, formatted, lemma_before_field, lemma_field_line, lemma_put_assign,
    lemma_put_end, lemma_put_nothing, lemma_put_put, line, next_line, State,
};
use crate::value::Value;
use vstd::prelude::*;

verus! {

/// `v` holds no struct and no variant with named fields, at any depth: its
/// text has no line of its own and no indentation.
pub open spec fn flat(v: Value) -> bool
    decreases v, 0nat,
{
    match v {
        Value::Present(inner) => flat(*inner),
        Value::Sequence(items) => flat_items(items@, items@.len()),
        Value::Tuple(items) => flat_items(items@, items@.len()),
        Value::Mapping(entries) => flat_entries(entries@, entries@.len()),
        Value::Struct { .. } => false,
        Value::NewtypeVariant { variant, value } => flat(*value),
        Value::TupleVariant { variant, items } => flat_items(items@, items@.len()),
        Value::StructVariant { .. } => false,
        _ => true,
    }
}

/// The first `n` of `items` are flat.
pub open spec fn flat_items(items: Seq<Value>, n: nat) -> bool
    decreases items, n,
{
    if n == 0 || n > items.len() {
        true
    } else {
        flat_items(items, (n - 1) as nat) && flat(items[n - 1])
    }
}

/// The keys and the values of the first `n` of `entries` are flat.
pub open spec fn flat_entries(entries: Seq<(Value, Value)>, n: nat) -> bool
    decreases entries, n,
{
    if n == 0 || n > entries.len() {
        true
    } else {
        flat_entries(entries, (n - 1) as nat) && flat(entries[n - 1].0) && flat(entries[n - 1].1)
    }
}

/// `v` is flat, or holds its structs where a block can stand: `v` is a
/// struct or a variant with named fields whose fields hold tidy values, or a
/// present optional value or a variant with one value that holds a tidy
/// value.
pub open spec fn tidy(v: Value) -> bool
    decreases v, 0nat,
{
    match v {
        Value::Struct { name, fields } => tidy_fields(fields@, fields@.len()),
        Value::StructVariant { variant, fields } => tidy_fields(fields@, fields@.len()),
        Value::Present(inner) => tidy(*inner),
        Value::NewtypeVariant { variant, value } => tidy(*value),
        _ => flat(v),
    }
}

/// The values of the first `n` of `fields` are tidy.
pub open spec fn tidy_fields(fields: Seq<(String, Value)>, n: nat) -> bool
    decreases fields, n,
{
    if n == 0 || n > fields.len() {
        true
    } else {
        tidy_fields(fields, (n - 1) as nat) && tidy(fields[n - 1].1)
    }
}

/// The text of a tidy value that is the value of a field at `level`: a
/// struct is a block whose lines are one level deeper, a variant with named
/// fields is its name and a block whose lines are at `level`, a variant with
/// one value is its name, ` = `, the text of the value and `;`, and any flat
/// value is written as a document of its own.
pub open spec fn field_text(v: Value, level: nat) -> Seq<char>
    decreases v, 0nat,
{
    match v {
        Value::Struct { name, fields } => "{\n"@ + field_lines(
            fields@,
            fields@.len(),
            level + 1,
        ) + "\n}"@,
        Value::StructVariant { variant, fields } => variant@ + " = {\n"@ + field_lines(
            fields@,
            fields@.len(),
            level,
        ) + "\n};"@,
        Value::Present(inner) => field_text(*inner, level),
        Value::NewtypeVariant { variant, value } => variant@ + " = "@ + field_text(*value, level)
            + ";"@,
        _ => formatted(v),
    }
}

/// The lines of the first `n` of `fields` at `level`, one line for each
/// field, with a line break between two lines.
pub open spec fn field_lines(fields: Seq<(String, Value)>, n: nat, level: nat) -> Seq<char>
    decreases fields, n,
{
    if n == 0 || n > fields.len() {
        Seq::empty()
    } else {
        next_line(
            field_lines(fields, (n - 1) as nat, level),
            line(level, fields[n - 1].0@, field_text(fields[n - 1].1, level)),
        )
    }
}

/// `s` at another level.
pub open spec fn at_level(s: State, level: nat) -> State {
    State { indent: level, ..s }
}

proof fn lemma_flat_bytes(s: State, bytes: Seq<u8>, n: nat, level: nat)
    ensures
        at_level(s, level).bytes(bytes, n) == at_level(s.bytes(bytes, n), level),
    decreases n,
{
    if n == 0 || n > bytes.len() {
    } else {
        lemma_flat_bytes(s, bytes, (n - 1) as nat, level);
    }
}

/// A flat value is written alike at every level, and leaves the level as it
/// found it.
pub proof fn law_flat_any_level(s: State, v: Value, level: nat)
    requires
        flat(v),
    ensures
        at_level(s, level).value(v) == at_level(s.value(v), level),
        s.value(v).indent == s.indent,
    decreases v, 0nat,
{
    match v {
        Value::Bytes(bytes) => {
            lemma_flat_bytes(s.open_seq(), bytes@, bytes@.len(), level);
            lemma_flat_bytes(s.open_seq(), bytes@, bytes@.len(), s.indent);
        },
        Value::Present(inner) => {
            law_flat_any_level(s, *inner, level);
        },
        Value::Sequence(items) | Value::Tuple(items) => {
            lemma_flat_elements(s.open_seq(), items@, items@.len(), level);
        },
        Value::Mapping(entries) => {
            lemma_flat_entries(s.open_map(), entries@, entries@.len(), level);
        },
        Value::NewtypeVariant { variant, value } => {
            law_flat_any_level(s.open_newtype_variant(variant@), *value, level);
        },
        Value::TupleVariant { variant, items } => {
            lemma_flat_elements(s.open_tuple_variant(variant@), items@, items@.len(), level);
        },
        _ => {},
    }
}

proof fn lemma_flat_elements(s: State, items: Seq<Value>, n: nat, level: nat)
    requires
        flat_items(items, n),
    ensures
        at_level(s, level).elements(items, n) == at_level(s.elements(items, n), level),
        s.elements(items, n).indent == s.indent,
    decreases items, n,
{
    if n == 0 || n > items.len() {
    } else {
        let earlier = s.elements(items, (n - 1) as nat);
        lemma_flat_elements(s, items, (n - 1) as nat, level);
        law_flat_any_level(earlier.before_element(), items[n - 1], level);
    }
}

proof fn lemma_flat_entries(s: State, entries: Seq<(Value, Value)>, n: nat, level: nat)
    requires
        flat_entries(entries, n),
    ensures
        at_level(s, level).entries(entries, n) == at_level(s.entries(entries, n), level),
        s.entries(entries, n).indent == s.indent,
    decreases entries, n,
{
    if n == 0 || n > entries.len() {
    } else {
        let earlier = s.entries(entries, (n - 1) as nat);
        let at_key = earlier.before_key();
        let keyed = at_key.value(entries[n - 1].0);
        lemma_flat_entries(s, entries, (n - 1) as nat, level);
        law_flat_any_level(at_key, entries[n - 1].0, level);
        law_flat_any_level(keyed.before_map_value(), entries[n - 1].1, level);
    }
}

proof fn lemma_flat_first_key(entries: Seq<(Value, Value)>, n: nat)
    requires
        0 < n <= entries.len(),
        flat_entries(entries, n),
    ensures
        flat(entries[0].0),
    decreases n,
{
    if n > 1 {
        lemma_flat_first_key(entries, (n - 1) as nat);
    }
}

proof fn lemma_flat_is_not_struct(v: Value)
    requires
        flat(v),
    ensures
        !opens_with_struct(v),
    decreases v,
{
    match v {
        Value::Present(inner) => {
            lemma_flat_is_not_struct(*inner);
        },
        Value::Mapping(entries) => {
            if entries@.len() > 0 {
                lemma_flat_first_key(entries@, entries@.len());
                lemma_flat_is_not_struct(entries@[0].0);
            }
        },
        _ => {},
    }
}

/// After a neutral end of the output, a flat value is written as it is
/// written as a document of its own, at every level.
pub proof fn law_flat_value(s: State, v: Value)
    requires
        flat(v),
        neutral(s.output),
        !s.first_key,
    ensures
        s.value(v) == s.put(formatted(v)),
{
    let empty = State { output: Seq::empty(), ..s };
    assert(s == shifted(s.output, empty)) by {
        lemma_put_nothing(s);
    }
    lemma_flat_is_not_struct(v);
    law_shift_value(s.output, empty, v);
    law_flat_any_level(State::start(), v, s.indent);
    law_value_appends(State::start(), v);
    assert(empty == at_level(State::start(), s.indent));
}

/// The name of a block and its lines, written one after the other.
proof fn lemma_named_block(s: State, name: Seq<char>, lines: Seq<char>, close: Seq<char>)
    ensures
        s.put(name).put(" = {\n"@).put(lines).put(close) == s.put(
            name + " = {\n"@ + lines + close,
        ),
        s.put(name).put(" = {\n"@).put(lines) == s.put(name + " = {\n"@ + lines),
        !ends_in(s.put(name).put(" = {\n"@).output, ';'),
{
    reveal_strlit(" = {\n");
    lemma_put_end(s.put(name), " = {\n"@);
    lemma_put_put(s, name, " = {\n"@);
    lemma_put_put(s, name + " = {\n"@, lines);
    lemma_put_put(s, name + " = {\n"@ + lines, close);
}

/// A tidy value that is the value of a field is written as `field_text`
/// says, and leaves the level as it found it: a struct opens with `{` and a
/// line break, goes one level deeper for the lines of its fields, and comes
/// back when it closes with `}` on a line of its own.
pub proof fn law_nested_struct(s: State, v: Value)
    requires
        tidy(v),
        ends_with_assign(s.output),
        !s.first_key,
    ensures
        s.value(v) == s.put(field_text(v, s.indent)),
    decreases v, 0nat,
{
    match v {
        Value::Struct { name, fields } => {
            let lines = field_lines(fields@, fields@.len(), s.indent + 1);
            let opened = s.open_struct(name@);
            assert(opened == s.put("{\n"@).deeper());
            assert(!ends_in(opened.output, ';')) by {
                reveal_strlit("{\n");
                lemma_put_end(s, "{\n"@);
            }
            law_field_lines(opened, fields@, fields@.len());
            assert(opened.put(lines).close_struct() == s.put("{\n"@).put(lines).put("\n}"@));
            lemma_put_put(s, "{\n"@, lines);
            lemma_put_put(s, "{\n"@ + lines, "\n}"@);
        },
        Value::StructVariant { variant, fields } => {
            let lines = field_lines(fields@, fields@.len(), s.indent);
            lemma_named_block(s, variant@, lines, "\n};"@);
            law_field_lines(s.open_struct_variant(variant@), fields@, fields@.len());
        },
        Value::Present(inner) => {
            law_nested_struct(s, *inner);
        },
        Value::NewtypeVariant { variant, value } => {
            let text = field_text(*value, s.indent);
            lemma_put_assign(s.put(variant@));
            law_nested_struct(s.put(variant@).put(" = "@), *value);
            assert(s.value(v) == s.put(variant@).put(" = "@).put(text).put(";"@));
            lemma_put_put(s, variant@, " = "@);
            lemma_put_put(s, variant@ + " = "@, text);
            lemma_put_put(s, variant@ + " = "@ + text, ";"@);
        },
        _ => {
            law_flat_value(s, v);
        },
    }
}

/// The fields of a struct, when their values are tidy, are written one on
/// each line at the level of the struct.
pub proof fn law_field_lines(s: State, fields: Seq<(String, Value)>, n: nat)
    requires
        n <= fields.len(),
        tidy_fields(fields, n),
        !ends_in(s.output, ';'),
        !s.first_key,
    ensures
        s.fields(fields, n) == s.put(field_lines(fields, n, s.indent)),
        n > 0 ==> ends_in(field_lines(fields, n, s.indent), ';'),
    decreases fields, n,
{
    if n == 0 {
        lemma_put_nothing(s);
    } else {
        let key = fields[n - 1].0@;
        let value = fields[n - 1].1;
        let before = field_lines(fields, (n - 1) as nat, s.indent);
        law_field_lines(s, fields, (n - 1) as nat);
        lemma_before_field(s.put(before), key);
        law_nested_struct(s.put(before).before_field(key), value);
        lemma_field_line(s, before, key, value, field_text(value, s.indent));
    }
}

/// An outermost struct whose fields hold tidy values is written as the
/// lines of its fields at level 0, without a name and without braces.
pub proof fn law_outermost_tidy_struct(name: String, fields: Vec<(String, Value)>)
    requires
        tidy(Value::Struct { name, fields }),
    ensures
        formatted(Value::Struct { name, fields }) == field_lines(fields@, fields@.len(), 0),
{
    let lines = field_lines(fields@, fields@.len(), 0);
    law_field_lines(State::start(), fields@, fields@.len());
    assert(Seq::<char>::empty() + lines == lines);
}

/// A struct that is neither the outermost value nor the value of a field
/// is written under the name of its type: the name, ` = {`, and the lines of
/// its fields at the level at which it was found. It does not go deeper,
/// but when it closes it goes one level up and writes `}` on a line of its
/// own, unless the level is 0. This holds of fields with tidy values.
pub proof fn law_named_struct(s: State, name: String, fields: Vec<(String, Value)>)
    requires
        s.output.len() > 0,
        !ends_with_assign(s.output),
        !s.first_key,
        tidy_fields(fields@, fields@.len()),
    ensures
        s.value(Value::Struct { name, fields }) == s.put(
            name@ + " = {\n"@ + field_lines(fields@, fields@.len(), s.indent),
        ).close_struct(),
{
    let lines = field_lines(fields@, fields@.len(), s.indent);
    lemma_named_block(s, name@, lines, Seq::empty());
    law_field_lines(s.put(name@).put(" = {\n"@), fields@, fields@.len());
}

/// A variant that carries named fields is written as its name, ` = {`, the
/// lines of its fields at the level at which it was found, and `};` on a
/// line of its own. It leaves the level as it found it. This holds of
/// fields with tidy values.
pub proof fn law_struct_variant(s: State, variant: String, fields: Vec<(String, Value)>)
    requires
        tidy_fields(fields@, fields@.len()),
        !s.first_key,
    ensures
        s.value(Value::StructVariant { variant, fields }) == s.put(
            variant@ + " = {\n"@ + field_lines(fields@, fields@.len(), s.indent) + "\n};"@,
        ),
{
    let lines = field_lines(fields@, fields@.len(), s.indent);
    lemma_named_block(s, variant@, lines, "\n};"@);
    law_field_lines(s.open_struct_variant(variant@), fields@, fields@.len());
}

/// As the outermost value, a variant that carries named fields is its name,
/// ` = {`, the lines of its fields at level 0, and `};` on a line of its
/// own. This holds of fields with tidy values.
pub proof fn law_outermost_struct_variant(variant: String, fields: Vec<(String, Value)>)
    requires
        tidy_fields(fields@, fields@.len()),
    ensures
        formatted(Value::StructVariant { variant, fields }) == variant@ + " = {\n"@ + field_lines(
            fields@,
            fields@.len(),
            0,
        ) + "\n};"@,
{
    let text = variant@ + " = {\n"@ + field_lines(fields@, fields@.len(), 0) + "\n};"@;
    law_struct_variant(State::start(), variant, fields);
    assert(Seq::<char>::empty() + text == text);
}

} // verus!
