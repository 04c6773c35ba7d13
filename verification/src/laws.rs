use crate::frame::{law_shift_value, neutral, opens_with_struct, shifted};
use crate::growth::law_value_appends;
use crate::model::{
    decimal, digit, ends_in, formatted, indentation, lemma_before_field, lemma_field_line,
    lemma_put_assign, lemma_put_end, lemma_put_nothing, lemma_put_put, line, next_line, quote,
    scalar_text, signed_decimal, State,
};
use crate::value::Value;
use vstd::prelude::*;

verus! {

/// `c` is one of the ten decimal digits.
pub open spec fn is_digit(c: char) -> bool {
    exists|d: nat| d < 10 && c == digit(d)
}

/// A decimal representation is never empty, and it ends with the digit of
/// the units.
pub proof fn law_decimal_ends_with_digit(n: nat)
    ensures
        decimal(n).len() > 0,
        decimal(n).last() == digit(n % 10),
        is_digit(decimal(n).last()),
{
    assert(n % 10 < 10);
}

/// A signed 64-bit integer is written as its decimal representation
/// followed by `L`.
pub proof fn law_signed_long(v: i64)
    ensures
        formatted(Value::I64(v)) == signed_decimal(v as int) + seq!['L'],
        formatted(Value::I64(v)).last() == 'L',
{
    reveal_strlit("L");
    assert("L"@ == seq!['L']);
    assert(Seq::<char>::empty() + (signed_decimal(v as int) + "L"@) == signed_decimal(v as int)
        + "L"@);
}

/// An unsigned 64-bit integer is written as its decimal representation
/// followed by `UL`.
pub proof fn law_unsigned_long(v: u64)
    ensures
        formatted(Value::U64(v)) == decimal(v as nat) + seq!['U', 'L'],
{
    reveal_strlit("UL");
    assert("UL"@ == seq!['U', 'L']);
    assert(Seq::<char>::empty() + (decimal(v as nat) + "UL"@) == decimal(v as nat) + "UL"@);
}

/// An integer of 8, 16 or 32 bits is written as its decimal representation
/// and nothing more: the text ends with a digit.
pub proof fn law_narrow_integers(a: i8, b: i16, c: i32, d: u8, e: u16, f: u32)
    ensures
        formatted(Value::I8(a)) == signed_decimal(a as int),
        formatted(Value::I16(b)) == signed_decimal(b as int),
        formatted(Value::I32(c)) == signed_decimal(c as int),
        formatted(Value::U8(d)) == decimal(d as nat),
        formatted(Value::U16(e)) == decimal(e as nat),
        formatted(Value::U32(f)) == decimal(f as nat),
        is_digit(formatted(Value::I8(a)).last()),
        is_digit(formatted(Value::I16(b)).last()),
        is_digit(formatted(Value::I32(c)).last()),
        is_digit(formatted(Value::U8(d)).last()),
        is_digit(formatted(Value::U16(e)).last()),
        is_digit(formatted(Value::U32(f)).last()),
{
    lemma_signed_ends_with_digit(a as int);
    lemma_signed_ends_with_digit(b as int);
    lemma_signed_ends_with_digit(c as int);
    law_decimal_ends_with_digit(d as nat);
    law_decimal_ends_with_digit(e as nat);
    law_decimal_ends_with_digit(f as nat);
    assert(Seq::<char>::empty() + signed_decimal(a as int) == signed_decimal(a as int));
    assert(Seq::<char>::empty() + signed_decimal(b as int) == signed_decimal(b as int));
    assert(Seq::<char>::empty() + signed_decimal(c as int) == signed_decimal(c as int));
    assert(Seq::<char>::empty() + decimal(d as nat) == decimal(d as nat));
    assert(Seq::<char>::empty() + decimal(e as nat) == decimal(e as nat));
    assert(Seq::<char>::empty() + decimal(f as nat) == decimal(f as nat));
}

proof fn lemma_signed_ends_with_digit(i: int)
    ensures
        signed_decimal(i).len() > 0,
        is_digit(signed_decimal(i).last()),
{
    if i < 0 {
        law_decimal_ends_with_digit((-i) as nat);
        assert((seq!['-'] + decimal((-i) as nat)).last() == decimal((-i) as nat).last());
    } else {
        law_decimal_ends_with_digit(i as nat);
    }
}

/// A string is written between double quotes with its characters as they
/// are, whatever they are.
pub proof fn law_string(s: String)
    ensures
        formatted(Value::Str(s)) == seq!['"'] + s@ + seq!['"'],
{
    reveal_strlit("\"");
    assert("\""@ == seq!['"']);
    assert(Seq::<char>::empty() + quote(s@) == quote(s@));
}

/// A variant without payload is written as its name between double quotes.
pub proof fn law_unit_variant(variant: String)
    ensures
        formatted(Value::UnitVariant { variant }) == seq!['"'] + variant@ + seq!['"'],
{
    reveal_strlit("\"");
    assert("\""@ == seq!['"']);
    assert(Seq::<char>::empty() + quote(variant@) == quote(variant@));
}

/// After a neutral end of the output at level 0, a value that does not open
/// with a struct is written as it is written as a document of its own.
pub proof fn law_value_after_text(s: State, v: Value)
    requires
        s.indent == 0,
        !s.first_key,
        neutral(s.output),
        !opens_with_struct(v),
    ensures
        s.value(v) == s.put(formatted(v)),
{
    assert(s == shifted(s.output, State::start())) by {
        lemma_put_nothing(s);
    }
    law_shift_value(s.output, State::start(), v);
    law_value_appends(State::start(), v);
}

/// The lines of the first `n` of `fields` in the outermost struct, one line
/// for each field with its value as a document of its own, and a line break
/// between two lines.
pub open spec fn document_lines(fields: Seq<(String, Value)>, n: nat) -> Seq<char>
    decreases n,
{
    if n == 0 || n > fields.len() {
        Seq::empty()
    } else {
        next_line(
            document_lines(fields, (n - 1) as nat),
            line(0, fields[n - 1].0@, formatted(fields[n - 1].1)),
        )
    }
}

proof fn lemma_document_lines(fields: Seq<(String, Value)>, n: nat)
    requires
        n <= fields.len(),
        forall|i: int| 0 <= i < fields.len() ==> !opens_with_struct((#[trigger] fields[i]).1),
    ensures
        State::start().fields(fields, n) == State::start().put(document_lines(fields, n)),
        n > 0 ==> ends_in(document_lines(fields, n), ';'),
    decreases n,
{
    let s = State::start();
    if n == 0 {
        lemma_put_nothing(s);
    } else {
        let key = fields[n - 1].0@;
        let value = fields[n - 1].1;
        let before = document_lines(fields, (n - 1) as nat);
        lemma_document_lines(fields, (n - 1) as nat);
        lemma_before_field(s.put(before), key);
        assert(!opens_with_struct(value));
        law_value_after_text(s.put(before).before_field(key), value);
        lemma_field_line(s, before, key, value, formatted(value));
    }
}

/// The outermost struct is written without a name and without braces, one
/// line for each field: the field's name, ` = `, the field's value as a
/// document of its own, and `;`. This holds of fields whose values do not
/// open with a struct; a struct as a field's value is a block.
pub proof fn law_outermost_struct(name: String, fields: Vec<(String, Value)>)
    requires
        forall|i: int| 0 <= i < fields@.len() ==> !opens_with_struct((#[trigger] fields@[i]).1),
    ensures
        formatted(Value::Struct { name, fields }) == document_lines(fields@, fields@.len()),
{
    lemma_document_lines(fields@, fields@.len());
    assert(Seq::<char>::empty() + document_lines(fields@, fields@.len()) == document_lines(
        fields@,
        fields@.len(),
    ));
}

/// With two fields the outermost struct is two lines with one line break
/// between them.
pub proof fn law_outermost_struct_of_two(name: String, fields: Vec<(String, Value)>)
    requires
        fields@.len() == 2,
        !opens_with_struct(fields@[0].1),
        !opens_with_struct(fields@[1].1),
    ensures
        formatted(Value::Struct { name, fields }) == fields@[0].0@ + " = "@ + formatted(
            fields@[0].1,
        ) + ";"@ + "\n"@ + fields@[1].0@ + " = "@ + formatted(fields@[1].1) + ";"@,
{
    let first = fields@[0].0@ + " = "@ + formatted(fields@[0].1) + ";"@;
    let second = fields@[1].0@ + " = "@ + formatted(fields@[1].1) + ";"@;
    law_outermost_struct(name, fields);
    reveal_strlit(";");
    assert(indentation(0) == Seq::<char>::empty());
    assert(line(0, fields@[0].0@, formatted(fields@[0].1)) == first);
    assert(line(0, fields@[1].0@, formatted(fields@[1].1)) == second);
    assert(document_lines(fields@, 0) == Seq::<char>::empty());
    assert(document_lines(fields@, 1) == first);
    assert(first + "\n"@ + second == first + "\n"@ + fields@[1].0@ + " = "@ + formatted(
        fields@[1].1,
    ) + ";"@);
}

/// What `v` writes as a document has an end of its own, and `v` is written
/// alike as an element: its text is not empty and does not end with `[`,
/// and it does not open with a struct. The first can fail only of the text
/// that a real number is given as.
pub open spec fn ends_closed(v: Value) -> bool
    decreases v,
{
    match v {
        Value::Real(text) => text@.len() > 0 && !ends_in(text@, '['),
        Value::Present(inner) => ends_closed(*inner),
        _ => !opens_with_struct(v),
    }
}

proof fn lemma_digit_is_no_bracket(c: char)
    requires
        is_digit(c),
    ensures
        c != '[',
{
}

/// The text of a value with an end of its own is not empty and does not end
/// with `[`, and the value does not open with a struct.
pub proof fn law_document_end(v: Value)
    requires
        ends_closed(v),
    ensures
        formatted(v).len() > 0,
        !ends_in(formatted(v), '['),
        !opens_with_struct(v),
    decreases v,
{
    let s = State::start();
    match v {
        Value::Present(inner) => {
            law_document_end(*inner);
        },
        Value::Bytes(bytes) => {
            reveal_strlit("]");
            lemma_put_end(s.open_seq().bytes(bytes@, bytes@.len()), "]"@);
        },
        Value::Sequence(items) | Value::Tuple(items) => {
            reveal_strlit("]");
            lemma_put_end(s.open_seq().elements(items@, items@.len()), "]"@);
        },
        Value::Mapping(entries) => {
            reveal_strlit(";");
            lemma_put_end(s.open_map().entries(entries@, entries@.len()), ";"@);
        },
        Value::NewtypeVariant { variant, value } => {
            reveal_strlit(";");
            lemma_put_end(s.open_newtype_variant(variant@).value(*value), ";"@);
        },
        Value::TupleVariant { variant, items } => {
            reveal_strlit("];");
            lemma_put_end(s.open_tuple_variant(variant@).elements(items@, items@.len()), "];"@);
        },
        Value::StructVariant { variant, fields } => {
            reveal_strlit("\n};");
            lemma_put_end(s.open_struct_variant(variant@).fields(fields@, fields@.len()), "\n};"@);
        },
        Value::Struct { .. } => {},
        _ => {
            lemma_scalar_end(v);
            lemma_put_end(s, scalar_text(v));
        },
    }
}

/// The text of a scalar other than a real number is not empty and does not
/// end with `[`.
proof fn lemma_scalar_end(v: Value)
    requires
        ends_closed(v),
    ensures
        scalar_text(v).len() > 0 || v is Bytes || v is Present || v is Sequence || v is Tuple
            || v is Mapping || v is Struct || v is NewtypeVariant || v is TupleVariant
            || v is StructVariant,
        scalar_text(v).len() > 0 ==> scalar_text(v).last() != '[',
{
    reveal_strlit("true");
    reveal_strlit("false");
    reveal_strlit("null");
    reveal_strlit("L");
    reveal_strlit("UL");
    reveal_strlit("\"");
    match v {
        Value::I8(i) => {
            lemma_signed_ends_with_digit(i as int);
            lemma_digit_is_no_bracket(signed_decimal(i as int).last());
        },
        Value::I16(i) => {
            lemma_signed_ends_with_digit(i as int);
            lemma_digit_is_no_bracket(signed_decimal(i as int).last());
        },
        Value::I32(i) => {
            lemma_signed_ends_with_digit(i as int);
            lemma_digit_is_no_bracket(signed_decimal(i as int).last());
        },
        Value::U8(u) => {
            law_decimal_ends_with_digit(u as nat);
            lemma_digit_is_no_bracket(decimal(u as nat).last());
        },
        Value::U16(u) => {
            law_decimal_ends_with_digit(u as nat);
            lemma_digit_is_no_bracket(decimal(u as nat).last());
        },
        Value::U32(u) => {
            law_decimal_ends_with_digit(u as nat);
            lemma_digit_is_no_bracket(decimal(u as nat).last());
        },
        _ => {},
    }
}

/// The first `n` of `items`, each written as a document of its own, with a
/// comma between two of them.
pub open spec fn joined(items: Seq<Value>, n: nat) -> Seq<char>
    decreases n,
{
    if n == 0 || n > items.len() {
        Seq::empty()
    } else if n == 1 {
        formatted(items[0])
    } else {
        joined(items, (n - 1) as nat) + ","@ + formatted(items[n - 1])
    }
}

/// After an opening bracket at level 0, elements with an end of their own
/// are written with a comma before each but the first.
proof fn lemma_elements_joined(s: State, items: Seq<Value>, n: nat)
    requires
        s.indent == 0,
        !s.first_key,
        ends_in(s.output, '['),
        n <= items.len(),
        forall|i: int| 0 <= i < items.len() ==> ends_closed(#[trigger] items[i]),
    ensures
        s.elements(items, n) == s.put(joined(items, n)),
        n > 0 ==> joined(items, n).len() > 0 && !ends_in(joined(items, n), '['),
    decreases n,
{
    if n == 0 {
        lemma_put_nothing(s);
    } else {
        let item = items[n - 1];
        let text = formatted(item);
        let before = joined(items, (n - 1) as nat);
        lemma_elements_joined(s, items, (n - 1) as nat);
        assert(ends_closed(item));
        law_document_end(item);
        if n == 1 {
            lemma_put_nothing(s);
            assert(s.before_element() == s);
            law_value_after_text(s, item);
        } else {
            reveal_strlit(",");
            let earlier = s.put(before);
            lemma_put_end(s, before);
            assert(earlier.before_element() == earlier.put(","@));
            lemma_put_put(s, before, ","@);
            let at_value = s.put(before + ","@);
            lemma_put_end(s, before + ","@);
            law_value_after_text(at_value, item);
            lemma_put_put(s, before + ","@, text);
            assert((before + ","@ + text).last() == text.last());
        }
    }
}

/// A sequence is written as `[`, its elements with a comma between two of
/// them, and `]`, and so is a tuple. This holds of elements that have an end
/// of their own.
pub proof fn law_sequence(items: Vec<Value>)
    requires
        forall|i: int| 0 <= i < items@.len() ==> ends_closed(#[trigger] items@[i]),
    ensures
        formatted(Value::Sequence(items)) == "["@ + joined(items@, items@.len()) + "]"@,
        formatted(Value::Tuple(items)) == formatted(Value::Sequence(items)),
{
    let opened = State::start().open_seq();
    reveal_strlit("[");
    lemma_put_end(State::start(), "["@);
    lemma_elements_joined(opened, items@, items@.len());
    assert(Seq::<char>::empty() + "["@ == "["@);
}

/// A variant that carries one value is written as its name, ` = `, the
/// value as a document of its own, and `;`. This holds of a value that does
/// not open with a struct; a struct here is a block.
pub proof fn law_newtype_variant(variant: String, value: Box<Value>)
    requires
        !opens_with_struct(*value),
    ensures
        formatted(Value::NewtypeVariant { variant, value }) == variant@ + " = "@ + formatted(
            *value,
        ) + ";"@,
{
    let named = State::start().put(variant@);
    lemma_put_assign(named);
    law_value_after_text(named.put(" = "@), *value);
    assert(Seq::<char>::empty() + variant@ == variant@);
}

/// A variant that carries a list of values is written as its name, ` = [`,
/// the values with a comma between two of them, and `];`. This holds of
/// values that have an end of their own.
pub proof fn law_tuple_variant(variant: String, items: Vec<Value>)
    requires
        forall|i: int| 0 <= i < items@.len() ==> ends_closed(#[trigger] items@[i]),
    ensures
        formatted(Value::TupleVariant { variant, items }) == variant@ + " = ["@ + joined(
            items@,
            items@.len(),
        ) + "];"@,
{
    let named = State::start().put(variant@);
    reveal_strlit(" = [");
    lemma_put_end(named, " = ["@);
    lemma_elements_joined(named.put(" = ["@), items@, items@.len());
    assert(Seq::<char>::empty() + variant@ == variant@);
}

proof fn lemma_bytes_as_elements(s: State, bytes: Seq<u8>, items: Seq<Value>, n: nat)
    requires
        items.len() == bytes.len(),
        forall|i: int| 0 <= i < items.len() ==> #[trigger] items[i] == Value::U8(bytes[i]),
    ensures
        s.bytes(bytes, n) == s.elements(items, n),
    decreases n,
{
    if n == 0 || n > bytes.len() {
    } else {
        lemma_bytes_as_elements(s, bytes, items, (n - 1) as nat);
        let at_value = s.bytes(bytes, (n - 1) as nat).before_element();
        assert(items[n - 1] == Value::U8(bytes[n - 1]));
        assert(at_value.value(items[n - 1]) == at_value.put(scalar_text(items[n - 1])));
    }
}

/// A byte sequence is written as the sequence of its bytes, each an
/// unsigned 8-bit integer.
pub proof fn law_bytes(bytes: Vec<u8>, items: Vec<Value>)
    requires
        items@.len() == bytes@.len(),
        forall|i: int| 0 <= i < items@.len() ==> #[trigger] items@[i] == Value::U8(bytes@[i]),
    ensures
        formatted(Value::Bytes(bytes)) == formatted(Value::Sequence(items)),
{
    lemma_bytes_as_elements(State::start().open_seq(), bytes@, items@, bytes@.len());
}

/// The first `n` of `entries`: for each the key as a document of its own,
/// ` = `, and the value as a document of its own, with a comma between two
/// entries.
pub open spec fn paired(entries: Seq<(Value, Value)>, n: nat) -> Seq<char>
    decreases n,
{
    if n == 0 || n > entries.len() {
        Seq::empty()
    } else if n == 1 {
        formatted(entries[0].0) + " = "@ + formatted(entries[0].1)
    } else {
        paired(entries, (n - 1) as nat) + ","@ + formatted(entries[n - 1].0) + " = "@ + formatted(
            entries[n - 1].1,
        )
    }
}

/// Neither the key nor the value of `entry` opens with a struct.
pub open spec fn plain_entry(entry: (Value, Value)) -> bool {
    !opens_with_struct(entry.0) && !opens_with_struct(entry.1)
}

/// A key and its value, written after `s` as documents of their own.
proof fn lemma_entry(s: State, key: Value, value: Value)
    requires
        s.indent == 0,
        !s.first_key,
        neutral(s.output),
        plain_entry((key, value)),
    ensures
        s.value(key).before_map_value().value(value) == s.put(formatted(key)).put(" = "@).put(
            formatted(value),
        ),
{
    law_value_after_text(s, key);
    lemma_put_assign(s.put(formatted(key)));
    law_value_after_text(s.put(formatted(key)).put(" = "@), value);
}

proof fn lemma_entries_paired(entries: Seq<(Value, Value)>, n: nat)
    requires
        0 < n <= entries.len(),
        forall|i: int| 0 <= i < entries.len() ==> plain_entry(#[trigger] entries[i]),
    ensures
        State::start().open_map().entries(entries, n) == State::start().put(paired(entries, n)),
    decreases n,
{
    let s = State::start();
    let key = formatted(entries[n - 1].0);
    let value = formatted(entries[n - 1].1);
    assert(plain_entry(entries[n - 1]));
    if n == 1 {
        assert(s.open_map().entries(entries, 0).before_key() == s);
        lemma_entry(s, entries[0].0, entries[0].1);
        lemma_put_put(s, key, " = "@);
        lemma_put_put(s, key + " = "@, value);
    } else {
        reveal_strlit(",");
        let before = paired(entries, (n - 1) as nat);
        lemma_entries_paired(entries, (n - 1) as nat);
        lemma_put_end(s.put(before), ","@);
        lemma_entry(s.put(before).put(","@), entries[n - 1].0, entries[n - 1].1);
        lemma_put_put(s, before, ","@);
        lemma_put_put(s, before + ","@, key);
        lemma_put_put(s, before + ","@ + key, " = "@);
        lemma_put_put(s, before + ","@ + key + " = "@, value);
    }
}

/// A map is written without brackets: for each entry the key, ` = ` and the
/// value, with a comma between two entries and one `;` after the last. No
/// comma stands before the first key. This holds of entries of which
/// neither the key nor the value opens with a struct.
pub proof fn law_mapping(entries: Vec<(Value, Value)>)
    requires
        forall|i: int| 0 <= i < entries@.len() ==> plain_entry(#[trigger] entries@[i]),
    ensures
        formatted(Value::Mapping(entries)) == paired(entries@, entries@.len()) + ";"@,
{
    let text = paired(entries@, entries@.len());
    let opened = State::start().open_map();
    if entries@.len() > 0 {
        lemma_entries_paired(entries@, entries@.len());
    } else {
        assert(opened.entries(entries@, 0) == opened);
    }
    assert(opened.entries(entries@, entries@.len()).output == Seq::<char>::empty() + text);
    assert(Seq::<char>::empty() + text == text);
}

} // verus!
