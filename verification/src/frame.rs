use crate::growth::{law_elements_append, law_fields_append, law_value_appends};
use crate::model::{
    decimal, ends_in, ends_with_assign, indentation, lemma_put_end, scalar_text, State,
};
use crate::value::Value;
use vstd::prelude::*;

verus! {

/// `s` as it would be if `prefix` had been written before everything else.
pub open spec fn shifted(prefix: Seq<char>, s: State) -> State {
    State { output: prefix + s.output, ..s }
}

/// The end of `text`, with one space after it, cannot be taken for the
/// start of a field's value: `text` does not end with `=`.
pub open spec fn neutral(text: Seq<char>) -> bool {
    !ends_in(text, '=')
}

/// The first thing that writing `v` does is to open a struct: `v` is a
/// struct, a present optional value that opens with one, or a map whose
/// first key opens with one.
pub open spec fn opens_with_struct(v: Value) -> bool
    decreases v,
{
    match v {
        Value::Struct { .. } => true,
        Value::Present(inner) => opens_with_struct(*inner),
        Value::Mapping(entries) => entries@.len() > 0 && opens_with_struct(entries@[0].0),
        _ => false,
    }
}

proof fn lemma_shift_put(prefix: Seq<char>, s: State, text: Seq<char>)
    ensures
        shifted(prefix, s).put(text) == shifted(prefix, s.put(text)),
{
    assert((prefix + s.output) + text == prefix + (s.output + text));
}

/// After a neutral prefix, an output that is not empty ends as it does
/// without the prefix. An empty output hides the end of the prefix.
proof fn lemma_shift_tail(prefix: Seq<char>, text: Seq<char>)
    requires
        neutral(prefix),
    ensures
        text.len() > 0 || !ends_in(prefix, '[') ==> ends_in(prefix + text, '[') == ends_in(
            text,
            '[',
        ),
        text.len() > 0 || !ends_in(prefix, ';') ==> ends_in(prefix + text, ';') == ends_in(
            text,
            ';',
        ),
        text.len() > 0 ==> ends_with_assign(prefix + text) == ends_with_assign(text),
        text.len() > 0 ==> (prefix + text).len() > 0,
{
    if text.len() == 0 {
        assert(prefix + text == prefix);
    } else {
        assert((prefix + text).last() == text.last());
        if text.len() >= 2 {
            assert((prefix + text)[(prefix + text).len() - 2] == text[text.len() - 2]);
        } else if prefix.len() > 0 {
            assert((prefix + text)[(prefix + text).len() - 2] == prefix.last());
        }
    }
}

proof fn lemma_shift_before_element(prefix: Seq<char>, s: State)
    requires
        neutral(prefix),
        s.output.len() > 0 || !ends_in(prefix, '['),
    ensures
        shifted(prefix, s).before_element() == shifted(prefix, s.before_element()),
        s.before_element().output.len() > 0,
{
    reveal_strlit(",");
    lemma_shift_tail(prefix, s.output);
    lemma_shift_put(prefix, s, ","@);
}

proof fn lemma_shift_bytes(prefix: Seq<char>, s: State, bytes: Seq<u8>, n: nat)
    requires
        neutral(prefix),
        s.output.len() > 0 || !ends_in(prefix, '['),
    ensures
        shifted(prefix, s).bytes(bytes, n) == shifted(prefix, s.bytes(bytes, n)),
    decreases n,
{
    if n == 0 || n > bytes.len() {
    } else {
        let earlier = s.bytes(bytes, (n - 1) as nat);
        lemma_shift_bytes(prefix, s, bytes, (n - 1) as nat);
        lemma_shift_before_element(prefix, earlier);
        lemma_shift_put(prefix, earlier.before_element(), decimal(bytes[n - 1] as nat));
    }
}

/// What a value writes does not depend on what stands before a neutral
/// prefix of the output: with the prefix in place the same text is written
/// and the same level is reached. Only a value that opens with a struct
/// must not find the output empty, because an empty output makes it the
/// outermost value.
pub proof fn law_shift_value(prefix: Seq<char>, s: State, v: Value)
    requires
        neutral(prefix),
        s.output.len() > 0 || !opens_with_struct(v),
    ensures
        shifted(prefix, s).value(v) == shifted(prefix, s.value(v)),
    decreases v, 0nat,
{
    reveal_strlit("[");
    reveal_strlit(" = ");
    reveal_strlit(" = [");
    reveal_strlit(" = {\n");
    match v {
        Value::Bytes(bytes) => {
            let opened = s.open_seq();
            lemma_shift_put(prefix, s, "["@);
            lemma_shift_bytes(prefix, opened, bytes@, bytes@.len());
            lemma_shift_put(prefix, opened.bytes(bytes@, bytes@.len()), "]"@);
        },
        Value::Present(inner) => {
            law_shift_value(prefix, s, *inner);
        },
        Value::Sequence(items) | Value::Tuple(items) => {
            let opened = s.open_seq();
            lemma_shift_put(prefix, s, "["@);
            law_shift_elements(prefix, opened, items@, items@.len());
            lemma_shift_put(prefix, opened.elements(items@, items@.len()), "]"@);
        },
        Value::Mapping(entries) => {
            let opened = s.open_map();
            assert(shifted(prefix, s).open_map() == shifted(prefix, opened));
            law_shift_entries(prefix, opened, entries@, entries@.len());
            lemma_shift_put(prefix, opened.entries(entries@, entries@.len()), ";"@);
        },
        Value::Struct { name, fields } => {
            lemma_shift_tail(prefix, s.output);
            lemma_shift_put(prefix, s, "{\n"@);
            lemma_shift_put(prefix, s, name@);
            lemma_shift_put(prefix, s.put(name@), " = {\n"@);
            let opened = s.open_struct(name@);
            assert(shifted(prefix, s).open_struct(name@) == shifted(prefix, opened));
            law_shift_fields(prefix, opened, fields@, fields@.len());
            let filled = opened.fields(fields@, fields@.len());
            lemma_shift_put(prefix, filled, "\n}"@);
            assert(shifted(prefix, filled).close_struct() == shifted(
                prefix,
                filled.close_struct(),
            ));
        },
        Value::NewtypeVariant { variant, value } => {
            let opened = s.open_newtype_variant(variant@);
            lemma_shift_put(prefix, s, variant@);
            lemma_shift_put(prefix, s.put(variant@), " = "@);
            law_shift_value(prefix, opened, *value);
            lemma_shift_put(prefix, opened.value(*value), ";"@);
        },
        Value::TupleVariant { variant, items } => {
            let opened = s.open_tuple_variant(variant@);
            lemma_shift_put(prefix, s, variant@);
            lemma_shift_put(prefix, s.put(variant@), " = ["@);
            law_shift_elements(prefix, opened, items@, items@.len());
            lemma_shift_put(prefix, opened.elements(items@, items@.len()), "];"@);
        },
        Value::StructVariant { variant, fields } => {
            let opened = s.open_struct_variant(variant@);
            lemma_shift_put(prefix, s, variant@);
            lemma_shift_put(prefix, s.put(variant@), " = {\n"@);
            law_shift_fields(prefix, opened, fields@, fields@.len());
            let filled = opened.fields(fields@, fields@.len());
            lemma_shift_put(prefix, filled, "\n};"@);
            assert(shifted(prefix, filled).close_struct_variant() == shifted(
                prefix,
                filled.close_struct_variant(),
            ));
        },
        _ => {
            lemma_shift_put(prefix, s, scalar_text(v));
        },
    }
}

/// The elements of a sequence are written alike with and without a neutral
/// prefix, unless the prefix alone is taken for the opening bracket.
pub proof fn law_shift_elements(prefix: Seq<char>, s: State, items: Seq<Value>, n: nat)
    requires
        neutral(prefix),
        s.output.len() > 0 || !ends_in(prefix, '['),
    ensures
        shifted(prefix, s).elements(items, n) == shifted(prefix, s.elements(items, n)),
    decreases items, n,
{
    if n == 0 || n > items.len() {
    } else {
        let earlier = s.elements(items, (n - 1) as nat);
        law_shift_elements(prefix, s, items, (n - 1) as nat);
        law_elements_append(s, items, (n - 1) as nat);
        lemma_shift_before_element(prefix, earlier);
        law_shift_value(prefix, earlier.before_element(), items[n - 1]);
    }
}

/// The entries of a map are written alike with and without a neutral
/// prefix, unless the first key opens with a struct and finds the output
/// empty.
pub proof fn law_shift_entries(prefix: Seq<char>, s: State, entries: Seq<(Value, Value)>, n: nat)
    requires
        neutral(prefix),
        s.output.len() > 0 || entries.len() == 0 || !opens_with_struct(entries[0].0),
    ensures
        shifted(prefix, s).entries(entries, n) == shifted(prefix, s.entries(entries, n)),
        0 < n <= entries.len() ==> s.entries(entries, n).output.len() > 0,
    decreases entries, n,
{
    if n == 0 || n > entries.len() {
    } else {
        reveal_strlit(",");
        reveal_strlit(" = ");
        let earlier = s.entries(entries, (n - 1) as nat);
        let at_key = earlier.before_key();
        let keyed = at_key.value(entries[n - 1].0);
        let at_value = keyed.before_map_value();
        law_shift_entries(prefix, s, entries, (n - 1) as nat);
        lemma_shift_put(prefix, earlier, ","@);
        assert(shifted(prefix, earlier).before_key() == shifted(prefix, at_key));
        law_shift_value(prefix, at_key, entries[n - 1].0);
        lemma_put_end(keyed, " = "@);
        lemma_shift_put(prefix, keyed, " = "@);
        law_shift_value(prefix, at_value, entries[n - 1].1);
        law_value_appends(at_value, entries[n - 1].1);
    }
}

/// The fields of a struct are written alike with and without a neutral
/// prefix, unless the prefix alone is taken for the end of a field.
pub proof fn law_shift_fields(prefix: Seq<char>, s: State, fields: Seq<(String, Value)>, n: nat)
    requires
        neutral(prefix),
        s.output.len() > 0 || !ends_in(prefix, ';'),
    ensures
        shifted(prefix, s).fields(fields, n) == shifted(prefix, s.fields(fields, n)),
    decreases fields, n,
{
    if n == 0 || n > fields.len() {
    } else {
        reveal_strlit(" = ");
        let earlier = s.fields(fields, (n - 1) as nat);
        let key = fields[n - 1].0@;
        let at_value = earlier.before_field(key);
        let valued = at_value.value(fields[n - 1].1);
        law_shift_fields(prefix, s, fields, (n - 1) as nat);
        law_fields_append(s, fields, (n - 1) as nat);
        lemma_shift_tail(prefix, earlier.output);
        let line = if ends_in(earlier.output, ';') {
            earlier.put("\n"@)
        } else {
            earlier
        };
        lemma_shift_put(prefix, earlier, "\n"@);
        lemma_shift_put(prefix, line, indentation(earlier.indent));
        lemma_shift_put(prefix, line.put(indentation(earlier.indent)), key);
        lemma_shift_put(prefix, line.put(indentation(earlier.indent)).put(key), " = "@);
        assert(shifted(prefix, earlier).before_field(key) == shifted(prefix, at_value));
        law_shift_value(prefix, at_value, fields[n - 1].1);
        lemma_shift_put(prefix, valued, ";"@);
    }
}

} // verus!
