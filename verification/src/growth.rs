use crate::model::{decimal, ends_in, indentation, scalar_text, State};
use crate::value::Value;
use vstd::prelude::*;

verus! {

/// `later` can be reached from `earlier` by writing: the output has only
/// grown at its end, and the indentation is not deeper.
pub open spec fn follows(earlier: State, later: State) -> bool {
    earlier.output.is_prefix_of(later.output) && later.indent <= earlier.indent
}

proof fn lemma_follows_put(s: State, text: Seq<char>)
    ensures
        follows(s, s.put(text)),
{
    assert((s.output + text).subrange(0, s.output.len() as int) == s.output);
}

proof fn lemma_follows_chain(a: State, b: State, c: State)
    requires
        follows(a, b),
        follows(b, c),
    ensures
        follows(a, c),
{
    assert(c.output.subrange(0, a.output.len() as int) == b.output.subrange(
        0,
        a.output.len() as int,
    ));
}

/// Writing a value only appends to the output, and leaves the indentation at
/// or below the level at which it started. No map is left waiting for its
/// first key, unless one was waiting before.
pub proof fn law_value_appends(s: State, v: Value)
    ensures
        follows(s, s.value(v)),
        !s.first_key ==> !s.value(v).first_key,
    decreases v, 0nat,
{
    match v {
        Value::Bytes(bytes) => {
            let opened = s.open_seq();
            let filled = opened.bytes(bytes@, bytes@.len());
            lemma_follows_put(s, "["@);
            lemma_bytes_append(opened, bytes@, bytes@.len());
            lemma_follows_put(filled, "]"@);
            lemma_follows_chain(s, opened, filled);
            lemma_follows_chain(s, filled, s.value(v));
        },
        Value::Present(inner) => {
            law_value_appends(s, *inner);
        },
        Value::Sequence(items) | Value::Tuple(items) => {
            let opened = s.open_seq();
            let filled = opened.elements(items@, items@.len());
            lemma_follows_put(s, "["@);
            law_elements_append(opened, items@, items@.len());
            lemma_follows_put(filled, "]"@);
            lemma_follows_chain(s, opened, filled);
            lemma_follows_chain(s, filled, s.value(v));
        },
        Value::Mapping(entries) => {
            let opened = s.open_map();
            let filled = opened.entries(entries@, entries@.len());
            law_entries_append(opened, entries@, entries@.len());
            lemma_follows_put(filled, ";"@);
            lemma_follows_chain(s, filled, s.value(v));
        },
        Value::Struct { name, fields } => {
            let opened = s.open_struct(name@);
            let filled = opened.fields(fields@, fields@.len());
            law_fields_append(opened, fields@, fields@.len());
            assert(s.output.is_prefix_of(opened.output)) by {
                lemma_follows_put(s, "{\n"@);
                lemma_follows_put(s, name@);
                lemma_follows_put(s.put(name@), " = {\n"@);
                lemma_follows_chain(s, s.put(name@), s.put(name@).put(" = {\n"@));
            }
            assert(filled.output.is_prefix_of(filled.close_struct().output)) by {
                lemma_follows_put(filled, "\n}"@);
            }
            assert(s.output.is_prefix_of(s.value(v).output)) by {
                let raised = State { indent: opened.indent, ..s };
                lemma_follows_chain(raised, opened, filled);
                lemma_follows_chain(
                    raised,
                    filled,
                    State { indent: filled.indent, ..filled.close_struct() },
                );
            }
        },
        Value::NewtypeVariant { variant, value } => {
            let named = s.put(variant@);
            let opened = s.open_newtype_variant(variant@);
            let filled = opened.value(*value);
            lemma_follows_put(s, variant@);
            lemma_follows_put(named, " = "@);
            law_value_appends(opened, *value);
            lemma_follows_put(filled, ";"@);
            lemma_follows_chain(s, named, opened);
            lemma_follows_chain(s, opened, filled);
            lemma_follows_chain(s, filled, s.value(v));
        },
        Value::TupleVariant { variant, items } => {
            let named = s.put(variant@);
            let opened = s.open_tuple_variant(variant@);
            let filled = opened.elements(items@, items@.len());
            lemma_follows_put(s, variant@);
            lemma_follows_put(named, " = ["@);
            law_elements_append(opened, items@, items@.len());
            lemma_follows_put(filled, "];"@);
            lemma_follows_chain(s, named, opened);
            lemma_follows_chain(s, opened, filled);
            lemma_follows_chain(s, filled, s.value(v));
        },
        Value::StructVariant { variant, fields } => {
            let named = s.put(variant@);
            let opened = s.open_struct_variant(variant@);
            let filled = opened.fields(fields@, fields@.len());
            lemma_follows_put(s, variant@);
            lemma_follows_put(named, " = {\n"@);
            law_fields_append(opened, fields@, fields@.len());
            lemma_follows_put(filled, "\n};"@);
            lemma_follows_chain(s, named, opened);
            lemma_follows_chain(s, opened, filled);
            lemma_follows_chain(s, filled, filled.put("\n};"@));
        },
        _ => {
            lemma_follows_put(s, scalar_text(v));
        },
    }
}

proof fn lemma_follows_before_element(s: State)
    ensures
        follows(s, s.before_element()),
{
    lemma_follows_put(s, ","@);
    lemma_follows_put(s, Seq::empty());
}

proof fn lemma_bytes_append(s: State, bytes: Seq<u8>, n: nat)
    ensures
        follows(s, s.bytes(bytes, n)),
        s.bytes(bytes, n).first_key == s.first_key,
    decreases n,
{
    if n == 0 || n > bytes.len() {
        lemma_follows_put(s, Seq::empty());
    } else {
        let earlier = s.bytes(bytes, (n - 1) as nat);
        lemma_bytes_append(s, bytes, (n - 1) as nat);
        lemma_follows_before_element(earlier);
        lemma_follows_put(earlier.before_element(), decimal(bytes[n - 1] as nat));
        lemma_follows_chain(s, earlier, earlier.before_element());
        lemma_follows_chain(s, earlier.before_element(), s.bytes(bytes, n));
    }
}

/// Writing the elements of a sequence only appends to the output.
pub proof fn law_elements_append(s: State, items: Seq<Value>, n: nat)
    ensures
        follows(s, s.elements(items, n)),
        !s.first_key ==> !s.elements(items, n).first_key,
    decreases items, n,
{
    if n == 0 || n > items.len() {
        lemma_follows_put(s, Seq::empty());
    } else {
        let earlier = s.elements(items, (n - 1) as nat);
        law_elements_append(s, items, (n - 1) as nat);
        lemma_follows_before_element(earlier);
        law_value_appends(earlier.before_element(), items[n - 1]);
        lemma_follows_chain(s, earlier, earlier.before_element());
        lemma_follows_chain(s, earlier.before_element(), s.elements(items, n));
    }
}

/// Writing the entries of a map only appends to the output, and after the
/// first entry the map no longer waits for its first key.
pub proof fn law_entries_append(s: State, entries: Seq<(Value, Value)>, n: nat)
    ensures
        follows(s, s.entries(entries, n)),
        0 < n <= entries.len() || !s.first_key ==> !s.entries(entries, n).first_key,
    decreases entries, n,
{
    if n == 0 || n > entries.len() {
        lemma_follows_put(s, Seq::empty());
    } else {
        let earlier = s.entries(entries, (n - 1) as nat);
        let at_key = earlier.before_key();
        let keyed = at_key.value(entries[n - 1].0);
        let at_value = keyed.before_map_value();
        law_entries_append(s, entries, (n - 1) as nat);
        lemma_follows_put(earlier, ","@);
        lemma_follows_put(earlier, Seq::empty());
        law_value_appends(at_key, entries[n - 1].0);
        lemma_follows_put(keyed, " = "@);
        law_value_appends(at_value, entries[n - 1].1);
        lemma_follows_chain(s, earlier, at_key);
        lemma_follows_chain(s, at_key, keyed);
        lemma_follows_chain(s, keyed, at_value);
        lemma_follows_chain(s, at_value, s.entries(entries, n));
    }
}

/// Writing the fields of a struct only appends to the output.
pub proof fn law_fields_append(s: State, fields: Seq<(String, Value)>, n: nat)
    ensures
        follows(s, s.fields(fields, n)),
        !s.first_key ==> !s.fields(fields, n).first_key,
    decreases fields, n,
{
    if n == 0 || n > fields.len() {
        lemma_follows_put(s, Seq::empty());
    } else {
        let earlier = s.fields(fields, (n - 1) as nat);
        let at_value = earlier.before_field(fields[n - 1].0@);
        let valued = at_value.value(fields[n - 1].1);
        law_fields_append(s, fields, (n - 1) as nat);
        lemma_follows_before_field(earlier, fields[n - 1].0@);
        law_value_appends(at_value, fields[n - 1].1);
        lemma_follows_put(valued, ";"@);
        lemma_follows_chain(s, earlier, at_value);
        lemma_follows_chain(s, at_value, valued);
        lemma_follows_chain(s, valued, s.fields(fields, n));
    }
}

proof fn lemma_follows_before_field(s: State, key: Seq<char>)
    ensures
        follows(s, s.before_field(key)),
{
    let line = if ends_in(s.output, ';') {
        s.put("\n"@)
    } else {
        s
    };
    lemma_follows_put(s, "\n"@);
    lemma_follows_put(s, Seq::empty());
    lemma_follows_put(line, indentation(s.indent));
    lemma_follows_put(line.put(indentation(s.indent)), key);
    lemma_follows_put(line.put(indentation(s.indent)).put(key), " = "@);
    lemma_follows_chain(s, line, line.put(indentation(s.indent)));
    lemma_follows_chain(s, line.put(indentation(s.indent)), line.put(indentation(s.indent)).put(key));
    lemma_follows_chain(s, line.put(indentation(s.indent)).put(key), s.before_field(key));
}

} // verus!
