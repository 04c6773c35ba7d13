use crate::value::Value;
use vstd::prelude::*;

verus! {

/// What a formatter holds between two steps: the text written so far, the
/// current indentation level, and whether a map has been opened whose first
/// key is still to come.
pub struct State {
    pub output: Seq<char>,
    pub indent: nat,
    pub first_key: bool,
}

/// `buf` is not empty and its last character is `c`.
pub open spec fn ends_in(buf: Seq<char>, c: char) -> bool {
    buf.len() > 0 && buf.last() == c
}

/// `buf` ends with the two characters `= `.
pub open spec fn ends_with_assign(buf: Seq<char>) -> bool {
    buf.len() >= 2 && buf[buf.len() - 2] == '=' && buf[buf.len() - 1] == ' '
}

/// The decimal digit `d` as a character.
pub open spec fn digit(d: nat) -> char {
    if d == 0 {
        '0'
    } else if d == 1 {
        '1'
    } else if d == 2 {
        '2'
    } else if d == 3 {
        '3'
    } else if d == 4 {
        '4'
    } else if d == 5 {
        '5'
    } else if d == 6 {
        '6'
    } else if d == 7 {
        '7'
    } else if d == 8 {
        '8'
    } else {
        '9'
    }
}

/// The decimal representation of `n`: no sign, no leading zero but for `0`
/// itself.
pub open spec fn decimal(n: nat) -> Seq<char>
    decreases n,
{
    if n < 10 {
        seq![digit(n)]
    } else {
        decimal(n / 10).push(digit(n % 10))
    }
}

/// The decimal representation of `i`, with a leading `-` when it is negative.
pub open spec fn signed_decimal(i: int) -> Seq<char> {
    if i < 0 {
        seq!['-'] + decimal((-i) as nat)
    } else {
        decimal(i as nat)
    }
}

/// `text` between double quotes, as it is: nothing in it is escaped.
pub open spec fn quote(text: Seq<char>) -> Seq<char> {
    "\""@ + text + "\""@
}

/// The text of a value that has no parts: a boolean, a number, a character,
/// a string, an absent or unit value, or a variant without payload. Empty
/// for any other value.
pub open spec fn scalar_text(v: Value) -> Seq<char> {
    match v {
        Value::Bool(b) => if b {
            "true"@
        } else {
            "false"@
        },
        Value::I8(i) => signed_decimal(i as int),
        Value::I16(i) => signed_decimal(i as int),
        Value::I32(i) => signed_decimal(i as int),
        Value::I64(i) => signed_decimal(i as int) + "L"@,
        Value::U8(u) => decimal(u as nat),
        Value::U16(u) => decimal(u as nat),
        Value::U32(u) => decimal(u as nat),
        Value::U64(u) => decimal(u as nat) + "UL"@,
        Value::Real(text) => text@,
        Value::Char(c) => quote(seq![c]),
        Value::Str(text) => quote(text@),
        Value::Absent => "null"@,
        Value::Unit => "null"@,
        Value::UnitVariant { variant } => quote(variant@),
        _ => Seq::empty(),
    }
}

/// Four spaces for each level.
pub open spec fn indentation(level: nat) -> Seq<char>
    decreases level,
{
    if level == 0 {
        Seq::empty()
    } else {
        indentation((level - 1) as nat) + "    "@
    }
}

/// One line of a struct at `level`: the indentation, the field's name,
/// ` = `, the text of the field's value and `;`.
pub open spec fn line(level: nat, key: Seq<char>, text: Seq<char>) -> Seq<char> {
    indentation(level) + key + " = "@ + text + ";"@
}

/// `line` as the next line after `before`: by itself where nothing is
/// before it, after a line break otherwise.
pub open spec fn next_line(before: Seq<char>, line: Seq<char>) -> Seq<char> {
    if before.len() == 0 {
        line
    } else {
        before + "\n"@ + line
    }
}

/// The text of `v` as the outermost value of a document.
pub open spec fn formatted(v: Value) -> Seq<char> {
    State::start().value(v).output
}

impl State {
    /// The state of a formatter that has not written anything.
    pub open spec fn start() -> State {
        State { output: Seq::empty(), indent: 0, first_key: false }
    }

    /// `text` appended to the output.
    pub open spec fn put(self, text: Seq<char>) -> State {
        State { output: self.output + text, ..self }
    }

    /// One level deeper.
    pub open spec fn deeper(self) -> State {
        State { indent: self.indent + 1, ..self }
    }

    /// One level up, or the same level where that is 0.
    pub open spec fn shallower(self) -> State {
        State {
            indent: if self.indent > 0 {
                (self.indent - 1) as nat
            } else {
                0
            },
            ..self
        }
    }

    /// A sequence or a tuple opens with `[`.
    pub open spec fn open_seq(self) -> State {
        self.put("["@)
    }

    /// A comma, unless the sequence has just been opened.
    pub open spec fn before_element(self) -> State {
        if ends_in(self.output, '[') {
            self
        } else {
            self.put(","@)
        }
    }

    /// A sequence or a tuple closes with `]`.
    pub open spec fn close_seq(self) -> State {
        self.put("]"@)
    }

    /// A variant with one value opens with its name and ` = `.
    pub open spec fn open_newtype_variant(self, variant: Seq<char>) -> State {
        self.put(variant).put(" = "@)
    }

    /// A variant with one value closes with `;`.
    pub open spec fn close_newtype_variant(self) -> State {
        self.put(";"@)
    }

    /// A variant with a list of values opens with its name and ` = [`.
    pub open spec fn open_tuple_variant(self, variant: Seq<char>) -> State {
        self.put(variant).put(" = ["@)
    }

    /// A variant with a list of values closes with `];`.
    pub open spec fn close_tuple_variant(self) -> State {
        self.put("];"@)
    }

    /// A map opens with nothing; its first key is still to come.
    pub open spec fn open_map(self) -> State {
        State { first_key: true, ..self }
    }

    /// Nothing before the first key of a map, a comma before every other.
    pub open spec fn before_key(self) -> State {
        if self.first_key {
            State { first_key: false, ..self }
        } else {
            self.put(","@)
        }
    }

    /// ` = ` stands between a key and its value.
    pub open spec fn before_map_value(self) -> State {
        self.put(" = "@)
    }

    /// A map closes with `;`, whether or not it had a key.
    pub open spec fn close_map(self) -> State {
        State { first_key: false, ..self.put(";"@) }
    }

    /// The outermost struct opens nothing. One that is the value of a field
    /// opens a block and goes one level deeper. Anywhere else the block is
    /// written under the name of the struct's type, at the current level.
    pub open spec fn open_struct(self, name: Seq<char>) -> State {
        if self.output.len() == 0 {
            self
        } else if ends_with_assign(self.output) {
            self.put("{\n"@).deeper()
        } else {
            self.put(name).put(" = {\n"@)
        }
    }

    /// A new line after a finished field, the indentation, the field's name
    /// and ` = `.
    pub open spec fn before_field(self, key: Seq<char>) -> State {
        let line = if ends_in(self.output, ';') {
            self.put("\n"@)
        } else {
            self
        };
        line.put(indentation(self.indent)).put(key).put(" = "@)
    }

    /// A field ends with `;`.
    pub open spec fn after_field(self) -> State {
        self.put(";"@)
    }

    /// Above level 0 the block is closed and the level goes down by one; at
    /// level 0 nothing is written.
    pub open spec fn close_struct(self) -> State {
        if self.indent > 0 {
            self.put("\n}"@).shallower()
        } else {
            self
        }
    }

    /// A variant with named fields opens with its name, ` = {` and a line
    /// break, at the current level.
    pub open spec fn open_struct_variant(self, variant: Seq<char>) -> State {
        self.put(variant).put(" = {\n"@)
    }

    /// A variant with named fields closes with `};` on a line of its own, at
    /// the level at which it opened.
    pub open spec fn close_struct_variant(self) -> State {
        self.put("\n};"@)
    }

    /// The state after `v` has been written in full.
    pub open spec fn value(self, v: Value) -> State
        decreases v, 0nat,
    {
        match v {
            Value::Bytes(bytes) => self.open_seq().bytes(bytes@, bytes@.len()).close_seq(),
            Value::Present(inner) => self.value(*inner),
            Value::Sequence(items) => self.open_seq().elements(items@, items@.len()).close_seq(),
            Value::Tuple(items) => self.open_seq().elements(items@, items@.len()).close_seq(),
            Value::Mapping(entries) => self.open_map().entries(entries@, entries@.len()).close_map(),
            Value::Struct { name, fields } => self.open_struct(name@).fields(
                fields@,
                fields@.len(),
            ).close_struct(),
            Value::NewtypeVariant { variant, value } => self.open_newtype_variant(variant@).value(
                *value,
            ).close_newtype_variant(),
            Value::TupleVariant { variant, items } => self.open_tuple_variant(variant@).elements(
                items@,
                items@.len(),
            ).close_tuple_variant(),
            Value::StructVariant { variant, fields } => self.open_struct_variant(variant@).fields(
                fields@,
                fields@.len(),
            ).close_struct_variant(),
            _ => self.put(scalar_text(v)),
        }
    }

    /// The state after the first `n` bytes of `bytes` have been written as
    /// elements of a sequence.
    pub open spec fn bytes(self, bytes: Seq<u8>, n: nat) -> State
        decreases n,
    {
        if n == 0 || n > bytes.len() {
            self
        } else {
            self.bytes(bytes, (n - 1) as nat).before_element().put(decimal(bytes[n - 1] as nat))
        }
    }

    /// The state after the first `n` of `items` have been written as elements
    /// of a sequence.
    pub open spec fn elements(self, items: Seq<Value>, n: nat) -> State
        decreases items, n,
    {
        if n == 0 || n > items.len() {
            self
        } else {
            self.elements(items, (n - 1) as nat).before_element().value(items[n - 1])
        }
    }

    /// The state after the first `n` of `entries` have been written as
    /// entries of a map.
    pub open spec fn entries(self, entries: Seq<(Value, Value)>, n: nat) -> State
        decreases entries, n,
    {
        if n == 0 || n > entries.len() {
            self
        } else {
            self.entries(entries, (n - 1) as nat).before_key().value(
                entries[n - 1].0,
            ).before_map_value().value(entries[n - 1].1)
        }
    }

    /// The state after the first `n` of `fields` have been written as fields
    /// of a struct.
    pub open spec fn fields(self, fields: Seq<(String, Value)>, n: nat) -> State
        decreases fields, n,
    {
        if n == 0 || n > fields.len() {
            self
        } else {
            self.fields(fields, (n - 1) as nat).before_field(fields[n - 1].0@).value(
                fields[n - 1].1,
            ).after_field()
        }
    }
}

/// Writing nothing changes nothing.
pub proof fn lemma_put_nothing(s: State)
    ensures
        s.put(Seq::empty()) == s,
{
    assert(s.output + Seq::<char>::empty() == s.output);
}

/// After text has been written, the output ends as that text ends.
pub proof fn lemma_put_end(s: State, text: Seq<char>)
    requires
        text.len() > 0,
    ensures
        s.put(text).output.len() > 0,
        s.put(text).output.last() == text.last(),
        text.len() >= 2 ==> ends_with_assign(s.put(text).output) == ends_with_assign(text),
{
}

/// Once ` = ` has been written, the output ends with `= `.
pub proof fn lemma_put_assign(s: State)
    ensures
        ends_with_assign(s.put(" = "@).output),
        s.put(" = "@).output.last() == ' ',
{
    reveal_strlit(" = ");
    lemma_put_end(s, " = "@);
}

/// Writing `a` and then `b` is writing `a + b`.
pub proof fn lemma_put_put(s: State, a: Seq<char>, b: Seq<char>)
    ensures
        s.put(a).put(b) == s.put(a + b),
{
    assert((s.output + a) + b == s.output + (a + b));
}

/// The value of a field starts after `= `, at the level and with the map
/// flag that the field found.
pub proof fn lemma_before_field(s: State, key: Seq<char>)
    ensures
        ends_with_assign(s.before_field(key).output),
        s.before_field(key).indent == s.indent,
        s.before_field(key).first_key == s.first_key,
{
    let start = if ends_in(s.output, ';') {
        s.put("\n"@)
    } else {
        s
    };
    lemma_put_assign(start.put(indentation(s.indent)).put(key));
}

/// A field whose value appends `text` behind `= ` is one more line: the
/// first line of its struct where nothing was written before it, a line
/// after a line break where lines that end with `;` were.
pub proof fn lemma_field_line(
    s: State,
    before: Seq<char>,
    key: Seq<char>,
    value: Value,
    text: Seq<char>,
)
    requires
        before.len() == 0 ==> !ends_in(s.output, ';'),
        before.len() > 0 ==> ends_in(before, ';'),
        s.put(before).before_field(key).value(value) == s.put(before).before_field(key).put(text),
    ensures
        s.put(before).before_field(key).value(value).after_field() == s.put(
            next_line(before, line(s.indent, key, text)),
        ),
        ends_in(next_line(before, line(s.indent, key, text)), ';'),
{
    let level = indentation(s.indent);
    let whole = line(s.indent, key, text);
    reveal_strlit(";");
    // Where the line starts: at `s` itself, or after a line break.
    let start = if before.len() == 0 {
        s
    } else {
        s.put(before + "\n"@)
    };
    assert(s.put(before).before_field(key) == start.put(level).put(key).put(" = "@)) by {
        if before.len() == 0 {
            lemma_put_nothing(s);
        } else {
            lemma_put_end(s, before);
            lemma_put_put(s, before, "\n"@);
        }
    }
    assert(start.put(level).put(key).put(" = "@).put(text).put(";"@) == start.put(whole)) by {
        lemma_put_put(start, level, key);
        lemma_put_put(start, level + key, " = "@);
        lemma_put_put(start, level + key + " = "@, text);
        lemma_put_put(start, level + key + " = "@ + text, ";"@);
    }
    if before.len() > 0 {
        lemma_put_put(s, before + "\n"@, whole);
    }
    assert(whole.last() == ';');
}

} // verus!
