use crate::model::{decimal, digit, signed_decimal};
use vstd::prelude::*;

verus! {

/// `String::push` of the standard library, which vstd does not specify:
/// the string afterwards is the string before with `c` as one more character
/// at its end.
pub assume_specification[ String::push ](s: &mut String, c: char)
    ensures
        final(s)@ == old(s)@.push(c),
;

/// Appends the characters of `text` to `buf`.
pub fn push_text(buf: &mut Vec<char>, text: &str)
    ensures
        final(buf)@ == old(buf)@ + text@,
{
    let ghost before = buf@;
    for c in it: text.chars()
        invariant
            it.seq() == text@,
            buf@ == before + text@.take(it.index() as int),
    {
        buf.push(c);
        assert(text@.take(it.index() + 1) == text@.take(it.index() as int).push(c));
    }
    assert(text@.take(text@.len() as int) == text@);
}

/// The character of the decimal digit `d`.
pub fn digit_char(d: u64) -> (c: char)
    requires
        d < 10,
    ensures
        c == digit(d as nat),
{
    match d {
        0 => '0',
        1 => '1',
        2 => '2',
        3 => '3',
        4 => '4',
        5 => '5',
        6 => '6',
        7 => '7',
        8 => '8',
        _ => '9',
    }
}

/// Appends the decimal representation of `v` to `buf`.
pub fn push_decimal(buf: &mut Vec<char>, v: u64)
    ensures
        final(buf)@ == old(buf)@ + decimal(v as nat),
    decreases v,
{
    if v >= 10 {
        push_decimal(buf, v / 10);
    }
    buf.push(digit_char(v % 10));
    assert(buf@ == old(buf)@ + decimal(v as nat));
}

/// Appends the decimal representation of `v` to `buf`, after a `-` when `v`
/// is negative.
pub fn push_signed_decimal(buf: &mut Vec<char>, v: i64)
    ensures
        final(buf)@ == old(buf)@ + signed_decimal(v as int),
{
    if v < 0 {
        buf.push('-');
        // `-v` does not fit for the least value, so go by way of `-(v + 1)`.
        let magnitude: u64 = (-(v + 1)) as u64 + 1;
        push_decimal(buf, magnitude);
        assert(buf@ == old(buf)@ + signed_decimal(v as int));
    } else {
        push_decimal(buf, v as u64);
    }
}

/// The characters of `chars` as a string.
pub fn collect(chars: &Vec<char>) -> (text: String)
    ensures
        text@ == chars@,
{
    let mut text = String::new();
    let n: usize = chars.len();
    let mut i: usize = 0;
    while i < n
        invariant
            n == chars@.len(),
            i <= n,
            text@ == chars@.take(i as int),
        decreases n - i,
    {
        text.push(chars[i]);
        assert(chars@.take(i + 1) == chars@.take(i as int).push(chars@[i as int]));
        i += 1;
    }
    assert(chars@.take(n as int) == chars@);
    text
}

} // verus!
