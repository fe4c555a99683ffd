//! JSON text of the prompts handed to the language model, written the way
//! `serde_json` writes compact JSON: strings escape `"`, `\` and control
//! characters, objects keep their field order, no white space is added.
use vstd::prelude::*;
use crate::hex::hex_digit;
use crate::text::{chars_of, push_char};

verus! {

/// The escaped form of one character inside a JSON string.
pub open spec fn json_escape_char(c: char) -> Seq<char> {
    let u = c as u32;
    if c == '"' {
        seq!['\\', '"']
    } else if c == '\\' {
        seq!['\\', '\\']
    } else if u == 8 {
        seq!['\\', 'b']
    } else if u == 9 {
        seq!['\\', 't']
    } else if u == 10 {
        seq!['\\', 'n']
    } else if u == 12 {
        seq!['\\', 'f']
    } else if u == 13 {
        seq!['\\', 'r']
    } else if u < 0x20 {
        seq!['\\', 'u', '0', '0', hex_digit((u / 16) as u8), hex_digit((u % 16) as u8)]
    } else {
        seq![c]
    }
}

/// The escaped characters of a JSON string body.
pub open spec fn json_escaped(s: Seq<char>) -> Seq<char>
    decreases s.len(),
{
    if s.len() == 0 {
        Seq::empty()
    } else {
        json_escaped(s.drop_last()) + json_escape_char(s.last())
    }
}

/// A JSON string literal holding `s`.
pub open spec fn json_string(s: Seq<char>) -> Seq<char> {
    seq!['"'] + json_escaped(s) + seq!['"']
}

/// The items separated by commas.
pub open spec fn comma_joined(items: Seq<Seq<char>>) -> Seq<char>
    decreases items.len(),
{
    if items.len() == 0 {
        Seq::empty()
    } else if items.len() == 1 {
        items[0]
    } else {
        comma_joined(items.drop_last()) + seq![','] + items.last()
    }
}

/// A JSON array whose elements have the given texts.
pub open spec fn json_array_text(items: Seq<Seq<char>>) -> Seq<char> {
    seq!['['] + comma_joined(items) + seq![']']
}

/// The texts of a sequence of strings.
pub open spec fn texts(v: Seq<String>) -> Seq<Seq<char>> {
    v.map_values(|s: String| s@)
}

/// A JSON array of strings.
pub open spec fn json_string_array(v: Seq<String>) -> Seq<char> {
    json_array_text(v.map_values(|s: String| json_string(s@)))
}

/// The character of a hexadecimal digit.
fn hex_digit_char(n: u8) -> (r: char)
    requires
        n < 16,
    ensures
        r == hex_digit(n),
{
    if n < 10 {
        (48 + n) as char
    } else {
        (87 + n) as char
    }
}

/// Appends the escaped form of `c`.
fn push_escaped_char(out: &mut String, c: char)
    ensures
        final(out)@ == old(out)@ + json_escape_char(c),
{
    let u = c as u32;
    if c == '"' {
        push_char(out, '\\');
        push_char(out, '"');
    } else if c == '\\' {
        push_char(out, '\\');
        push_char(out, '\\');
    } else if u == 8 {
        push_char(out, '\\');
        push_char(out, 'b');
    } else if u == 9 {
        push_char(out, '\\');
        push_char(out, 't');
    } else if u == 10 {
        push_char(out, '\\');
        push_char(out, 'n');
    } else if u == 12 {
        push_char(out, '\\');
        push_char(out, 'f');
    } else if u == 13 {
        push_char(out, '\\');
        push_char(out, 'r');
    } else if u < 0x20 {
        push_char(out, '\\');
        push_char(out, 'u');
        push_char(out, '0');
        push_char(out, '0');
        push_char(out, hex_digit_char((u / 16) as u8));
        push_char(out, hex_digit_char((u % 16) as u8));
    } else {
        push_char(out, c);
    }
    assert(final(out)@ =~= old(out)@ + json_escape_char(c));
}

/// Appends `s` as a JSON string literal.
pub fn push_json_string(out: &mut String, s: &str)
    ensures
        final(out)@ == old(out)@ + json_string(s@),
{
    let cs = chars_of(s);
    push_char(out, '"');
    let ghost start = out@;
    let mut i: usize = 0;
    while i < cs.len()
        invariant
            i <= cs@.len(),
            cs@ == s@,
            start == old(out)@ + seq!['"'],
            out@ == start + json_escaped(cs@.take(i as int)),
        decreases cs@.len() - i,
    {
        push_escaped_char(out, cs[i]);
        assert(cs@.take(i + 1).drop_last() =~= cs@.take(i as int));
        i = i + 1;
        assert(out@ =~= start + json_escaped(cs@.take(i as int)));
    }
    assert(cs@.take(cs@.len() as int) =~= cs@);
    push_char(out, '"');
    assert(out@ =~= old(out)@ + json_string(s@));
}

/// A JSON array whose elements are the given texts, in order.
pub fn json_array(items: &Vec<String>) -> (r: String)
    ensures
        r@ == json_array_text(texts(items@)),
{
    let mut out = String::new();
    push_char(&mut out, '[');
    let mut i: usize = 0;
    assert(comma_joined(texts(items@).take(0)) =~= Seq::<char>::empty());
    while i < items.len()
        invariant
            i <= items@.len(),
            out@ == seq!['['] + comma_joined(texts(items@).take(i as int)),
        decreases items@.len() - i,
    {
        assert(texts(items@).take(i + 1).drop_last() =~= texts(items@).take(i as int));
        if i > 0 {
            push_char(&mut out, ',');
        }
        out.append(items[i].as_str());
        i = i + 1;
        assert(out@ =~= seq!['['] + comma_joined(texts(items@).take(i as int)));
    }
    assert(texts(items@).take(items@.len() as int) =~= texts(items@));
    push_char(&mut out, ']');
    assert(out@ =~= json_array_text(texts(items@)));
    out
}

/// Appends a JSON array of strings.
pub fn push_json_string_array(out: &mut String, v: &Vec<String>)
    ensures
        final(out)@ == old(out)@ + json_string_array(v@),
{
    let ghost items = v@.map_values(|s: String| json_string(s@));
    let mut parts: Vec<String> = Vec::new();
    let mut i: usize = 0;
    while i < v.len()
        invariant
            i <= v@.len(),
            items == v@.map_values(|s: String| json_string(s@)),
            texts(parts@) == items.take(i as int),
            parts@.len() == i,
        decreases v@.len() - i,
    {
        let mut p = String::new();
        push_json_string(&mut p, v[i].as_str());
        assert(p@ =~= json_string(v@[i as int]@));
        let ghost before = parts@;
        parts.push(p);
        assert(parts@ == before.push(p));
        assert(items[i as int] == json_string(v@[i as int]@));
        i = i + 1;
        assert forall|j: int| 0 <= j < i implies texts(parts@)[j] == items.take(i as int)[j] by {
            assert(texts(parts@)[j] == parts@[j]@);
            if j < i - 1 {
                assert(parts@[j] == before[j]);
                assert(texts(before)[j] == items.take(i - 1)[j]);
            }
        }
        assert(texts(parts@) =~= items.take(i as int));
    }
    assert(items.take(v@.len() as int) =~= items);
    let a = json_array(&parts);
    out.append(a.as_str());
}

} // verus!
