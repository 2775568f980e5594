//! The JSON documents' format, read and written by the library itself.
//!
//! A document is a tree of nulls, booleans, integers, strings, arrays and
//! objects; object fields keep their written order, and repeated keys are
//! kept as written. Numbers are integers in the signed 64-bit range — all
//! the bot's documents hold integer scores and counts, never fractions.
//!
//! The writer emits a compact rendering with the common escapes; the
//! reader accepts every rendering the writer can produce, with arbitrary
//! whitespace between tokens, and hands back the value written: reading
//! back what was written yields the same tree.

use vstd::prelude::*;

verus! {

/// One JSON value, as held at runtime.
pub enum Json {
    Null,
    Bool(bool),
    Int(i64),
    Str(Vec<char>),
    Arr(Vec<Json>),
    Obj(Vec<(Vec<char>, Json)>),
}

/// One JSON value, as reasoned about: text as `Seq<char>`, numbers as
/// unbounded integers.
pub enum JsonV {
    Null,
    Bool(bool),
    Int(int),
    Str(Seq<char>),
    Arr(Seq<JsonV>),
    Obj(Seq<(Seq<char>, JsonV)>),
}

/// The mathematical image of a runtime value.
pub open spec fn jv(j: Json) -> JsonV
    decreases j, 0int,
{
    match j {
        Json::Null => JsonV::Null,
        Json::Bool(b) => JsonV::Bool(b),
        Json::Int(i) => JsonV::Int(i as int),
        Json::Str(s) => JsonV::Str(s@),
        Json::Arr(items) => JsonV::Arr(jv_arr(items, 0)),
        Json::Obj(fields) => JsonV::Obj(jv_obj(fields, 0)),
    }
}

/// The images of `items[i..]`.
pub open spec fn jv_arr(items: Vec<Json>, i: int) -> Seq<JsonV>
    decreases items, items@.len() - i + 1,
{
    if i < 0 || i >= items@.len() {
        Seq::empty()
    } else {
        seq![jv(items@[i])] + jv_arr(items, i + 1)
    }
}

/// The images of `fields[i..]`.
pub open spec fn jv_obj(fields: Vec<(Vec<char>, Json)>, i: int) -> Seq<(Seq<char>, JsonV)>
    decreases fields, fields@.len() - i + 1,
{
    if i < 0 || i >= fields@.len() {
        Seq::empty()
    } else {
        seq![(fields@[i].0@, jv(fields@[i].1))] + jv_obj(fields, i + 1)
    }
}

/// A value every part of which the format can carry: integers fit in the
/// signed 64-bit range.
pub open spec fn wf_json(v: JsonV) -> bool
    decreases v, 1int,
{
    match v {
        JsonV::Null => true,
        JsonV::Bool(_) => true,
        JsonV::Int(i) => i64::MIN <= i <= i64::MAX,
        JsonV::Str(_) => true,
        JsonV::Arr(elems) => wf_arr(elems, 0),
        JsonV::Obj(fields) => wf_obj(fields, 0),
    }
}

/// Every element of `elems[i..]` is well formed.
pub open spec fn wf_arr(elems: Seq<JsonV>, i: int) -> bool
    decreases elems, elems.len() - i + 2,
{
    if i < 0 || i >= elems.len() {
        true
    } else {
        wf_json(elems[i]) && wf_arr(elems, i + 1)
    }
}

/// Every value of `fields[i..]` is well formed.
pub open spec fn wf_obj(fields: Seq<(Seq<char>, JsonV)>, i: int) -> bool
    decreases fields, fields.len() - i + 2,
{
    if i < 0 || i >= fields.len() {
        true
    } else {
        wf_json(fields[i].1) && wf_obj(fields, i + 1)
    }
}

/// A decimal digit character.
pub open spec fn dec_digit(d: int) -> char {
    if d == 0 {
        '0'
    } else if d == 1 {
        '1'
    } else if d == 2 {
        '2'
    } else if d == 3 {
        '3'
    } else if d == 4 {
        '4'
    } else if d == 5 {
        '5'
    } else if d == 6 {
        '6'
    } else if d == 7 {
        '7'
    } else if d == 8 {
        '8'
    } else {
        '9'
    }
}

/// A lower-case hexadecimal digit character.
pub open spec fn hex_digit(d: int) -> char {
    if d < 10 {
        dec_digit(d)
    } else if d == 10 {
        'a'
    } else if d == 11 {
        'b'
    } else if d == 12 {
        'c'
    } else if d == 13 {
        'd'
    } else if d == 14 {
        'e'
    } else {
        'f'
    }
}

/// The decimal digits of `n`, most significant first.
pub open spec fn dec_seq(n: nat) -> Seq<char>
    decreases n,
{
    if n < 10 {
        seq![dec_digit(n as int)]
    } else {
        dec_seq(n / 10) + seq![dec_digit((n % 10) as int)]
    }
}

/// The rendering of an integer: a minus sign for negative values, then
/// decimal digits with no leading zero.
pub open spec fn ser_int(n: int) -> Seq<char> {
    if n < 0 {
        seq!['-'] + dec_seq((-n) as nat)
    } else {
        dec_seq(n as nat)
    }
}

/// The rendering of one string character: itself, or an escape for the
/// quote, the backslash and the control characters.
pub open spec fn esc_char(c: char) -> Seq<char> {
    if c == '"' {
        seq!['\\', '"']
    } else if c == '\\' {
        seq!['\\', '\\']
    } else if c == '\n' {
        seq!['\\', 'n']
    } else if c == '\r' {
        seq!['\\', 'r']
    } else if c == '\t' {
        seq!['\\', 't']
    } else if (c as int) < 32 {
        seq!['\\', 'u', '0', '0', hex_digit(c as int / 16), hex_digit(c as int % 16)]
    } else {
        seq![c]
    }
}

/// The rendering of a string's characters, without the quotes.
pub open spec fn ser_str_body(s: Seq<char>) -> Seq<char>
    decreases s.len(),
{
    if s.len() == 0 {
        Seq::empty()
    } else {
        esc_char(s[0]) + ser_str_body(s.drop_first())
    }
}

/// The compact rendering of a value.
pub open spec fn ser_val(v: JsonV) -> Seq<char>
    decreases v, 0int,
{
    match v {
        JsonV::Null => seq!['n', 'u', 'l', 'l'],
        JsonV::Bool(b) => if b {
            seq!['t', 'r', 'u', 'e']
        } else {
            seq!['f', 'a', 'l', 's', 'e']
        },
        JsonV::Int(i) => ser_int(i),
        JsonV::Str(s) => seq!['"'] + ser_str_body(s) + seq!['"'],
        JsonV::Arr(elems) => seq!['['] + ser_elems(elems, 0) + seq![']'],
        JsonV::Obj(fields) => seq!['{'] + ser_fields(fields, 0) + seq!['}'],
    }
}

/// The rendering of `elems[i..]`, comma separated.
pub open spec fn ser_elems(elems: Seq<JsonV>, i: int) -> Seq<char>
    decreases elems, elems.len() - i + 1,
{
    if i < 0 || i >= elems.len() {
        Seq::empty()
    } else if i == elems.len() - 1 {
        ser_val(elems[i])
    } else {
        ser_val(elems[i]) + seq![','] + ser_elems(elems, i + 1)
    }
}

/// The rendering of `fields[i..]`: quoted key, colon, value, comma
/// separated.
pub open spec fn ser_fields(fields: Seq<(Seq<char>, JsonV)>, i: int) -> Seq<char>
    decreases fields, fields.len() - i + 1,
{
    if i < 0 || i >= fields.len() {
        Seq::empty()
    } else if i == fields.len() - 1 {
        ser_field(fields[i])
    } else {
        ser_field(fields[i]) + seq![','] + ser_fields(fields, i + 1)
    }
}

/// The rendering of one object field.
pub open spec fn ser_field(f: (Seq<char>, JsonV)) -> Seq<char>
    decreases f, 1int,
{
    seq!['"'] + ser_str_body(f.0) + seq!['"', ':'] + ser_val(f.1)
}

/// `jv_arr` images element by element.
pub proof fn lemma_jv_arr(items: Vec<Json>, i: int)
    requires
        0 <= i <= items@.len(),
    ensures
        jv_arr(items, i).len() == items@.len() - i,
        forall|k: int|
            0 <= k < items@.len() - i ==> jv_arr(items, i)[k] == jv(items@[i + k]),
    decreases items@.len() - i,
{
    if i < items@.len() {
        lemma_jv_arr(items, i + 1);
    }
}

/// `jv_obj` images field by field.
pub proof fn lemma_jv_obj(fields: Vec<(Vec<char>, Json)>, i: int)
    requires
        0 <= i <= fields@.len(),
    ensures
        jv_obj(fields, i).len() == fields@.len() - i,
        forall|k: int|
            0 <= k < fields@.len() - i ==> jv_obj(fields, i)[k] == (
            fields@[i + k].0@,
            jv(fields@[i + k].1),
            ),
    decreases fields@.len() - i,
{
    if i < fields@.len() {
        lemma_jv_obj(fields, i + 1);
    }
}

/// Escaping distributes over appending one character.
proof fn lemma_ser_str_body_push(t: Seq<char>, c: char)
    ensures
        ser_str_body(t.push(c)) == ser_str_body(t) + esc_char(c),
    decreases t.len(),
{
    if t.len() == 0 {
        assert(t.push(c)[0] == c);
        assert(t.push(c).drop_first() =~= Seq::<char>::empty());
        assert(ser_str_body(Seq::<char>::empty()) == Seq::<char>::empty());
        assert(ser_str_body(t) == Seq::<char>::empty());
        assert(ser_str_body(t.push(c)) =~= ser_str_body(t) + esc_char(c));
    } else {
        assert(t.push(c)[0] == t[0]);
        assert(t.push(c).drop_first() =~= t.drop_first().push(c));
        lemma_ser_str_body_push(t.drop_first(), c);
        assert(ser_str_body(t.push(c)) == esc_char(t[0]) + ser_str_body(t.drop_first().push(c)));
        assert(ser_str_body(t.push(c)) =~= ser_str_body(t) + esc_char(c));
    }
}

/// A decimal digit character.
fn dec_digit_exec(d: u64) -> (c: char)
    requires
        d < 10,
    ensures
        c == dec_digit(d as int),
{
    if d == 0 {
        '0'
    } else if d == 1 {
        '1'
    } else if d == 2 {
        '2'
    } else if d == 3 {
        '3'
    } else if d == 4 {
        '4'
    } else if d == 5 {
        '5'
    } else if d == 6 {
        '6'
    } else if d == 7 {
        '7'
    } else if d == 8 {
        '8'
    } else {
        '9'
    }
}

/// A lower-case hexadecimal digit character.
fn hex_digit_exec(d: u32) -> (c: char)
    requires
        d < 16,
    ensures
        c == hex_digit(d as int),
{
    if d < 10 {
        dec_digit_exec(d as u64)
    } else if d == 10 {
        'a'
    } else if d == 11 {
        'b'
    } else if d == 12 {
        'c'
    } else if d == 13 {
        'd'
    } else if d == 14 {
        'e'
    } else {
        'f'
    }
}

/// Append the decimal digits of `n`.
fn write_dec(n: u64, out: &mut Vec<char>)
    ensures
        final(out)@ == old(out)@ + dec_seq(n as nat),
    decreases n,
{
    if n < 10 {
        out.push(dec_digit_exec(n));
        proof {
            assert(final(out)@ =~= old(out)@ + dec_seq(n as nat));
        }
    } else {
        write_dec(n / 10, out);
        out.push(dec_digit_exec(n % 10));
        proof {
            assert(final(out)@ =~= old(out)@ + dec_seq(n as nat));
        }
    }
}

/// Append the rendering of an integer.
fn write_int(n: i64, out: &mut Vec<char>)
    ensures
        final(out)@ == old(out)@ + ser_int(n as int),
{
    if n < 0 {
        out.push('-');
        let mag: u64 = if n == i64::MIN {
            9223372036854775808u64
        } else {
            (-n) as u64
        };
        assert(mag as nat == (-(n as int)) as nat);
        write_dec(mag, out);
        proof {
            assert(final(out)@ =~= old(out)@ + ser_int(n as int));
        }
    } else {
        write_dec(n as u64, out);
    }
}

/// Append the rendering of one string character.
fn write_escaped(c: char, out: &mut Vec<char>)
    ensures
        final(out)@ == old(out)@ + esc_char(c),
{
    if c == '"' {
        out.push('\\');
        out.push('"');
    } else if c == '\\' {
        out.push('\\');
        out.push('\\');
    } else if c == '\n' {
        out.push('\\');
        out.push('n');
    } else if c == '\r' {
        out.push('\\');
        out.push('r');
    } else if c == '\t' {
        out.push('\\');
        out.push('t');
    } else if (c as u32) < 32 {
        out.push('\\');
        out.push('u');
        out.push('0');
        out.push('0');
        out.push(hex_digit_exec((c as u32) / 16));
        out.push(hex_digit_exec((c as u32) % 16));
    } else {
        out.push(c);
    }
    proof {
        assert(final(out)@ =~= old(out)@ + esc_char(c));
    }
}

/// Append a string's characters, escaped, without the quotes.
fn write_str_body(s: &Vec<char>, out: &mut Vec<char>)
    ensures
        final(out)@ == old(out)@ + ser_str_body(s@),
{
    let mut i: usize = 0;
    while i < s.len()
        invariant
            i <= s@.len(),
            out@ == old(out)@ + ser_str_body(s@.take(i as int)),
        decreases s@.len() - i,
    {
        write_escaped(s[i], out);
        proof {
            assert(s@.take(i + 1 as int) =~= s@.take(i as int).push(s@[i as int]));
            lemma_ser_str_body_push(s@.take(i as int), s@[i as int]);
            assert(out@ =~= old(out)@ + ser_str_body(s@.take(i + 1 as int)));
        }
        i = i + 1;
    }
    proof {
        assert(s@.take(s@.len() as int) =~= s@);
    }
}

/// Append the compact rendering of a value.
pub fn write_val(j: &Json, out: &mut Vec<char>)
    ensures
        final(out)@ == old(out)@ + ser_val(jv(*j)),
    decreases *j, 0int,
{
    match j {
        Json::Null => {
            out.push('n');
            out.push('u');
            out.push('l');
            out.push('l');
            proof {
                assert(final(out)@ =~= old(out)@ + ser_val(jv(*j)));
            }
        },
        Json::Bool(b) => {
            if *b {
                out.push('t');
                out.push('r');
                out.push('u');
                out.push('e');
            } else {
                out.push('f');
                out.push('a');
                out.push('l');
                out.push('s');
                out.push('e');
            }
            proof {
                assert(final(out)@ =~= old(out)@ + ser_val(jv(*j)));
            }
        },
        Json::Int(i) => {
            write_int(*i, out);
        },
        Json::Str(s) => {
            out.push('"');
            write_str_body(s, out);
            out.push('"');
            proof {
                assert(final(out)@ =~= old(out)@ + ser_val(jv(*j)));
            }
        },
        Json::Arr(items) => {
            out.push('[');
            write_elems(items, 0, out);
            out.push(']');
            proof {
                assert(final(out)@ =~= old(out)@ + ser_val(jv(*j)));
            }
        },
        Json::Obj(fields) => {
            out.push('{');
            write_fields(fields, 0, out);
            out.push('}');
            proof {
                assert(final(out)@ =~= old(out)@ + ser_val(jv(*j)));
            }
        },
    }
}

/// Append the rendering of `items[i..]`, comma separated.
fn write_elems(items: &Vec<Json>, i: usize, out: &mut Vec<char>)
    requires
        i <= items@.len(),
    ensures
        final(out)@ == old(out)@ + ser_elems(jv_arr(*items, 0), i as int),
    decreases *items, items@.len() - i + 1,
{
    proof {
        lemma_jv_arr(*items, 0);
    }
    if i == items.len() {
    } else if i == items.len() - 1 {
        write_val(&items[i], out);
        proof {
            assert(final(out)@ =~= old(out)@ + ser_elems(jv_arr(*items, 0), i as int));
        }
    } else {
        write_val(&items[i], out);
        out.push(',');
        write_elems(items, i + 1, out);
        proof {
            assert(final(out)@ =~= old(out)@ + ser_elems(jv_arr(*items, 0), i as int));
        }
    }
}

/// Append the rendering of `fields[i..]`, comma separated.
fn write_fields(fields: &Vec<(Vec<char>, Json)>, i: usize, out: &mut Vec<char>)
    requires
        i <= fields@.len(),
    ensures
        final(out)@ == old(out)@ + ser_fields(jv_obj(*fields, 0), i as int),
    decreases *fields, fields@.len() - i + 1,
{
    proof {
        lemma_jv_obj(*fields, 0);
    }
    if i == fields.len() {
    } else if i == fields.len() - 1 {
        write_field(fields, i, out);
        proof {
            assert(final(out)@ =~= old(out)@ + ser_fields(jv_obj(*fields, 0), i as int));
        }
    } else {
        write_field(fields, i, out);
        out.push(',');
        write_fields(fields, i + 1, out);
        proof {
            assert(final(out)@ =~= old(out)@ + ser_fields(jv_obj(*fields, 0), i as int));
        }
    }
}

/// Append the rendering of one field: quoted key, colon, value.
fn write_field(fields: &Vec<(Vec<char>, Json)>, i: usize, out: &mut Vec<char>)
    requires
        i < fields@.len(),
    ensures
        final(out)@ == old(out)@ + ser_field((fields@[i as int].0@, jv(fields@[i as int].1))),
    decreases *fields, 0int,
{
    out.push('"');
    write_str_body(&fields[i].0, out);
    out.push('"');
    out.push(':');
    write_val(&fields[i].1, out);
    proof {
        assert(final(out)@ =~= old(out)@ + ser_field(
            (fields@[i as int].0@, jv(fields@[i as int].1)),
        ));
    }
}

/// The compact rendering of a document.
pub fn write_json(j: &Json) -> (r: Vec<char>)
    ensures
        r@ == ser_val(jv(*j)),
{
    let mut out: Vec<char> = Vec::new();
    write_val(j, &mut out);
    proof {
        assert(out@ =~= ser_val(jv(*j)));
    }
    out
}

} // verus!
