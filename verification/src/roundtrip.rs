//! Written documents read back unchanged.
//!
//! The reader accepts more than the writer produces — extra whitespace,
//! alternative escapes — but on everything the writer produces it returns
//! exactly the value written. That is the adapter's round-trip law: a
//! document read and written back untouched keeps its whole structured
//! content, whatever order its keys happen to take.

use vstd::prelude::*;

verus! {

use crate::json::{
    Json, JsonV, jv, jv_arr, jv_obj, wf_json, wf_arr, wf_obj, ser_val, ser_elems, ser_fields,
    ser_field, ser_int, ser_str_body, esc_char, dec_seq, dec_digit, hex_digit,
};
use crate::jsonparse::{
    parse_doc, parse_val_at, parse_elems_at, parse_fields_at, parse_str_at, parse_int_at,
    skip_ws_at, digit_run_end, digits_val, is_hex, hex_val, low_char,
};
use crate::text::is_ws;
use crate::schedule::{is_digit, digit_val};
use vstd::arithmetic::div_mod::lemma_fundamental_div_mod;

/// Every character's code point is in the unicode range.
proof fn lemma_char_bounds(c: char)
    ensures
        0 <= c as int <= 0x10FFFF,
{
}

/// What a decimal digit character is and carries.
proof fn lemma_dec_digit_props(d: int)
    requires
        0 <= d <= 9,
    ensures
        is_digit(dec_digit(d)),
        digit_val(dec_digit(d)) == d,
        d >= 1 ==> dec_digit(d) != '0',
{
}

/// What a hexadecimal digit character is and carries.
proof fn lemma_hex_digit_props(d: int)
    requires
        0 <= d < 16,
    ensures
        is_hex(hex_digit(d)),
        hex_val(hex_digit(d)) == d,
{
}

/// A number's digits: at least one, all decimal, the first zero only for
/// zero itself.
proof fn lemma_dec_seq_props(n: nat)
    ensures
        dec_seq(n).len() >= 1,
        forall|k: int| 0 <= k < dec_seq(n).len() ==> is_digit(#[trigger] dec_seq(n)[k]),
        n == 0 || dec_seq(n)[0] != '0',
    decreases n,
{
    if n < 10 {
        lemma_dec_digit_props(n as int);
    } else {
        lemma_dec_seq_props(n / 10);
        lemma_dec_digit_props((n % 10) as int);
        assert forall|k: int| 0 <= k < dec_seq(n).len() implies is_digit(
            #[trigger] dec_seq(n)[k],
        ) by {
            if k < dec_seq(n / 10).len() {
                assert(dec_seq(n)[k] == dec_seq(n / 10)[k]);
            } else {
                assert(dec_seq(n)[k] == dec_digit((n % 10) as int));
            }
        }
        assert(dec_seq(n)[0] == dec_seq(n / 10)[0]);
        assert(n / 10 >= 1);
    }
}

/// Digits written for `n` read back as the value `n`.
proof fn lemma_dec_seq_val(n: nat, s: Seq<char>, a: int)
    requires
        0 <= a,
        a + dec_seq(n).len() <= s.len(),
        s.subrange(a, a + dec_seq(n).len()) == dec_seq(n),
    ensures
        digits_val(s, a, a + dec_seq(n).len()) == n,
    decreases n,
{
    let e = a + dec_seq(n).len();
    if n < 10 {
        assert(s[a] == dec_seq(n)[0]);
        lemma_dec_digit_props(n as int);
        assert(digits_val(s, a, a) == 0);
    } else {
        lemma_dec_seq_props(n / 10);
        assert(s[e - 1] == dec_seq(n)[dec_seq(n).len() - 1]);
        assert(dec_seq(n)[dec_seq(n).len() - 1] == dec_digit((n % 10) as int));
        lemma_dec_digit_props((n % 10) as int);
        assert(s.subrange(a, e - 1) =~= dec_seq(n / 10)) by {
            assert(forall|k: int|
                0 <= k < dec_seq(n).len() ==> #[trigger] s[a + k] == dec_seq(n)[k]);
        }
        lemma_dec_seq_val(n / 10, s, a);
        lemma_fundamental_div_mod(n as int, 10);
    }
}

/// Where a digit run provably ends.
proof fn lemma_digit_run_end_at(s: Seq<char>, i: int, e: int)
    requires
        0 <= i <= e <= s.len(),
        forall|k: int| i <= k < e ==> is_digit(#[trigger] s[k]),
        e == s.len() || !is_digit(s[e]),
    ensures
        digit_run_end(s, i) == e,
    decreases e - i,
{
    if i < e {
        lemma_digit_run_end_at(s, i + 1, e);
    }
}

/// Pointwise reading of a subrange equality, triggered on `s[k]`.
proof fn lemma_subrange_points(s: Seq<char>, a: int, x: Seq<char>)
    requires
        0 <= a,
        a + x.len() <= s.len(),
        s.subrange(a, a + x.len()) == x,
    ensures
        forall|k: int| a <= k < a + x.len() ==> #[trigger] s[k] == x[k - a],
{
    assert forall|k: int| a <= k < a + x.len() implies #[trigger] s[k] == x[k - a] by {
        assert(s.subrange(a, a + x.len())[k - a] == x[k - a]);
    }
}

/// An integer written at `a` reads back as itself, provided no digit
/// follows it.
proof fn lemma_parse_int_of_ser(n: int, s: Seq<char>, a: int)
    requires
        i64::MIN <= n <= i64::MAX,
        0 <= a,
        a + ser_int(n).len() <= s.len(),
        s.subrange(a, a + ser_int(n).len()) == ser_int(n),
        a + ser_int(n).len() == s.len() || !is_digit(s[a + ser_int(n).len()]),
    ensures
        parse_int_at(s, a) == Some((n, a + ser_int(n).len())),
{
    let e = a + ser_int(n).len();
    lemma_subrange_points(s, a, ser_int(n));
    if n < 0 {
        let m = (-n) as nat;
        lemma_dec_seq_props(m);
        assert(s[a] == ser_int(n)[0]);
        assert(s[a] == '-');
        assert(!is_digit('-'));
        let d0 = a + 1;
        assert forall|k: int| d0 <= k < e implies is_digit(#[trigger] s[k]) by {
            assert(s[k] == ser_int(n)[k - a]);
            assert(ser_int(n)[k - a] == dec_seq(m)[k - d0]);
        }
        lemma_digit_run_end_at(s, d0, e);
        assert(s.subrange(d0, d0 + dec_seq(m).len()) =~= dec_seq(m)) by {
            assert forall|k: int|
                0 <= k < dec_seq(m).len() implies s.subrange(d0, d0 + dec_seq(m).len())[k]
                == dec_seq(m)[k] by {
                assert(s[d0 + k] == ser_int(n)[d0 + k - a]);
                assert(ser_int(n)[1 + k] == dec_seq(m)[k]);
            }
        }
        lemma_dec_seq_val(m, s, d0);
        assert(s[d0] == dec_seq(m)[0]);
        if m >= 10 {
            assert(s[d0] != '0');
        } else {
            assert(e == d0 + 1);
        }
    } else {
        let m = n as nat;
        lemma_dec_seq_props(m);
        assert(s[a] == ser_int(n)[0]);
        assert(s[a] == dec_seq(m)[0]);
        assert(is_digit(s[a]));
        assert(s[a] != '-');
        assert forall|k: int| a <= k < e implies is_digit(#[trigger] s[k]) by {
            assert(s[k] == ser_int(n)[k - a]);
        }
        lemma_digit_run_end_at(s, a, e);
        assert(s.subrange(a, a + dec_seq(m).len()) =~= dec_seq(m)) by {
            assert forall|k: int|
                0 <= k < dec_seq(m).len() implies s.subrange(a, a + dec_seq(m).len())[k]
                == dec_seq(m)[k] by {
                assert(s[a + k] == ser_int(n)[a + k - a]);
            }
        }
        lemma_dec_seq_val(m, s, a);
        if m >= 10 {
            assert(s[a] != '0');
        } else {
            assert(e == a + 1);
        }
    }
}

/// A string body written at `a`, with its closing quote, reads back as the
/// original characters.
#[verifier::rlimit(100)]
proof fn lemma_parse_str_of_ser(t: Seq<char>, s: Seq<char>, a: int)
    requires
        0 <= a,
        a + ser_str_body(t).len() + 1 <= s.len(),
        s.subrange(a, a + ser_str_body(t).len()) == ser_str_body(t),
        s[a + ser_str_body(t).len()] == '"',
    ensures
        parse_str_at(s, a) == Some((t, a + ser_str_body(t).len() + 1)),
    decreases t.len(),
{
    let bl = ser_str_body(t).len();
    lemma_subrange_points(s, a, ser_str_body(t));
    if t.len() == 0 {
        assert(s[a] == '"');
    } else {
        let c = t[0];
        lemma_char_bounds(c);
        let ec = esc_char(c);
        let rest = ser_str_body(t.drop_first());
        assert(ser_str_body(t) == ec + rest);
        assert forall|k: int| a <= k < a + ec.len() implies #[trigger] s[k] == ec[k - a] by {
            assert(s[k] == ser_str_body(t)[k - a]);
            assert(ser_str_body(t)[k - a] == ec[k - a]);
        }
        let a2 = a + ec.len();
        assert(s.subrange(a2, a2 + rest.len()) =~= rest) by {
            assert forall|k: int|
                0 <= k < rest.len() implies s.subrange(a2, a2 + rest.len())[k] == rest[k] by {
                assert(s[a2 + k] == ser_str_body(t)[a2 + k - a]);
                assert(ser_str_body(t)[ec.len() + k] == rest[k]);
            }
        }
        assert(s[a2 + rest.len()] == '"');
        lemma_parse_str_of_ser(t.drop_first(), s, a2);
        assert(seq![c] + t.drop_first() =~= t);
        if c == '"' {
            assert(s[a] == '\\' && s[a + 1] == '"');
        } else if c == '\\' {
            assert(s[a] == '\\' && s[a + 1] == '\\');
        } else if c == '\n' {
            assert(s[a] == '\\' && s[a + 1] == 'n');
        } else if c == '\r' {
            assert(s[a] == '\\' && s[a + 1] == 'r');
        } else if c == '\t' {
            assert(s[a] == '\\' && s[a + 1] == 't');
        } else if (c as int) < 32 {
            assert(s[a] == '\\' && s[a + 1] == 'u' && s[a + 2] == '0' && s[a + 3] == '0');
            assert(s[a + 4] == hex_digit(c as int / 16));
            assert(s[a + 5] == hex_digit(c as int % 16));
            assert(0 <= (c as int) && (c as int) < 32);
            assert(0 <= (c as int) / 16 && (c as int) / 16 < 2);
            assert(0 <= (c as int) % 16 && (c as int) % 16 < 16);
            lemma_hex_digit_props(c as int / 16);
            lemma_hex_digit_props(c as int % 16);
            assert(is_hex('0') && hex_val('0') == 0);
            lemma_fundamental_div_mod(c as int, 16);
            let code = hex_val(s[a + 2]) * 4096 + hex_val(s[a + 3]) * 256 + hex_val(s[a + 4]) * 16
                + hex_val(s[a + 5]);
            assert(code == c as int);
            assert(low_char(code) == c);
        } else {
            assert(s[a] == c);
            assert(c != '"' && c != '\\');
        }
    }
}

/// A value's rendering is never empty.
proof fn lemma_ser_val_len(v: JsonV)
    ensures
        ser_val(v).len() >= 1,
{
    match v {
        JsonV::Int(i) => {
            if i < 0 {
                lemma_dec_seq_props((-i) as nat);
            } else {
                lemma_dec_seq_props(i as nat);
            }
        },
        _ => {},
    }
}

/// A value's rendering opens with no whitespace, separator or closer.
proof fn lemma_ser_val_first(v: JsonV)
    ensures
        ser_val(v).len() >= 1,
        !is_ws(ser_val(v)[0]),
        ser_val(v)[0] != ']',
        ser_val(v)[0] != '}',
        ser_val(v)[0] != ',',
        ser_val(v)[0] != ':',
{
    lemma_ser_val_len(v);
    match v {
        JsonV::Int(i) => {
            if i < 0 {
                lemma_dec_seq_props((-i) as nat);
                assert(ser_val(v)[0] == '-');
            } else {
                lemma_dec_seq_props(i as nat);
                assert(ser_val(v)[0] == dec_seq(i as nat)[0]);
                assert(is_digit(ser_val(v)[0]));
            }
        },
        _ => {},
    }
}

/// Array elements written from position `k` on, followed by the closing
/// bracket, read back as exactly those elements.
#[verifier::rlimit(100)]
proof fn lemma_parse_ser_elems(elems: Seq<JsonV>, k: int, s: Seq<char>, a: int)
    requires
        0 <= k < elems.len(),
        wf_arr(elems, k),
        0 <= a,
        a + ser_elems(elems, k).len() + 1 <= s.len(),
        s.subrange(a, a + ser_elems(elems, k).len()) == ser_elems(elems, k),
        s[a + ser_elems(elems, k).len()] == ']',
    ensures
        parse_elems_at(s, a) == Some((elems.skip(k), a + ser_elems(elems, k).len() + 1)),
    decreases elems, elems.len() - k + 1,
{
    let se = ser_elems(elems, k);
    let sv = ser_val(elems[k]);
    lemma_subrange_points(s, a, se);
    lemma_ser_val_len(elems[k]);
    assert(wf_json(elems[k]));
    let p = a + sv.len();
    if k == elems.len() - 1 {
        assert(se == sv);
        lemma_parse_of_ser(elems[k], s, a);
        assert(skip_ws_at(s, p) == p);
        assert(elems.skip(k) =~= seq![elems[k]]);
    } else {
        assert(se == sv + seq![','] + ser_elems(elems, k + 1));
        assert(s.subrange(a, a + sv.len()) =~= sv) by {
            assert forall|x: int| 0 <= x < sv.len() implies s.subrange(a, a + sv.len())[x]
                == sv[x] by {
                assert(s[a + x] == se[a + x - a]);
                assert(se[x] == (sv + seq![','])[x]);
            }
        }
        assert(s[p] == se[p - a]);
        assert(se[sv.len() as int] == ',');
        lemma_parse_of_ser(elems[k], s, a);
        assert(skip_ws_at(s, p) == p);
        let rest = ser_elems(elems, k + 1);
        assert(s.subrange(p + 1, p + 1 + rest.len()) =~= rest) by {
            assert forall|x: int| 0 <= x < rest.len() implies s.subrange(p + 1, p + 1 + rest.len())[x]
                == rest[x] by {
                assert(s[p + 1 + x] == se[p + 1 + x - a]);
                assert(se[sv.len() + 1 + x] == rest[x]);
            }
        }
        assert(s[p + 1 + rest.len()] == ']');
        lemma_parse_ser_elems(elems, k + 1, s, p + 1);
        assert(seq![elems[k]] + elems.skip(k + 1) =~= elems.skip(k));
    }
}

/// One written field — quoted key, colon, value — reads back piece by
/// piece, provided no digit directly follows it.
#[verifier::rlimit(100)]
proof fn lemma_parse_ser_one_field(key: Seq<char>, v: JsonV, s: Seq<char>, a: int)
    requires
        wf_json(v),
        0 <= a,
        a + ser_field((key, v)).len() <= s.len(),
        s.subrange(a, a + ser_field((key, v)).len()) == ser_field((key, v)),
        a + ser_field((key, v)).len() == s.len() || !is_digit(s[a + ser_field((key, v)).len()]),
    ensures
        s[a] == '"',
        skip_ws_at(s, a) == a,
        parse_str_at(s, a + 1) == Some((key, a + 2 + ser_str_body(key).len())),
        s[a + 2 + ser_str_body(key).len()] == ':',
        skip_ws_at(s, a + 2 + ser_str_body(key).len()) == a + 2 + ser_str_body(key).len(),
        parse_val_at(s, a + 3 + ser_str_body(key).len()) == Some(
            (v, a + ser_field((key, v)).len()),
        ),
    decreases v, 2int,
{
    let f1 = ser_field((key, v));
    let body = ser_str_body(key);
    let sv = ser_val(v);
    lemma_subrange_points(s, a, f1);
    assert(f1 == seq!['"'] + body + seq!['"', ':'] + sv);
    assert(s[a] == f1[0]);
    assert(s.subrange(a + 1, a + 1 + body.len()) =~= body) by {
        assert forall|x: int| 0 <= x < body.len() implies s.subrange(a + 1, a + 1 + body.len())[x]
            == body[x] by {
            assert(s[a + (1 + x)] == f1[1 + x]);
            assert(f1[1 + x] == (seq!['"'] + body)[1 + x]);
        }
    }
    assert(s[a + 1 + body.len()] == f1[(1 + body.len()) as int]);
    assert(f1[(1 + body.len()) as int] == '"');
    lemma_parse_str_of_ser(key, s, a + 1);
    let k1 = a + 2 + body.len();
    assert(s[k1] == f1[k1 - a]);
    assert(f1[(2 + body.len()) as int] == ':');
    let vstart = k1 + 1;
    assert(s.subrange(vstart, vstart + sv.len()) =~= sv) by {
        assert forall|x: int| 0 <= x < sv.len() implies s.subrange(vstart, vstart + sv.len())[x]
            == sv[x] by {
            assert(s[a + (3 + body.len() + x)] == f1[3 + body.len() + x]);
            assert(f1[3 + body.len() + x] == sv[x]);
        }
    }
    assert(vstart + sv.len() == a + f1.len());
    lemma_parse_of_ser(v, s, vstart);
}

/// Object fields written from position `k` on, followed by the closing
/// brace, read back as exactly those fields.
#[verifier::rlimit(100)]
proof fn lemma_parse_ser_fields(fields: Seq<(Seq<char>, JsonV)>, k: int, s: Seq<char>, a: int)
    requires
        0 <= k < fields.len(),
        wf_obj(fields, k),
        0 <= a,
        a + ser_fields(fields, k).len() + 1 <= s.len(),
        s.subrange(a, a + ser_fields(fields, k).len()) == ser_fields(fields, k),
        s[a + ser_fields(fields, k).len()] == '}',
    ensures
        parse_fields_at(s, a) == Some((fields.skip(k), a + ser_fields(fields, k).len() + 1)),
    decreases fields, fields.len() - k + 1,
{
    let sf = ser_fields(fields, k);
    let key = fields[k].0;
    let v = fields[k].1;
    let f1 = ser_field(fields[k]);
    let body = ser_str_body(key);
    lemma_subrange_points(s, a, sf);
    lemma_ser_val_len(v);
    assert(wf_json(v));
    assert(fields[k] == (key, v));
    assert(forall|x: int| 0 <= x < f1.len() ==> #[trigger] s[a + x] == f1[x]) by {
        if k == fields.len() - 1 {
            assert(sf == f1);
            assert(forall|x: int| 0 <= x < f1.len() ==> #[trigger] s[a + x] == sf[a + x - a]);
        } else {
            assert(sf == f1 + seq![','] + ser_fields(fields, k + 1));
            assert(forall|x: int| 0 <= x < f1.len() ==> #[trigger] s[a + x] == sf[a + x - a]);
            assert(forall|x: int|
                0 <= x < f1.len() ==> sf[x] == (f1 + seq![','])[x] && (f1 + seq![','])[x] == f1[x]);
        }
    }
    assert(s.subrange(a, a + f1.len()) =~= f1) by {
        assert forall|x: int| 0 <= x < f1.len() implies s.subrange(a, a + f1.len())[x] == f1[x] by {
            assert(s[a + x] == f1[x]);
        }
    }
    let p = a + f1.len();
    if k == fields.len() - 1 {
        assert(s[p] == '}');
    } else {
        assert(sf == f1 + seq![','] + ser_fields(fields, k + 1));
        assert(s[p] == sf[p - a]);
        assert(sf[f1.len() as int] == ',');
    }
    lemma_parse_ser_one_field(key, v, s, a);
    let k1 = a + 2 + body.len();
    assert(skip_ws_at(s, k1) == k1);
    assert(skip_ws_at(s, p) == p);
    if k == fields.len() - 1 {
        assert(fields.skip(k) =~= seq![(key, v)]);
    } else {
        let rest = ser_fields(fields, k + 1);
        assert(s.subrange(p + 1, p + 1 + rest.len()) =~= rest) by {
            assert forall|x: int| 0 <= x < rest.len() implies s.subrange(p + 1, p + 1 + rest.len())[x]
                == rest[x] by {
                assert(s[a + (f1.len() + 1 + x)] == sf[f1.len() + 1 + x]);
                assert(sf[f1.len() + 1 + x] == rest[x]);
            }
        }
        assert(s[p + 1 + rest.len()] == '}');
        lemma_parse_ser_fields(fields, k + 1, s, p + 1);
        assert(seq![(key, v)] + fields.skip(k + 1) =~= fields.skip(k));
    }
}

/// A well-formed value written at `a` reads back as itself, provided no
/// digit directly follows its rendering.
#[verifier::rlimit(100)]
pub proof fn lemma_parse_of_ser(v: JsonV, s: Seq<char>, a: int)
    requires
        wf_json(v),
        0 <= a,
        a + ser_val(v).len() <= s.len(),
        s.subrange(a, a + ser_val(v).len()) == ser_val(v),
        a + ser_val(v).len() == s.len() || !is_digit(s[a + ser_val(v).len()]),
    ensures
        parse_val_at(s, a) == Some((v, a + ser_val(v).len())),
    decreases v, 0int,
{
    let sv = ser_val(v);
    lemma_subrange_points(s, a, sv);
    lemma_ser_val_first(v);
    assert(s[a] == sv[0]);
    assert(skip_ws_at(s, a) == a);
    match v {
        JsonV::Null => {
            assert(s[a] == 'n' && s[a + 1] == 'u' && s[a + 2] == 'l' && s[a + 3] == 'l');
        },
        JsonV::Bool(b) => {
            if b {
                assert(s[a] == 't' && s[a + 1] == 'r' && s[a + 2] == 'u' && s[a + 3] == 'e');
            } else {
                assert(s[a] == 'f' && s[a + 1] == 'a' && s[a + 2] == 'l' && s[a + 3] == 's' && s[a
                    + 4] == 'e');
            }
            assert(parse_val_at(s, a) == Some((v, a + ser_val(v).len())));
        },
        JsonV::Int(i) => {
            lemma_parse_int_of_ser(i, s, a);
            if i < 0 {
                assert(s[a] == '-');
            } else {
                lemma_dec_seq_props(i as nat);
                assert(is_digit(s[a]));
            }
            assert(parse_val_at(s, a) == Some((v, a + ser_val(v).len())));
        },
        JsonV::Str(t) => {
            assert(s[a] == '"');
            let body = ser_str_body(t);
            assert(sv == seq!['"'] + body + seq!['"']);
            assert(s.subrange(a + 1, a + 1 + body.len()) =~= body) by {
                assert forall|x: int|
                    0 <= x < body.len() implies s.subrange(a + 1, a + 1 + body.len())[x]
                    == body[x] by {
                    assert(s[a + (1 + x)] == sv[1 + x]);
                    assert(sv[1 + x] == (seq!['"'] + body)[1 + x]);
                }
            }
            assert(s[a + 1 + body.len()] == sv[(1 + body.len()) as int]);
            assert(sv[(1 + body.len()) as int] == '"');
            lemma_parse_str_of_ser(t, s, a + 1);
            assert(parse_val_at(s, a) == Some((v, a + ser_val(v).len())));
        },
        JsonV::Arr(elems) => {
            assert(s[a] == '[');
            if elems.len() == 0 {
                assert(ser_elems(elems, 0) =~= Seq::<char>::empty());
                assert(sv =~= seq!['[', ']']);
                assert(s[a + 1] == ']');
                assert(skip_ws_at(s, a + 1) == a + 1);
                assert(elems =~= Seq::<JsonV>::empty());
                assert(v == JsonV::Arr(Seq::<JsonV>::empty()));
            } else {
                let inner = ser_elems(elems, 0);
                assert(sv == seq!['['] + inner + seq![']']);
                assert(s.subrange(a + 1, a + 1 + inner.len()) =~= inner) by {
                    assert forall|x: int|
                        0 <= x < inner.len() implies s.subrange(a + 1, a + 1 + inner.len())[x]
                        == inner[x] by {
                        assert(s[a + (1 + x)] == sv[1 + x]);
                        assert(sv[1 + x] == (seq!['['] + inner)[1 + x]);
                    }
                }
                assert(s[a + 1 + inner.len()] == sv[(1 + inner.len()) as int]);
                assert(sv[(1 + inner.len()) as int] == ']');
                assert(inner[0] == ser_val(elems[0])[0]);
                lemma_ser_val_first(elems[0]);
                assert(s[a + 1] == inner[0]);
                assert(!is_ws(s[a + 1]) && s[a + 1] != ']');
                assert(skip_ws_at(s, a + 1) == a + 1);
                lemma_parse_ser_elems(elems, 0, s, a + 1);
                assert(elems.skip(0) =~= elems);
            }
            assert(parse_val_at(s, a) == Some((v, a + ser_val(v).len())));
        },
        JsonV::Obj(fields) => {
            assert(s[a] == '{');
            if fields.len() == 0 {
                assert(ser_fields(fields, 0) =~= Seq::<char>::empty());
                assert(sv =~= seq!['{', '}']);
                assert(s[a + 1] == '}');
                assert(skip_ws_at(s, a + 1) == a + 1);
                assert(fields =~= Seq::<(Seq<char>, JsonV)>::empty());
                assert(v == JsonV::Obj(Seq::<(Seq<char>, JsonV)>::empty()));
            } else {
                let inner = ser_fields(fields, 0);
                assert(sv == seq!['{'] + inner + seq!['}']);
                assert(s.subrange(a + 1, a + 1 + inner.len()) =~= inner) by {
                    assert forall|x: int|
                        0 <= x < inner.len() implies s.subrange(a + 1, a + 1 + inner.len())[x]
                        == inner[x] by {
                        assert(s[a + (1 + x)] == sv[1 + x]);
                        assert(sv[1 + x] == (seq!['{'] + inner)[1 + x]);
                    }
                }
                assert(s[a + 1 + inner.len()] == sv[(1 + inner.len()) as int]);
                assert(sv[(1 + inner.len()) as int] == '}');
                assert(inner[0] == ser_field(fields[0])[0]);
                assert(ser_field(fields[0])[0] == '"');
                assert(s[a + 1] == '"');
                assert(skip_ws_at(s, a + 1) == a + 1);
                lemma_parse_ser_fields(fields, 0, s, a + 1);
                assert(fields.skip(0) =~= fields);
            }
            assert(parse_val_at(s, a) == Some((v, a + ser_val(v).len())));
        },
    }
}

/// The round trip at the heart of the adapter: a well-formed value,
/// written and read back, is returned unchanged.
pub proof fn lemma_write_then_read(v: JsonV)
    requires
        wf_json(v),
    ensures
        parse_doc(ser_val(v)) == Some(v),
{
    let s = ser_val(v);
    lemma_ser_val_len(v);
    assert(s.subrange(0, s.len() as int) =~= s);
    lemma_parse_of_ser(v, s, 0);
}

/// Every runtime value is well formed: its integers are 64-bit by type.
pub proof fn lemma_jv_wf(j: Json)
    ensures
        wf_json(jv(j)),
    decreases j, 0int,
{
    match j {
        Json::Arr(items) => {
            lemma_jv_wf_arr(items, 0);
        },
        Json::Obj(fields) => {
            lemma_jv_wf_obj(fields, 0);
        },
        _ => {},
    }
}

/// Helper: the images of `items[i..]` are well formed.
proof fn lemma_jv_wf_arr(items: Vec<Json>, i: int)
    ensures
        wf_arr(jv_arr(items, i), 0),
    decreases items, items@.len() - i + 1,
{
    if 0 <= i && i < items@.len() {
        lemma_jv_wf(items@[i]);
        lemma_jv_wf_arr(items, i + 1);
        lemma_wf_arr_cons(jv(items@[i]), jv_arr(items, i + 1));
    }
}

/// Helper: the images of `fields[i..]` are well formed.
proof fn lemma_jv_wf_obj(fields: Vec<(Vec<char>, Json)>, i: int)
    ensures
        wf_obj(jv_obj(fields, i), 0),
    decreases fields, fields@.len() - i + 1,
{
    if 0 <= i && i < fields@.len() {
        lemma_jv_wf(fields@[i].1);
        lemma_jv_wf_obj(fields, i + 1);
        lemma_wf_obj_cons((fields@[i].0@, jv(fields@[i].1)), jv_obj(fields, i + 1));
    }
}

/// Prepending a well-formed element keeps a well-formed tail well formed.
proof fn lemma_wf_arr_cons(x: JsonV, rest: Seq<JsonV>)
    requires
        wf_json(x),
        wf_arr(rest, 0),
    ensures
        wf_arr(seq![x] + rest, 0),
{
    lemma_wf_arr_shift(rest, 0, x);
}

/// Well-formedness of a tail shifts across a prepended element.
proof fn lemma_wf_arr_shift(rest: Seq<JsonV>, i: int, x: JsonV)
    requires
        0 <= i <= rest.len(),
        wf_arr(rest, i),
        wf_json(x),
    ensures
        wf_arr(seq![x] + rest, i + 1),
        i == 0 ==> wf_arr(seq![x] + rest, 0),
    decreases rest.len() - i,
{
    if i < rest.len() {
        assert(wf_json(rest[i]));
        assert((seq![x] + rest)[i + 1] == rest[i]);
        lemma_wf_arr_shift(rest, i + 1, x);
        assert(wf_arr(seq![x] + rest, i + 1));
    }
    assert((seq![x] + rest)[0] == x);
    if i == 0 {
        assert(wf_arr(seq![x] + rest, 1));
        assert(wf_arr(seq![x] + rest, 0));
    }
}

/// Prepending a well-formed field keeps a well-formed tail well formed.
proof fn lemma_wf_obj_cons(x: (Seq<char>, JsonV), rest: Seq<(Seq<char>, JsonV)>)
    requires
        wf_json(x.1),
        wf_obj(rest, 0),
    ensures
        wf_obj(seq![x] + rest, 0),
{
    lemma_wf_obj_shift(rest, 0, x);
}

/// Well-formedness of a field tail shifts across a prepended field.
proof fn lemma_wf_obj_shift(rest: Seq<(Seq<char>, JsonV)>, i: int, x: (Seq<char>, JsonV))
    requires
        0 <= i <= rest.len(),
        wf_obj(rest, i),
        wf_json(x.1),
    ensures
        wf_obj(seq![x] + rest, i + 1),
        i == 0 ==> wf_obj(seq![x] + rest, 0),
    decreases rest.len() - i,
{
    if i < rest.len() {
        assert(wf_json(rest[i].1));
        assert((seq![x] + rest)[i + 1] == rest[i]);
        lemma_wf_obj_shift(rest, i + 1, x);
        assert(wf_obj(seq![x] + rest, i + 1));
    }
    assert((seq![x] + rest)[0] == x);
    if i == 0 {
        assert(wf_obj(seq![x] + rest, 1));
        assert(wf_obj(seq![x] + rest, 0));
    }
}

/// The adapter's round-trip law for runtime documents: what the writer
/// renders, the reader returns unchanged, so a document read and written
/// back untouched keeps exactly its structured content.
pub proof fn lemma_read_back_written(j: Json)
    ensures
        parse_doc(ser_val(jv(j))) == Some(jv(j)),
{
    lemma_jv_wf(j);
    lemma_write_then_read(jv(j));
}

/// Read a document and write it back untouched. The result parses to
/// exactly what the input parsed to: the spelling may change — whitespace
/// goes, escapes take the writer's forms — but no value does.
pub fn reencode(s: &Vec<char>) -> (r: Option<Vec<char>>)
    ensures
        match r {
            Some(out) => parse_doc(s@) is Some && parse_doc(out@) == parse_doc(s@),
            None => parse_doc(s@) is None,
        },
{
    match crate::jsonparse::parse_json(s) {
        None => None,
        Some(j) => {
            let out = crate::json::write_json(&j);
            proof {
                lemma_jv_wf(j);
                lemma_write_then_read(jv(j));
            }
            Some(out)
        },
    }
}

} // verus!
