//! The JSON reader.
//!
//! A recursive-descent parser over `Seq<char>` positions defines what the
//! reader accepts; the runtime reader follows it branch for branch and
//! returns exactly what it describes. Whitespace is the format's four
//! separator characters; strings know the common escapes and the
//! `\u00XX` form of the control characters; numbers are integers without
//! leading zeros, within the signed 64-bit range.

use vstd::prelude::*;

verus! {

use crate::json::{Json, JsonV, jv, jv_arr, jv_obj};
use crate::text::is_ws;
use crate::schedule::{is_digit, digit_val};

/// A hexadecimal digit.
pub open spec fn is_hex(c: char) -> bool {
    is_digit(c) || ('a' <= c && c <= 'f') || ('A' <= c && c <= 'F')
}

/// The value of a hexadecimal digit.
pub open spec fn hex_val(c: char) -> int {
    if is_digit(c) {
        digit_val(c)
    } else if 'a' <= c && c <= 'f' {
        c as int - 'a' as int + 10
    } else {
        c as int - 'A' as int + 10
    }
}

/// The control character with the given code.
pub open spec fn low_char(code: int) -> char {
    if code == 0 {
        '\u{00}'
    } else if code == 1 {
        '\u{01}'
    } else if code == 2 {
        '\u{02}'
    } else if code == 3 {
        '\u{03}'
    } else if code == 4 {
        '\u{04}'
    } else if code == 5 {
        '\u{05}'
    } else if code == 6 {
        '\u{06}'
    } else if code == 7 {
        '\u{07}'
    } else if code == 8 {
        '\u{08}'
    } else if code == 9 {
        '\u{09}'
    } else if code == 10 {
        '\u{0a}'
    } else if code == 11 {
        '\u{0b}'
    } else if code == 12 {
        '\u{0c}'
    } else if code == 13 {
        '\u{0d}'
    } else if code == 14 {
        '\u{0e}'
    } else if code == 15 {
        '\u{0f}'
    } else if code == 16 {
        '\u{10}'
    } else if code == 17 {
        '\u{11}'
    } else if code == 18 {
        '\u{12}'
    } else if code == 19 {
        '\u{13}'
    } else if code == 20 {
        '\u{14}'
    } else if code == 21 {
        '\u{15}'
    } else if code == 22 {
        '\u{16}'
    } else if code == 23 {
        '\u{17}'
    } else if code == 24 {
        '\u{18}'
    } else if code == 25 {
        '\u{19}'
    } else if code == 26 {
        '\u{1a}'
    } else if code == 27 {
        '\u{1b}'
    } else if code == 28 {
        '\u{1c}'
    } else if code == 29 {
        '\u{1d}'
    } else if code == 30 {
        '\u{1e}'
    } else {
        '\u{1f}'
    }
}

/// The first position at or after `i` holding no whitespace.
pub open spec fn skip_ws_at(s: Seq<char>, i: int) -> int
    decreases s.len() - i,
{
    if 0 <= i && i < s.len() && is_ws(s[i]) {
        skip_ws_at(s, i + 1)
    } else {
        i
    }
}

/// Prepend a character to a string parse's result.
pub open spec fn str_cons(c: char, r: Option<(Seq<char>, int)>) -> Option<(Seq<char>, int)> {
    match r {
        Some((t, e)) => Some((seq![c] + t, e)),
        None => None,
    }
}

/// Parse a string's characters from just after the opening quote, through
/// the closing quote: the content and the position after the quote.
pub open spec fn parse_str_at(s: Seq<char>, i: int) -> Option<(Seq<char>, int)>
    decreases s.len() - i,
{
    if !(0 <= i && i < s.len()) {
        None
    } else if s[i] == '"' {
        Some((Seq::empty(), i + 1))
    } else if s[i] == '\\' {
        if i + 2 > s.len() {
            None
        } else {
            let e = s[i + 1];
            if e == '"' || e == '\\' || e == '/' {
                str_cons(e, parse_str_at(s, i + 2))
            } else if e == 'n' {
                str_cons('\n', parse_str_at(s, i + 2))
            } else if e == 'r' {
                str_cons('\r', parse_str_at(s, i + 2))
            } else if e == 't' {
                str_cons('\t', parse_str_at(s, i + 2))
            } else if e == 'b' {
                str_cons('\u{08}', parse_str_at(s, i + 2))
            } else if e == 'f' {
                str_cons('\u{0c}', parse_str_at(s, i + 2))
            } else if e == 'u' {
                if i + 6 > s.len() {
                    None
                } else if is_hex(s[i + 2]) && is_hex(s[i + 3]) && is_hex(s[i + 4]) && is_hex(
                    s[i + 5],
                ) {
                    let code = hex_val(s[i + 2]) * 4096 + hex_val(s[i + 3]) * 256 + hex_val(
                        s[i + 4],
                    ) * 16 + hex_val(s[i + 5]);
                    if code < 32 {
                        str_cons(low_char(code), parse_str_at(s, i + 6))
                    } else {
                        None
                    }
                } else {
                    None
                }
            } else {
                None
            }
        }
    } else {
        str_cons(s[i], parse_str_at(s, i + 1))
    }
}

/// The first position at or after `i` holding no decimal digit.
pub open spec fn digit_run_end(s: Seq<char>, i: int) -> int
    decreases s.len() - i,
{
    if 0 <= i && i < s.len() && is_digit(s[i]) {
        digit_run_end(s, i + 1)
    } else {
        i
    }
}

/// The value of the digits `s[i..e)`.
pub open spec fn digits_val(s: Seq<char>, i: int, e: int) -> int
    decreases e - i,
{
    if i < e {
        digits_val(s, i, e - 1) * 10 + digit_val(s[e - 1])
    } else {
        0
    }
}

/// Parse an integer at `i`: an optional minus sign and a digit run with no
/// leading zero, its value within the signed 64-bit range.
pub open spec fn parse_int_at(s: Seq<char>, i: int) -> Option<(int, int)> {
    let neg = 0 <= i && i < s.len() && s[i] == '-';
    let d0 = if neg {
        i + 1
    } else {
        i
    };
    if !(0 <= d0 && d0 < s.len() && is_digit(s[d0])) {
        None
    } else {
        let e = digit_run_end(s, d0);
        if s[d0] == '0' && e > d0 + 1 {
            None
        } else {
            let mag = digits_val(s, d0, e);
            let v: int = if neg {
                -mag
            } else {
                mag
            };
            if i64::MIN <= v <= i64::MAX {
                Some((v, e))
            } else {
                None
            }
        }
    }
}

/// Parse one value at `i`, leading whitespace skipped: the value and the
/// position after it.
pub open spec fn parse_val_at(s: Seq<char>, i: int) -> Option<(JsonV, int)>
    decreases s.len() - i, 2int,
{
    let j = skip_ws_at(s, i);
    if j < i || j >= s.len() {
        None
    } else {
        let c = s[j];
        if c == 'n' {
            if j + 4 <= s.len() && s[j + 1] == 'u' && s[j + 2] == 'l' && s[j + 3] == 'l' {
                Some((JsonV::Null, j + 4))
            } else {
                None
            }
        } else if c == 't' {
            if j + 4 <= s.len() && s[j + 1] == 'r' && s[j + 2] == 'u' && s[j + 3] == 'e' {
                Some((JsonV::Bool(true), j + 4))
            } else {
                None
            }
        } else if c == 'f' {
            if j + 5 <= s.len() && s[j + 1] == 'a' && s[j + 2] == 'l' && s[j + 3] == 's' && s[j + 4]
                == 'e' {
                Some((JsonV::Bool(false), j + 5))
            } else {
                None
            }
        } else if c == '"' {
            match parse_str_at(s, j + 1) {
                Some((t, e)) => Some((JsonV::Str(t), e)),
                None => None,
            }
        } else if c == '-' || is_digit(c) {
            match parse_int_at(s, j) {
                Some((v, e)) => Some((JsonV::Int(v), e)),
                None => None,
            }
        } else if c == '[' {
            let k = skip_ws_at(s, j + 1);
            if j + 1 <= k && k < s.len() && s[k] == ']' {
                Some((JsonV::Arr(Seq::empty()), k + 1))
            } else {
                match parse_elems_at(s, j + 1) {
                    Some((vs, e)) => Some((JsonV::Arr(vs), e)),
                    None => None,
                }
            }
        } else if c == '{' {
            let k = skip_ws_at(s, j + 1);
            if j + 1 <= k && k < s.len() && s[k] == '}' {
                Some((JsonV::Obj(Seq::empty()), k + 1))
            } else {
                match parse_fields_at(s, j + 1) {
                    Some((fs, e)) => Some((JsonV::Obj(fs), e)),
                    None => None,
                }
            }
        } else {
            None
        }
    }
}

/// Parse the elements of a non-empty array from just after the bracket or
/// a comma, through the closing bracket.
pub open spec fn parse_elems_at(s: Seq<char>, i: int) -> Option<(Seq<JsonV>, int)>
    decreases s.len() - i, 3int,
{
    match parse_val_at(s, i) {
        None => None,
        Some((v, k)) => {
            if k <= i || k > s.len() {
                None
            } else {
                let m = skip_ws_at(s, k);
                if m < k || m >= s.len() {
                    None
                } else if s[m] == ',' {
                    match parse_elems_at(s, m + 1) {
                        Some((vs, e)) => Some((seq![v] + vs, e)),
                        None => None,
                    }
                } else if s[m] == ']' {
                    Some((seq![v], m + 1))
                } else {
                    None
                }
            }
        },
    }
}

/// Parse the fields of a non-empty object from just after the brace or a
/// comma, through the closing brace.
pub open spec fn parse_fields_at(s: Seq<char>, i: int) -> Option<(Seq<(Seq<char>, JsonV)>, int)>
    decreases s.len() - i, 3int,
{
    let m = skip_ws_at(s, i);
    if m < i || m >= s.len() {
        None
    } else if s[m] != '"' {
        None
    } else {
        match parse_str_at(s, m + 1) {
            None => None,
            Some((key, k1)) => {
                if k1 <= m || k1 > s.len() {
                    None
                } else {
                    let m1 = skip_ws_at(s, k1);
                    if m1 < k1 || m1 >= s.len() {
                        None
                    } else if s[m1] != ':' {
                        None
                    } else {
                        match parse_val_at(s, m1 + 1) {
                            None => None,
                            Some((v, k2)) => {
                                if k2 <= m1 || k2 > s.len() {
                                    None
                                } else {
                                    let m2 = skip_ws_at(s, k2);
                                    if m2 < k2 || m2 >= s.len() {
                                        None
                                    } else if s[m2] == ',' {
                                        match parse_fields_at(s, m2 + 1) {
                                            Some((fs, e)) => Some((seq![(key, v)] + fs, e)),
                                            None => None,
                                        }
                                    } else if s[m2] == '}' {
                                        Some((seq![(key, v)], m2 + 1))
                                    } else {
                                        None
                                    }
                                }
                            },
                        }
                    }
                }
            },
        }
    }
}

/// Parse a whole document: one value and nothing but whitespace after it.
pub open spec fn parse_doc(s: Seq<char>) -> Option<JsonV> {
    match parse_val_at(s, 0) {
        None => None,
        Some((v, k)) => {
            if skip_ws_at(s, k) == s.len() {
                Some(v)
            } else {
                None
            }
        },
    }
}

/// Powers of ten.
pub open spec fn p10(n: nat) -> int
    decreases n,
{
    if n == 0 {
        1
    } else {
        10 * p10((n - 1) as nat)
    }
}

/// Powers of ten grow with the exponent.
proof fn lemma_p10_mono(a: nat, b: nat)
    requires
        a <= b,
    ensures
        0 < p10(a) <= p10(b),
    decreases b,
{
    if b > 0 {
        if a == b {
            lemma_p10_mono((a - 1) as nat, (b - 1) as nat);
        } else {
            lemma_p10_mono(a, (b - 1) as nat);
        }
    }
}

/// The value of a digit run is below ten to its length.
proof fn lemma_digits_val_upper(s: Seq<char>, i: int, e: int)
    requires
        i <= e,
        forall|k: int| i <= k < e ==> is_digit(#[trigger] s[k]),
    ensures
        0 <= digits_val(s, i, e) < p10((e - i) as nat),
    decreases e - i,
{
    if i < e {
        lemma_digits_val_upper(s, i, e - 1);
    }
}

/// A digit run starting with a non-zero digit is at least ten to one less
/// than its length.
proof fn lemma_digits_val_lower(s: Seq<char>, i: int, e: int)
    requires
        i < e,
        forall|k: int| i <= k < e ==> is_digit(#[trigger] s[k]),
        digit_val(s[i]) >= 1,
    ensures
        digits_val(s, i, e) >= p10((e - i - 1) as nat),
    decreases e - i,
{
    if i + 1 < e {
        lemma_digits_val_lower(s, i, e - 1);
        lemma_digits_val_upper(s, i, e - 1);
        assert(digit_val(s[e - 1]) >= 0);
        assert(p10((e - i - 1) as nat) == 10 * p10((e - i - 2) as nat));
    } else {
        assert(digits_val(s, i, i) == 0);
        assert(digits_val(s, i, e) == digit_val(s[i]));
        assert(p10(0) == 1);
    }
}

/// Where the digit run ends: every character before it is a digit, and it
/// stands at the end of the text or before a non-digit.
proof fn lemma_digit_run_end_props(s: Seq<char>, i: int)
    requires
        0 <= i <= s.len(),
    ensures
        i <= digit_run_end(s, i) <= s.len(),
        forall|k: int| i <= k < digit_run_end(s, i) ==> is_digit(#[trigger] s[k]),
        digit_run_end(s, i) == s.len() || !is_digit(s[digit_run_end(s, i)]),
    decreases s.len() - i,
{
    if i < s.len() && is_digit(s[i]) {
        lemma_digit_run_end_props(s, i + 1);
    }
}

/// Ten to the nineteenth, in digits.
proof fn lemma_p10_19()
    ensures
        p10(19) == 10000000000000000000,
{
    reveal_with_fuel(p10, 21);
}

/// The first position at or after `i` holding no whitespace.
fn skip_ws_exec(s: &Vec<char>, i: usize) -> (r: usize)
    requires
        i <= s@.len(),
    ensures
        r as int == skip_ws_at(s@, i as int),
        i <= r <= s@.len(),
    decreases s@.len() - i,
{
    if i < s.len() && crate::text::ws_char(s[i]) {
        skip_ws_exec(s, i + 1)
    } else {
        i
    }
}

/// The first position at or after `i` holding no decimal digit.
fn digit_run_end_exec(s: &Vec<char>, i: usize) -> (r: usize)
    requires
        i <= s@.len(),
    ensures
        r as int == digit_run_end(s@, i as int),
        i <= r <= s@.len(),
    decreases s@.len() - i,
{
    if i < s.len() && crate::schedule::digit_char(s[i]) {
        digit_run_end_exec(s, i + 1)
    } else {
        i
    }
}

/// Whether `c` is a hexadecimal digit.
fn hex_char(c: char) -> (r: bool)
    ensures
        r == is_hex(c),
{
    (c >= '0' && c <= '9') || (c >= 'a' && c <= 'f') || (c >= 'A' && c <= 'F')
}

/// The value of a hexadecimal digit.
fn hex_val_exec(c: char) -> (r: u32)
    requires
        is_hex(c),
    ensures
        r as int == hex_val(c),
        r < 16,
{
    if c >= '0' && c <= '9' {
        c as u32 - '0' as u32
    } else if c >= 'a' && c <= 'f' {
        c as u32 - 'a' as u32 + 10
    } else {
        c as u32 - 'A' as u32 + 10
    }
}

/// The control character with the given code.
fn low_char_exec(code: u32) -> (r: char)
    requires
        code < 32,
    ensures
        r == low_char(code as int),
{
    if code == 0 {
        '\u{00}'
    } else if code == 1 {
        '\u{01}'
    } else if code == 2 {
        '\u{02}'
    } else if code == 3 {
        '\u{03}'
    } else if code == 4 {
        '\u{04}'
    } else if code == 5 {
        '\u{05}'
    } else if code == 6 {
        '\u{06}'
    } else if code == 7 {
        '\u{07}'
    } else if code == 8 {
        '\u{08}'
    } else if code == 9 {
        '\u{09}'
    } else if code == 10 {
        '\u{0a}'
    } else if code == 11 {
        '\u{0b}'
    } else if code == 12 {
        '\u{0c}'
    } else if code == 13 {
        '\u{0d}'
    } else if code == 14 {
        '\u{0e}'
    } else if code == 15 {
        '\u{0f}'
    } else if code == 16 {
        '\u{10}'
    } else if code == 17 {
        '\u{11}'
    } else if code == 18 {
        '\u{12}'
    } else if code == 19 {
        '\u{13}'
    } else if code == 20 {
        '\u{14}'
    } else if code == 21 {
        '\u{15}'
    } else if code == 22 {
        '\u{16}'
    } else if code == 23 {
        '\u{17}'
    } else if code == 24 {
        '\u{18}'
    } else if code == 25 {
        '\u{19}'
    } else if code == 26 {
        '\u{1a}'
    } else if code == 27 {
        '\u{1b}'
    } else if code == 28 {
        '\u{1c}'
    } else if code == 29 {
        '\u{1d}'
    } else if code == 30 {
        '\u{1e}'
    } else {
        '\u{1f}'
    }
}

/// Read a string's characters from just after the opening quote.
fn parse_str_exec(s: &Vec<char>, i: usize) -> (r: Option<(Vec<char>, usize)>)
    requires
        i <= s@.len(),
    ensures
        match r {
            Some((t, e)) => parse_str_at(s@, i as int) == Some((t@, e as int)) && i <= e
                <= s@.len(),
            None => parse_str_at(s@, i as int) is None,
        },
    decreases s@.len() - i,
{
    if i >= s.len() {
        return None;
    }
    let c = s[i];
    if c == '"' {
        return Some((Vec::new(), i + 1));
    }
    if c == '\\' {
        if s.len() - i < 2 {
            return None;
        }
        let e = s[i + 1];
        let unescaped: Option<(char, usize)> = if e == '"' || e == '\\' || e == '/' {
            Some((e, i + 2))
        } else if e == 'n' {
            Some(('\n', i + 2))
        } else if e == 'r' {
            Some(('\r', i + 2))
        } else if e == 't' {
            Some(('\t', i + 2))
        } else if e == 'b' {
            Some(('\u{08}', i + 2))
        } else if e == 'f' {
            Some(('\u{0c}', i + 2))
        } else if e == 'u' {
            if s.len() - i < 6 {
                return None;
            }
            if !(hex_char(s[i + 2]) && hex_char(s[i + 3]) && hex_char(s[i + 4]) && hex_char(
                s[i + 5],
            )) {
                return None;
            }
            let code = hex_val_exec(s[i + 2]) * 4096 + hex_val_exec(s[i + 3]) * 256 + hex_val_exec(
                s[i + 4],
            ) * 16 + hex_val_exec(s[i + 5]);
            if code >= 32 {
                return None;
            }
            Some((low_char_exec(code), i + 6))
        } else {
            return None;
        };
        match unescaped {
            Some((ch, next)) => {
                match parse_str_exec(s, next) {
                    Some((mut rest, end)) => {
                        rest.insert(0, ch);
                        proof {
                            assert(rest@ =~= seq![ch] + rest@.drop_first());
                        }
                        Some((rest, end))
                    },
                    None => None,
                }
            },
            None => None,
        }
    } else {
        match parse_str_exec(s, i + 1) {
            Some((mut rest, end)) => {
                rest.insert(0, c);
                proof {
                    assert(rest@ =~= seq![c] + rest@.drop_first());
                }
                Some((rest, end))
            },
            None => None,
        }
    }
}

/// Read an integer at `i`.
fn parse_int_exec(s: &Vec<char>, i: usize) -> (r: Option<(i64, usize)>)
    requires
        i <= s@.len(),
    ensures
        match r {
            Some((v, e)) => parse_int_at(s@, i as int) == Some((v as int, e as int)) && i <= e
                <= s@.len(),
            None => parse_int_at(s@, i as int) is None,
        },
{
    let neg = i < s.len() && s[i] == '-';
    let d0 = if neg {
        i + 1
    } else {
        i
    };
    if !(d0 < s.len() && crate::schedule::digit_char(s[d0])) {
        return None;
    }
    let e = digit_run_end_exec(s, d0);
    proof {
        lemma_digit_run_end_props(s@, d0 as int);
    }
    if s[d0] == '0' && e > d0 + 1 {
        return None;
    }
    if e - d0 > 19 {
        proof {
            assert(digit_val(s@[d0 as int]) >= 1);
            lemma_digits_val_lower(s@, d0 as int, e as int);
            lemma_p10_mono(19, (e - d0 - 1) as nat);
            lemma_p10_19();
        }
        return None;
    }
    let mut acc: u64 = 0;
    let mut idx: usize = d0;
    proof {
        lemma_p10_19();
    }
    while idx < e
        invariant
            d0 <= idx <= e <= s@.len(),
            e - d0 <= 19,
            e as int == digit_run_end(s@, d0 as int),
            forall|k: int| d0 <= k < e ==> is_digit(#[trigger] s@[k]),
            acc as int == digits_val(s@, d0 as int, idx as int),
            acc < p10((idx - d0) as nat),
            p10(19) == 10000000000000000000,
        decreases e - idx,
    {
        proof {
            lemma_p10_mono((idx - d0) as nat, 18);
            assert(p10(19) == 10 * p10(18));
        }
        let d = (s[idx] as u32 - 48) as u64;
        assert(d as int == digit_val(s@[idx as int]) && d <= 9);
        acc = acc * 10 + d;
        idx = idx + 1;
        proof {
            assert(p10((idx - d0) as nat) == 10 * p10((idx - d0 - 1) as nat));
        }
    }
    if neg {
        if acc > 9223372036854775808u64 {
            return None;
        }
        if acc == 9223372036854775808u64 {
            Some((i64::MIN, e))
        } else {
            Some((-(acc as i64), e))
        }
    } else {
        if acc > 9223372036854775807u64 {
            return None;
        }
        Some((acc as i64, e))
    }
}

/// Read one value at `i`, skipping leading whitespace.
pub fn parse_val_exec(s: &Vec<char>, i: usize) -> (r: Option<(Json, usize)>)
    requires
        i <= s@.len(),
    ensures
        match r {
            Some((j, e)) => parse_val_at(s@, i as int) == Some((jv(j), e as int)) && i <= e
                <= s@.len(),
            None => parse_val_at(s@, i as int) is None,
        },
    decreases s@.len() - i, 2int,
{
    let j = skip_ws_exec(s, i);
    if j >= s.len() {
        return None;
    }
    let c = s[j];
    if c == 'n' {
        if s.len() - j >= 4 && s[j + 1] == 'u' && s[j + 2] == 'l' && s[j + 3] == 'l' {
            Some((Json::Null, j + 4))
        } else {
            None
        }
    } else if c == 't' {
        if s.len() - j >= 4 && s[j + 1] == 'r' && s[j + 2] == 'u' && s[j + 3] == 'e' {
            Some((Json::Bool(true), j + 4))
        } else {
            None
        }
    } else if c == 'f' {
        if s.len() - j >= 5 && s[j + 1] == 'a' && s[j + 2] == 'l' && s[j + 3] == 's' && s[j + 4]
            == 'e' {
            Some((Json::Bool(false), j + 5))
        } else {
            None
        }
    } else if c == '"' {
        match parse_str_exec(s, j + 1) {
            Some((t, e)) => Some((Json::Str(t), e)),
            None => None,
        }
    } else if c == '-' || crate::schedule::digit_char(c) {
        match parse_int_exec(s, j) {
            Some((v, e)) => Some((Json::Int(v), e)),
            None => None,
        }
    } else if c == '[' {
        let k = skip_ws_exec(s, j + 1);
        if k < s.len() && s[k] == ']' {
            let items: Vec<Json> = Vec::new();
            proof {
                assert(jv_arr(items, 0) =~= Seq::<JsonV>::empty());
            }
            Some((Json::Arr(items), k + 1))
        } else {
            match parse_elems_exec(s, j + 1) {
                Some((items, e)) => Some((Json::Arr(items), e)),
                None => None,
            }
        }
    } else if c == '{' {
        let k = skip_ws_exec(s, j + 1);
        if k < s.len() && s[k] == '}' {
            let fields: Vec<(Vec<char>, Json)> = Vec::new();
            proof {
                assert(jv_obj(fields, 0) =~= Seq::<(Seq<char>, JsonV)>::empty());
            }
            Some((Json::Obj(fields), k + 1))
        } else {
            match parse_fields_exec(s, j + 1) {
                Some((fields, e)) => Some((Json::Obj(fields), e)),
                None => None,
            }
        }
    } else {
        None
    }
}

/// Read the elements of a non-empty array.
fn parse_elems_exec(s: &Vec<char>, i: usize) -> (r: Option<(Vec<Json>, usize)>)
    requires
        i <= s@.len(),
    ensures
        match r {
            Some((items, e)) => parse_elems_at(s@, i as int) == Some((jv_arr(items, 0), e as int))
                && i <= e <= s@.len(),
            None => parse_elems_at(s@, i as int) is None,
        },
    decreases s@.len() - i, 3int,
{
    match parse_val_exec(s, i) {
        None => None,
        Some((v, k)) => {
            if k <= i {
                return None;
            }
            let m = skip_ws_exec(s, k);
            if m >= s.len() {
                return None;
            }
            if s[m] == ',' {
                match parse_elems_exec(s, m + 1) {
                    Some((mut items, e)) => {
                        let ghost rest = items;
                        items.insert(0, v);
                        proof {
                            crate::json::lemma_jv_arr(items, 0);
                            crate::json::lemma_jv_arr(rest, 0);
                            assert(jv_arr(items, 0) =~= seq![jv(v)] + jv_arr(rest, 0));
                        }
                        Some((items, e))
                    },
                    None => None,
                }
            } else if s[m] == ']' {
                let mut items: Vec<Json> = Vec::new();
                items.push(v);
                proof {
                    crate::json::lemma_jv_arr(items, 0);
                    assert(jv_arr(items, 0) =~= seq![jv(v)]);
                }
                Some((items, m + 1))
            } else {
                None
            }
        },
    }
}

/// Read the fields of a non-empty object.
fn parse_fields_exec(s: &Vec<char>, i: usize) -> (r: Option<(Vec<(Vec<char>, Json)>, usize)>)
    requires
        i <= s@.len(),
    ensures
        match r {
            Some((fields, e)) => parse_fields_at(s@, i as int) == Some(
                (jv_obj(fields, 0), e as int),
            ) && i <= e <= s@.len(),
            None => parse_fields_at(s@, i as int) is None,
        },
    decreases s@.len() - i, 3int,
{
    let m = skip_ws_exec(s, i);
    if m >= s.len() {
        return None;
    }
    if s[m] != '"' {
        return None;
    }
    match parse_str_exec(s, m + 1) {
        None => None,
        Some((key, k1)) => {
            if k1 <= m {
                return None;
            }
            let m1 = skip_ws_exec(s, k1);
            if m1 >= s.len() {
                return None;
            }
            if s[m1] != ':' {
                return None;
            }
            match parse_val_exec(s, m1 + 1) {
                None => None,
                Some((v, k2)) => {
                    if k2 <= m1 {
                        return None;
                    }
                    let m2 = skip_ws_exec(s, k2);
                    if m2 >= s.len() {
                        return None;
                    }
                    if s[m2] == ',' {
                        match parse_fields_exec(s, m2 + 1) {
                            Some((mut fields, e)) => {
                                let ghost rest = fields;
                                fields.insert(0, (key, v));
                                proof {
                                    crate::json::lemma_jv_obj(fields, 0);
                                    crate::json::lemma_jv_obj(rest, 0);
                                    assert(jv_obj(fields, 0) =~= seq![(key@, jv(v))] + jv_obj(
                                        rest,
                                        0,
                                    ));
                                }
                                Some((fields, e))
                            },
                            None => None,
                        }
                    } else if s[m2] == '}' {
                        let mut fields: Vec<(Vec<char>, Json)> = Vec::new();
                        fields.push((key, v));
                        proof {
                            crate::json::lemma_jv_obj(fields, 0);
                            assert(jv_obj(fields, 0) =~= seq![
                                (fields@[0].0@, jv(fields@[0].1)),
                            ]);
                        }
                        Some((fields, m2 + 1))
                    } else {
                        None
                    }
                },
            }
        },
    }
}

/// Read a whole document.
pub fn parse_json(s: &Vec<char>) -> (r: Option<Json>)
    ensures
        match r {
            Some(j) => parse_doc(s@) == Some(jv(j)),
            None => parse_doc(s@) is None,
        },
{
    match parse_val_exec(s, 0) {
        None => None,
        Some((j, k)) => {
            let e = skip_ws_exec(s, k);
            if e == s.len() {
                Some(j)
            } else {
                None
            }
        },
    }
}

} // verus!
