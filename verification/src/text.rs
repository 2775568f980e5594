//! Text utilities over `Vec<char>`.
//!
//! The command grammar splits on whitespace and trims; both operations are
//! specified by recursive functions over `Seq<char>` and implemented by
//! index scans proved equal to those definitions. Whitespace here means the
//! four ASCII separator characters.

use vstd::prelude::*;

verus! {

use vstd::std_specs::iter::IteratorSpec;

/// ASCII whitespace: the separators the command grammar recognises.
pub open spec fn is_ws(c: char) -> bool {
    c == ' ' || c == '\t' || c == '\n' || c == '\r'
}

/// `p` is a prefix of `s`.
pub open spec fn has_prefix(s: Seq<char>, p: Seq<char>) -> bool {
    p.len() <= s.len() && s.take(p.len() as int) == p
}

/// Leading whitespace removed.
pub open spec fn trim_start(s: Seq<char>) -> Seq<char>
    decreases s.len(),
{
    if s.len() > 0 && is_ws(s[0]) {
        trim_start(s.drop_first())
    } else {
        s
    }
}

/// Trailing whitespace removed.
pub open spec fn trim_end(s: Seq<char>) -> Seq<char>
    decreases s.len(),
{
    if s.len() > 0 && is_ws(s[s.len() - 1]) {
        trim_end(s.drop_last())
    } else {
        s
    }
}

/// Leading and trailing whitespace removed.
pub open spec fn trimmed(s: Seq<char>) -> Seq<char> {
    trim_end(trim_start(s))
}

/// The leading run of non-whitespace characters.
pub open spec fn head_token(s: Seq<char>) -> Seq<char>
    decreases s.len(),
{
    if s.len() > 0 && !is_ws(s[0]) {
        seq![s[0]] + head_token(s.drop_first())
    } else {
        Seq::empty()
    }
}

/// The sequence with its leading run of non-whitespace characters removed.
pub open spec fn drop_token(s: Seq<char>) -> Seq<char>
    decreases s.len(),
{
    if s.len() > 0 && !is_ws(s[0]) {
        drop_token(s.drop_first())
    } else {
        s
    }
}

/// The second whitespace-separated token of `s`, empty if there is none.
pub open spec fn second_token(s: Seq<char>) -> Seq<char> {
    head_token(trim_start(drop_token(trim_start(s))))
}

/// If the first `i` characters are whitespace and the next one is not,
/// trimming the start removes exactly those `i` characters.
proof fn lemma_trim_start_at(s: Seq<char>, i: int)
    requires
        0 <= i <= s.len(),
        forall|k: int| 0 <= k < i ==> is_ws(#[trigger] s[k]),
        i == s.len() || !is_ws(s[i]),
    ensures
        trim_start(s) == s.skip(i),
    decreases i,
{
    if i == 0 {
        assert(s.skip(0) =~= s);
    } else {
        assert(is_ws(s[0]));
        lemma_trim_start_at(s.drop_first(), i - 1);
        assert(s.drop_first().skip(i - 1) =~= s.skip(i));
    }
}

/// If everything from `b` on is whitespace and the character before `b` is
/// not, trimming the end keeps exactly the first `b` characters.
proof fn lemma_trim_end_at(s: Seq<char>, b: int)
    requires
        0 <= b <= s.len(),
        forall|k: int| b <= k < s.len() ==> is_ws(#[trigger] s[k]),
        b == 0 || !is_ws(s[b - 1]),
    ensures
        trim_end(s) == s.take(b),
    decreases s.len(),
{
    if b == s.len() {
        assert(s.take(b) =~= s);
    } else {
        assert(is_ws(s[s.len() - 1]));
        lemma_trim_end_at(s.drop_last(), b);
        assert(s.drop_last().take(b) =~= s.take(b));
    }
}

/// If the first `i` characters are not whitespace and the next one is,
/// dropping the leading token removes exactly those `i` characters.
proof fn lemma_drop_token_at(s: Seq<char>, i: int)
    requires
        0 <= i <= s.len(),
        forall|k: int| 0 <= k < i ==> !is_ws(#[trigger] s[k]),
        i == s.len() || is_ws(s[i]),
    ensures
        drop_token(s) == s.skip(i),
    decreases i,
{
    if i == 0 {
        assert(s.skip(0) =~= s);
    } else {
        assert(!is_ws(s[0]));
        lemma_drop_token_at(s.drop_first(), i - 1);
        assert(s.drop_first().skip(i - 1) =~= s.skip(i));
    }
}

/// Under the same border, the leading token is exactly the first `i`
/// characters.
proof fn lemma_head_token_at(s: Seq<char>, i: int)
    requires
        0 <= i <= s.len(),
        forall|k: int| 0 <= k < i ==> !is_ws(#[trigger] s[k]),
        i == s.len() || is_ws(s[i]),
    ensures
        head_token(s) == s.take(i),
    decreases i,
{
    if i == 0 {
        assert(s.take(0) =~= Seq::<char>::empty());
    } else {
        assert(!is_ws(s[0]));
        lemma_head_token_at(s.drop_first(), i - 1);
        assert(seq![s[0]] + s.drop_first().take(i - 1) =~= s.take(i));
    }
}

/// The characters of `s`, in order.
pub fn chars_of(s: &str) -> (r: Vec<char>)
    ensures
        r@ == s@,
{
    let mut r: Vec<char> = Vec::new();
    for c in it: s.chars()
        invariant
            it.seq() == s@,
            r@ =~= it.seq().take(it.index() as int),
    {
        r.push(c);
    }
    proof {
        assert(r@ =~= s@);
    }
    r
}

/// Whether `c` is one of the recognised whitespace characters.
pub fn ws_char(c: char) -> (r: bool)
    ensures
        r == is_ws(c),
{
    c == ' ' || c == '\t' || c == '\n' || c == '\r'
}

/// Character-for-character equality.
pub fn text_eq(a: &Vec<char>, b: &Vec<char>) -> (r: bool)
    ensures
        r == (a@ == b@),
{
    if a.len() != b.len() {
        return false;
    }
    let mut i: usize = 0;
    while i < a.len()
        invariant
            i <= a.len(),
            a.len() == b.len(),
            forall|k: int| 0 <= k < i ==> a@[k] == b@[k],
        decreases a.len() - i,
    {
        if a[i] != b[i] {
            return false;
        }
        i = i + 1;
    }
    proof {
        assert(a@ =~= b@);
    }
    true
}

/// Whether `p` is a prefix of `s`.
pub fn starts_with_text(s: &Vec<char>, p: &Vec<char>) -> (r: bool)
    ensures
        r == has_prefix(s@, p@),
{
    if p.len() > s.len() {
        return false;
    }
    let mut i: usize = 0;
    while i < p.len()
        invariant
            i <= p.len() <= s.len(),
            forall|k: int| 0 <= k < i ==> s@[k] == p@[k],
        decreases p.len() - i,
    {
        if s[i] != p[i] {
            assert(s@.take(p@.len() as int)[i as int] == s@[i as int]);
            return false;
        }
        i = i + 1;
    }
    proof {
        assert(s@.take(p@.len() as int) =~= p@);
    }
    true
}

/// The characters of `s` from `from` (inclusive) to `to` (exclusive).
pub fn subtext(s: &Vec<char>, from: usize, to: usize) -> (r: Vec<char>)
    requires
        from <= to <= s.len(),
    ensures
        r@ == s@.subrange(from as int, to as int),
{
    let mut r: Vec<char> = Vec::new();
    let mut i: usize = from;
    while i < to
        invariant
            from <= i <= to <= s.len(),
            r@ =~= s@.subrange(from as int, i as int),
        decreases to - i,
    {
        r.push(s[i]);
        assert(r@ =~= s@.subrange(from as int, i + 1 as int));
        i = i + 1;
    }
    r
}

/// A copy of `v`.
pub fn copy_text(v: &Vec<char>) -> (r: Vec<char>)
    ensures
        r@ == v@,
{
    let r = subtext(v, 0, v.len());
    proof {
        assert(v@.subrange(0, v@.len() as int) =~= v@);
    }
    r
}

/// Append `src` to `dst`.
pub fn append_text(dst: &mut Vec<char>, src: &Vec<char>)
    ensures
        final(dst)@ == old(dst)@ + src@,
{
    let mut i: usize = 0;
    while i < src.len()
        invariant
            i <= src@.len(),
            dst@ =~= old(dst)@ + src@.take(i as int),
        decreases src@.len() - i,
    {
        dst.push(src[i]);
        assert(dst@ =~= old(dst)@ + src@.take(i + 1 as int));
        i = i + 1;
    }
    proof {
        assert(dst@ =~= old(dst)@ + src@);
    }
}

/// The first position at or after `from` holding a non-whitespace character.
fn skip_ws_idx(s: &Vec<char>, from: usize) -> (r: usize)
    requires
        from <= s.len(),
    ensures
        from <= r <= s.len(),
        forall|k: int| from <= k < r ==> is_ws(#[trigger] s@[k]),
        r == s.len() || !is_ws(s@[r as int]),
{
    let mut i: usize = from;
    loop
        invariant
            from <= i <= s.len(),
            forall|k: int| from <= k < i ==> is_ws(#[trigger] s@[k]),
        ensures
            from <= i <= s.len(),
            forall|k: int| from <= k < i ==> is_ws(#[trigger] s@[k]),
            i == s.len() || !is_ws(s@[i as int]),
        decreases s.len() - i,
    {
        if i == s.len() {
            break;
        }
        if !ws_char(s[i]) {
            break;
        }
        i = i + 1;
    }
    i
}

/// The first position at or after `from` holding a whitespace character.
fn skip_token_idx(s: &Vec<char>, from: usize) -> (r: usize)
    requires
        from <= s.len(),
    ensures
        from <= r <= s.len(),
        forall|k: int| from <= k < r ==> !is_ws(#[trigger] s@[k]),
        r == s.len() || is_ws(s@[r as int]),
{
    let mut i: usize = from;
    loop
        invariant
            from <= i <= s.len(),
            forall|k: int| from <= k < i ==> !is_ws(#[trigger] s@[k]),
        ensures
            from <= i <= s.len(),
            forall|k: int| from <= k < i ==> !is_ws(#[trigger] s@[k]),
            i == s.len() || is_ws(s@[i as int]),
        decreases s.len() - i,
    {
        if i == s.len() {
            break;
        }
        if ws_char(s[i]) {
            break;
        }
        i = i + 1;
    }
    i
}

/// `s` with leading and trailing whitespace removed.
pub fn trim_text(s: &Vec<char>) -> (r: Vec<char>)
    ensures
        r@ == trimmed(s@),
{
    let a = skip_ws_idx(s, 0);
    let mut b: usize = s.len();
    loop
        invariant
            a <= b <= s.len(),
            forall|k: int| b <= k < s.len() ==> is_ws(#[trigger] s@[k]),
        ensures
            a <= b <= s.len(),
            forall|k: int| b <= k < s.len() ==> is_ws(#[trigger] s@[k]),
            b == a || !is_ws(s@[b - 1]),
        decreases b,
    {
        if b == a {
            break;
        }
        if !ws_char(s[b - 1]) {
            break;
        }
        b = b - 1;
    }
    proof {
        lemma_trim_start_at(s@, a as int);
        if a == s.len() {
            assert(b == a);
        }
        lemma_trim_end_at(s@.skip(a as int), b - a);
        assert(s@.skip(a as int).take(b - a) =~= s@.subrange(a as int, b as int));
    }
    subtext(s, a, b)
}

/// The second whitespace-separated token of `s`, if any.
pub fn second_token_text(s: &Vec<char>) -> (r: Option<Vec<char>>)
    ensures
        match r {
            Some(t) => t@ == second_token(s@) && t@.len() > 0,
            None => second_token(s@).len() == 0,
        },
{
    let i0 = skip_ws_idx(s, 0);
    let i1 = skip_token_idx(s, i0);
    let i2 = skip_ws_idx(s, i1);
    let i3 = skip_token_idx(s, i2);
    proof {
        lemma_trim_start_at(s@, i0 as int);
        lemma_drop_token_at(s@.skip(i0 as int), i1 - i0);
        assert(s@.skip(i0 as int).skip(i1 - i0) =~= s@.skip(i1 as int));
        lemma_trim_start_at(s@.skip(i1 as int), i2 - i1);
        assert(s@.skip(i1 as int).skip(i2 - i1) =~= s@.skip(i2 as int));
        lemma_head_token_at(s@.skip(i2 as int), i3 - i2);
        assert(s@.skip(i2 as int).take(i3 - i2) =~= s@.subrange(i2 as int, i3 as int));
    }
    if i2 == s.len() {
        None
    } else {
        Some(subtext(s, i2, i3))
    }
}

} // verus!
