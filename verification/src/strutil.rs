//! Character-level text utilities.
//!
//! The scanning heuristic works on sequences of characters. This module
//! supplies the character classes it uses, conversion between `&str` and
//! `Vec<char>`, and whitespace normalisation of context windows.

use vstd::prelude::*;
use vstd::string::StrSliceExecFns;

verus! {

/// Relies on `alloc::string::String::push`: appends the given character to
/// the end of the string.
pub assume_specification[ String::push ](s: &mut String, c: char)
    ensures
        final(s)@ == old(s)@.push(c),
;

/// Decimal digit, `'0'` to `'9'`.
pub open spec fn spec_is_digit(c: char) -> bool {
    48 <= c as u32 && c as u32 <= 57
}

/// Numeric value of a decimal digit character.
pub open spec fn spec_digit_val(c: char) -> nat {
    (c as u32 - 48) as nat
}

/// The whitespace class used by the scanning heuristic: ASCII whitespace
/// plus the Unicode space separators, line/paragraph separators, no-break
/// spaces and the byte-order mark.
pub open spec fn spec_is_space(c: char) -> bool {
    let u = c as u32;
    ||| u == 9
    ||| u == 10
    ||| u == 11
    ||| u == 12
    ||| u == 13
    ||| u == 32
    ||| u == 0xA0
    ||| u == 0x1680
    ||| (0x2000 <= u && u <= 0x200A)
    ||| u == 0x2028
    ||| u == 0x2029
    ||| u == 0x202F
    ||| u == 0x205F
    ||| u == 0x3000
    ||| u == 0xFEFF
}

/// Decimal digit test.
pub fn is_digit(c: char) -> (r: bool)
    ensures
        r == spec_is_digit(c),
{
    let u = c as u32;
    48 <= u && u <= 57
}

/// Whitespace test, per [`spec_is_space`].
pub fn is_space(c: char) -> (r: bool)
    ensures
        r == spec_is_space(c),
{
    let u = c as u32;
    u == 9 || u == 10 || u == 11 || u == 12 || u == 13 || u == 32 || u == 0xA0 || u == 0x1680
        || (0x2000 <= u && u <= 0x200A) || u == 0x2028 || u == 0x2029 || u == 0x202F
        || u == 0x205F || u == 0x3000 || u == 0xFEFF
}

/// The characters of a string, in order.
pub fn chars_of(s: &str) -> (r: Vec<char>)
    ensures
        r@ == s@,
{
    let n = s.unicode_len();
    let mut v: Vec<char> = Vec::new();
    let mut i: usize = 0;
    while i < n
        invariant
            i <= n,
            n == s@.len(),
            v@ == s@.subrange(0, i as int),
        decreases n - i,
    {
        let c = s.get_char(i);
        v.push(c);
        i = i + 1;
        assert(v@ =~= s@.subrange(0, i as int));
    }
    assert(v@ =~= s@);
    v
}

/// Appends every character of `v` to `s`.
pub fn push_chars(s: &mut String, v: &Vec<char>)
    ensures
        final(s)@ == old(s)@ + v@,
{
    let n = v.len();
    let mut i: usize = 0;
    while i < n
        invariant
            i <= n,
            n == v@.len(),
            s@ == old(s)@ + v@.subrange(0, i as int),
        decreases n - i,
    {
        s.push(v[i]);
        i = i + 1;
        assert(s@ =~= old(s)@ + v@.subrange(0, i as int));
    }
    assert(s@ =~= old(s)@ + v@);
}

/// A `String` holding exactly the characters of `v`.
pub fn string_of_chars(v: &Vec<char>) -> (r: String)
    ensures
        r@ == v@,
{
    let mut s = String::new();
    push_chars(&mut s, v);
    s
}

/// End of the maximal run of decimal digits starting at `i`.
pub open spec fn digit_run_end(t: Seq<char>, i: int) -> int
    decreases t.len() - i,
    when 0 <= i <= t.len()
{
    if i < t.len() && spec_is_digit(t[i]) {
        digit_run_end(t, i + 1)
    } else {
        i
    }
}

/// End of the maximal run of whitespace starting at `i`.
pub open spec fn space_run_end(t: Seq<char>, i: int) -> int
    decreases t.len() - i,
    when 0 <= i <= t.len()
{
    if i < t.len() && spec_is_space(t[i]) {
        space_run_end(t, i + 1)
    } else {
        i
    }
}

/// The digit run starting at `i` lies between `i` and the end of the text,
/// consists of digits, and is maximal.
pub proof fn lemma_digit_run_end(t: Seq<char>, i: int)
    requires
        0 <= i <= t.len(),
    ensures
        i <= digit_run_end(t, i) <= t.len(),
        forall|k: int| i <= k < digit_run_end(t, i) ==> spec_is_digit(t[k]),
        digit_run_end(t, i) < t.len() ==> !spec_is_digit(t[digit_run_end(t, i)]),
    decreases t.len() - i,
{
    if i < t.len() && spec_is_digit(t[i]) {
        lemma_digit_run_end(t, i + 1);
    }
}

/// The whitespace run starting at `i` lies between `i` and the end of the
/// text, consists of whitespace, and is maximal.
pub proof fn lemma_space_run_end(t: Seq<char>, i: int)
    requires
        0 <= i <= t.len(),
    ensures
        i <= space_run_end(t, i) <= t.len(),
        forall|k: int| i <= k < space_run_end(t, i) ==> spec_is_space(t[k]),
        space_run_end(t, i) < t.len() ==> !spec_is_space(t[space_run_end(t, i)]),
    decreases t.len() - i,
{
    if i < t.len() && spec_is_space(t[i]) {
        lemma_space_run_end(t, i + 1);
    }
}

/// End of the maximal digit run starting at `i`.
pub fn digit_run_end_exec(t: &Vec<char>, i: usize) -> (j: usize)
    requires
        i <= t@.len(),
    ensures
        j == digit_run_end(t@, i as int),
{
    let n = t.len();
    let mut j = i;
    while j < n && is_digit(t[j])
        invariant
            i <= j <= n,
            n == t@.len(),
            digit_run_end(t@, i as int) == digit_run_end(t@, j as int),
        decreases n - j,
    {
        j = j + 1;
    }
    j
}

/// End of the maximal whitespace run starting at `i`.
pub fn space_run_end_exec(t: &Vec<char>, i: usize) -> (j: usize)
    requires
        i <= t@.len(),
    ensures
        j == space_run_end(t@, i as int),
{
    let n = t.len();
    let mut j = i;
    while j < n && is_space(t[j])
        invariant
            i <= j <= n,
            n == t@.len(),
            space_run_end(t@, i as int) == space_run_end(t@, j as int),
        decreases n - j,
    {
        j = j + 1;
    }
    j
}

/// The text from position `i` on, with every whitespace run replaced by a
/// single space.
pub open spec fn collapse_from(s: Seq<char>, i: int) -> Seq<char>
    decreases s.len() - i,
    when 0 <= i <= s.len()
    via collapse_from_dec
{
    if i >= s.len() {
        Seq::empty()
    } else if spec_is_space(s[i]) {
        seq![' '] + collapse_from(s, space_run_end(s, i))
    } else {
        seq![s[i]] + collapse_from(s, i + 1)
    }
}

#[via_fn]
proof fn collapse_from_dec(s: Seq<char>, i: int) {
    if 0 <= i && i < s.len() && spec_is_space(s[i]) {
        lemma_space_run_end(s, i);
    }
}

/// Removal of one leading and one trailing space. On a whitespace-collapsed
/// text this is exactly trimming.
pub open spec fn trim_sp(s: Seq<char>) -> Seq<char> {
    let a = if s.len() > 0 && s[0] == ' ' {
        s.subrange(1, s.len() as int)
    } else {
        s
    };
    if a.len() > 0 && a[a.len() - 1] == ' ' {
        a.subrange(0, a.len() - 1)
    } else {
        a
    }
}

/// A context window, normalised: whitespace runs collapsed to single spaces,
/// then trimmed.
pub open spec fn normalize_ctx(s: Seq<char>) -> Seq<char> {
    trim_sp(collapse_from(s, 0))
}

/// Replaces every whitespace run by a single space.
pub fn collapse_ws(s: &Vec<char>) -> (r: Vec<char>)
    ensures
        r@ == collapse_from(s@, 0),
{
    let n = s.len();
    let mut out: Vec<char> = Vec::new();
    let mut i: usize = 0;
    while i < n
        invariant
            i <= n,
            n == s@.len(),
            collapse_from(s@, 0) == out@ + collapse_from(s@, i as int),
        decreases n - i,
    {
        let ghost prev = out@;
        let ghost i0 = i as int;
        if is_space(s[i]) {
            out.push(' ');
            proof {
                lemma_space_run_end(s@, i as int);
            }
            i = space_run_end_exec(s, i);
            assert(collapse_from(s@, i0) == seq![' '] + collapse_from(s@, i as int));
            assert(out@ + collapse_from(s@, i as int) =~= prev + collapse_from(s@, i0));
        } else {
            out.push(s[i]);
            i = i + 1;
            assert(collapse_from(s@, i0) == seq![s@[i0]] + collapse_from(s@, i as int));
            assert(out@ + collapse_from(s@, i as int) =~= prev + collapse_from(s@, i0));
        }
    }
    assert(out@ =~= collapse_from(s@, 0));
    out
}

/// Removes one leading and one trailing space.
pub fn trim_spaces(s: &Vec<char>) -> (r: Vec<char>)
    ensures
        r@ == trim_sp(s@),
{
    let n = s.len();
    let start: usize = if n > 0 && s[0] == ' ' {
        1
    } else {
        0
    };
    let end: usize = if n > start && s[n - 1] == ' ' {
        n - 1
    } else {
        n
    };
    let r = subvec(s, start, end);
    assert(r@ =~= trim_sp(s@));
    r
}

/// Normalises a context window: collapses whitespace, then trims.
pub fn normalize_ctx_exec(s: &Vec<char>) -> (r: Vec<char>)
    ensures
        r@ == normalize_ctx(s@),
{
    let c = collapse_ws(s);
    trim_spaces(&c)
}

/// Copy of the characters of `t` in positions `a..b`.
pub fn subvec(t: &Vec<char>, a: usize, b: usize) -> (r: Vec<char>)
    requires
        a <= b <= t@.len(),
    ensures
        r@ == t@.subrange(a as int, b as int),
{
    let mut v: Vec<char> = Vec::new();
    let mut i: usize = a;
    while i < b
        invariant
            a <= i <= b <= t@.len(),
            v@ == t@.subrange(a as int, i as int),
        decreases b - i,
    {
        v.push(t[i]);
        i = i + 1;
        assert(v@ =~= t@.subrange(a as int, i as int));
    }
    v
}

} // verus!
