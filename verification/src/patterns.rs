//! Context exclusion patterns.
//!
//! A percentage occurrence is judged by the text around it. A context that
//! matches any pattern here is *non-usage* wording — a discount, a progress
//! counter, a quota description, or a bare percentage with nothing around it
//! — and the occurrence is discarded. Patterns work on normalised context
//! windows (whitespace collapsed, then trimmed).

use crate::strutil::digit_run_end;
use crate::strutil::digit_run_end_exec;
use crate::strutil::space_run_end;
use crate::strutil::space_run_end_exec;
use crate::strutil::spec_is_digit;
use crate::strutil::is_digit;
use vstd::prelude::*;

verus! {

/// Character match against a lowercase pattern character, ASCII upper case
/// folding onto it.
pub open spec fn spec_char_eq_ci(a: char, w: char) -> bool {
    a == w || (65 <= a as u32 && a as u32 <= 90 && a as u32 + 32 == w as u32)
}

/// Character match per [`spec_char_eq_ci`].
pub fn char_eq_ci(a: char, w: char) -> (r: bool)
    ensures
        r == spec_char_eq_ci(a, w),
{
    let ua = a as u32;
    let uw = w as u32;
    a == w || (65 <= ua && ua <= 90 && ua + 32 == uw)
}

/// The word `w` stands in `ctx` at position `i`; case-insensitive on ASCII
/// letters when `ci` is set (then `w` is given in lower case).
pub open spec fn word_at(ctx: Seq<char>, w: Seq<char>, ci: bool, i: int) -> bool {
    &&& 0 <= i
    &&& i + w.len() <= ctx.len()
    &&& forall|k: int|
        0 <= k < w.len() ==> (if ci {
            spec_char_eq_ci(ctx[i + k], w[k])
        } else {
            ctx[i + k] == w[k]
        })
}

/// Position after an optional ASCII or fullwidth colon at `j`.
pub open spec fn colon_skip(ctx: Seq<char>, j: int) -> int {
    if 0 <= j < ctx.len() && (ctx[j] == ':' || ctx[j] == '\u{FF1A}') {
        j + 1
    } else {
        j
    }
}

/// The shape `word [colon] [spaces] digits [ [spaces] '%' ]` stands in `ctx`
/// at position `i`. The flags select which of the optional parts the pattern
/// allows or demands: `colon` allows a colon after the word, `sp` allows
/// whitespace before the digits, `pct` demands a percent sign after the
/// digits, and `sp_pct` allows whitespace before that percent sign.
pub open spec fn word_num_at(
    ctx: Seq<char>,
    w: Seq<char>,
    ci: bool,
    colon: bool,
    sp: bool,
    pct: bool,
    sp_pct: bool,
    i: int,
) -> bool {
    word_at(ctx, w, ci, i) && {
        let j0 = i + w.len() as int;
        let j1 = if colon {
            colon_skip(ctx, j0)
        } else {
            j0
        };
        let j2 = if sp {
            space_run_end(ctx, j1)
        } else {
            j1
        };
        j2 < ctx.len() && spec_is_digit(ctx[j2]) && (if pct {
            let j3 = digit_run_end(ctx, j2);
            let j4 = if sp_pct {
                space_run_end(ctx, j3)
            } else {
                j3
            };
            j4 < ctx.len() && ctx[j4] == '%'
        } else {
            true
        })
    }
}

/// Some position of `ctx` carries the pattern of [`word_num_at`].
pub open spec fn word_num_found(
    ctx: Seq<char>,
    w: Seq<char>,
    ci: bool,
    colon: bool,
    sp: bool,
    pct: bool,
    sp_pct: bool,
) -> bool {
    exists|i: int| word_num_at(ctx, w, ci, colon, sp, pct, sp_pct, i)
}

/// The shape `digits [spaces] '%' [spaces] word` stands in `ctx` at
/// position `i`.
pub open spec fn num_pct_word_at(ctx: Seq<char>, w: Seq<char>, i: int) -> bool {
    0 <= i < ctx.len() && spec_is_digit(ctx[i]) && {
        let j = space_run_end(ctx, digit_run_end(ctx, i));
        j < ctx.len() && ctx[j] == '%' && word_at(ctx, w, false, space_run_end(ctx, j + 1))
    }
}

/// Some position of `ctx` carries the pattern of [`num_pct_word_at`].
pub open spec fn num_pct_word_found(ctx: Seq<char>, w: Seq<char>) -> bool {
    exists|i: int| num_pct_word_at(ctx, w, i)
}

/// The whole context is nothing but a percentage: optional whitespace,
/// digits, `'%'`, optional whitespace.
pub open spec fn standalone_pct(ctx: Seq<char>) -> bool {
    let a = space_run_end(ctx, 0);
    a < ctx.len() && spec_is_digit(ctx[a]) && {
        let d = digit_run_end(ctx, a);
        d < ctx.len() && ctx[d] == '%' && space_run_end(ctx, d + 1) == ctx.len()
    }
}

/// Word test per [`word_at`].
pub fn word_at_exec(ctx: &Vec<char>, w: &Vec<char>, ci: bool, i: usize) -> (r: bool)
    requires
        i <= ctx@.len(),
    ensures
        r == word_at(ctx@, w@, ci, i as int),
{
    let wl = w.len();
    let n = ctx.len();
    if n - i < wl {
        return false;
    }
    let mut k: usize = 0;
    while k < wl
        invariant
            k <= wl,
            wl == w@.len(),
            n == ctx@.len(),
            i + wl <= n,
            forall|m: int|
                0 <= m < k ==> (if ci {
                    spec_char_eq_ci(ctx@[i + m], w@[m])
                } else {
                    ctx@[i + m] == w@[m]
                }),
        decreases wl - k,
    {
        let ok = if ci {
            char_eq_ci(ctx[i + k], w[k])
        } else {
            ctx[i + k] == w[k]
        };
        if !ok {
            return false;
        }
        k = k + 1;
    }
    true
}

/// Pattern test at one position, per [`word_num_at`].
pub fn word_num_at_exec(
    ctx: &Vec<char>,
    w: &Vec<char>,
    ci: bool,
    colon: bool,
    sp: bool,
    pct: bool,
    sp_pct: bool,
    i: usize,
) -> (r: bool)
    requires
        i <= ctx@.len(),
    ensures
        r == word_num_at(ctx@, w@, ci, colon, sp, pct, sp_pct, i as int),
{
    if !word_at_exec(ctx, w, ci, i) {
        return false;
    }
    let n = ctx.len();
    let j0 = i + w.len();
    let j1 = if colon && j0 < n && (ctx[j0] == ':' || ctx[j0] == '\u{FF1A}') {
        j0 + 1
    } else {
        j0
    };
    let j2 = if sp {
        space_run_end_exec(ctx, j1)
    } else {
        j1
    };
    proof {
        if sp {
            crate::strutil::lemma_space_run_end(ctx@, j1 as int);
        }
    }
    if !(j2 < n && is_digit(ctx[j2])) {
        return false;
    }
    if pct {
        let j3 = digit_run_end_exec(ctx, j2);
        proof {
            crate::strutil::lemma_digit_run_end(ctx@, j2 as int);
        }
        let j4 = if sp_pct {
            space_run_end_exec(ctx, j3)
        } else {
            j3
        };
        j4 < n && ctx[j4] == '%'
    } else {
        true
    }
}

/// Pattern search, per [`word_num_found`].
pub fn word_num_found_exec(
    ctx: &Vec<char>,
    w: &Vec<char>,
    ci: bool,
    colon: bool,
    sp: bool,
    pct: bool,
    sp_pct: bool,
) -> (r: bool)
    requires
        w@.len() >= 1,
    ensures
        r == word_num_found(ctx@, w@, ci, colon, sp, pct, sp_pct),
{
    let n = ctx.len();
    let mut i: usize = 0;
    while i < n
        invariant
            i <= n,
            n == ctx@.len(),
            w@.len() >= 1,
            forall|k: int| 0 <= k < i ==> !word_num_at(ctx@, w@, ci, colon, sp, pct, sp_pct, k),
        decreases n - i,
    {
        if word_num_at_exec(ctx, w, ci, colon, sp, pct, sp_pct, i) {
            assert(word_num_at(ctx@, w@, ci, colon, sp, pct, sp_pct, i as int));
            return true;
        }
        i = i + 1;
    }
    assert forall|k: int| !word_num_at(ctx@, w@, ci, colon, sp, pct, sp_pct, k) by {
        if 0 <= k < n {
            assert(!word_num_at(ctx@, w@, ci, colon, sp, pct, sp_pct, k));
        }
    }
    false
}

/// Pattern test at one position, per [`num_pct_word_at`].
pub fn num_pct_word_at_exec(ctx: &Vec<char>, w: &Vec<char>, i: usize) -> (r: bool)
    requires
        i <= ctx@.len(),
    ensures
        r == num_pct_word_at(ctx@, w@, i as int),
{
    if !(i < ctx.len() && is_digit(ctx[i])) {
        return false;
    }
    let d = digit_run_end_exec(ctx, i);
    proof {
        crate::strutil::lemma_digit_run_end(ctx@, i as int);
    }
    let j = space_run_end_exec(ctx, d);
    proof {
        crate::strutil::lemma_space_run_end(ctx@, d as int);
    }
    if !(j < ctx.len() && ctx[j] == '%') {
        return false;
    }
    let m = space_run_end_exec(ctx, j + 1);
    proof {
        crate::strutil::lemma_space_run_end(ctx@, j as int + 1);
    }
    word_at_exec(ctx, w, false, m)
}

/// Pattern search, per [`num_pct_word_found`].
pub fn num_pct_word_found_exec(ctx: &Vec<char>, w: &Vec<char>) -> (r: bool)
    ensures
        r == num_pct_word_found(ctx@, w@),
{
    let n = ctx.len();
    let mut i: usize = 0;
    while i < n
        invariant
            i <= n,
            n == ctx@.len(),
            forall|k: int| 0 <= k < i ==> !num_pct_word_at(ctx@, w@, k),
        decreases n - i,
    {
        if num_pct_word_at_exec(ctx, w, i) {
            assert(num_pct_word_at(ctx@, w@, i as int));
            return true;
        }
        i = i + 1;
    }
    assert forall|k: int| !num_pct_word_at(ctx@, w@, k) by {
        if 0 <= k < n {
            assert(!num_pct_word_at(ctx@, w@, k));
        }
    }
    false
}

/// Discount wording.
pub open spec fn w_discount() -> Seq<char> {
    seq!['\u{4F18}', '\u{60E0}']
}

/// Rebate wording.
pub open spec fn w_rebate() -> Seq<char> {
    seq!['\u{6298}', '\u{6263}']
}

/// Gift wording.
pub open spec fn w_gift() -> Seq<char> {
    seq!['\u{8D60}', '\u{9001}']
}

/// "Already used" wording.
pub open spec fn w_used() -> Seq<char> {
    seq!['\u{5DF2}', '\u{7528}']
}

/// "Remaining" wording.
pub open spec fn w_remaining() -> Seq<char> {
    seq!['\u{5269}', '\u{4F59}']
}

/// "Available" wording.
pub open spec fn w_available() -> Seq<char> {
    seq!['\u{53EF}', '\u{7528}']
}

/// "Consumed" wording.
pub open spec fn w_consumed() -> Seq<char> {
    seq!['\u{5DF2}', '\u{6D88}', '\u{8017}']
}

/// "Progress" wording (Chinese).
pub open spec fn w_progress_zh() -> Seq<char> {
    seq!['\u{8FDB}', '\u{5EA6}']
}

/// "completed" wording (matched case-insensitively).
pub open spec fn w_completed() -> Seq<char> {
    seq!['c', 'o', 'm', 'p', 'l', 'e', 't', 'e', 'd']
}

/// "progress" wording (matched case-insensitively).
pub open spec fn w_progress_en() -> Seq<char> {
    seq!['p', 'r', 'o', 'g', 'r', 'e', 's', 's']
}

/// "Already" wording.
pub open spec fn w_already() -> Seq<char> {
    seq!['\u{5DF2}']
}

/// "Complete" wording.
pub open spec fn w_complete() -> Seq<char> {
    seq!['\u{5B8C}', '\u{6210}']
}

/// "Ongoing" wording.
pub open spec fn w_ongoing() -> Seq<char> {
    seq!['\u{8FDB}', '\u{884C}']
}

/// "Total amount" wording.
pub open spec fn w_total_amount() -> Seq<char> {
    seq!['\u{603B}', '\u{989D}']
}

/// "Quota" wording.
pub open spec fn w_quota() -> Seq<char> {
    seq!['\u{914D}', '\u{989D}']
}

/// "Limit" wording.
pub open spec fn w_limit() -> Seq<char> {
    seq!['\u{9650}', '\u{5236}']
}

/// "Total volume" wording.
pub open spec fn w_total_volume() -> Seq<char> {
    seq!['\u{603B}', '\u{91CF}']
}

/// "Total sum" wording.
pub open spec fn w_total_sum() -> Seq<char> {
    seq!['\u{603B}', '\u{8BA1}']
}

/// The context marks its percentage as non-usage wording, or carries too
/// little context to judge. A normalised context shorter than ten characters
/// is a bare percentage; the patterns cover discount, rebate and gift offers,
/// used/remaining/available/consumed counters, progress counters in either
/// language, percentages directly attached to state words, a standalone
/// percentage, and total/quota/limit descriptions.
pub open spec fn spec_excluded(ctx: Seq<char>) -> bool {
    ||| ctx.len() < 10
    ||| word_num_found(ctx, w_discount(), false, false, false, true, false)
    ||| word_num_found(ctx, w_rebate(), false, false, false, true, false)
    ||| word_num_found(ctx, w_gift(), false, false, false, true, false)
    ||| word_num_found(ctx, w_used(), false, false, false, true, false)
    ||| word_num_found(ctx, w_remaining(), false, false, false, true, false)
    ||| word_num_found(ctx, w_available(), false, false, false, true, false)
    ||| word_num_found(ctx, w_consumed(), false, false, false, true, false)
    ||| word_num_found(ctx, w_progress_zh(), false, true, true, false, false)
    ||| word_num_found(ctx, w_completed(), true, false, true, false, false)
    ||| word_num_found(ctx, w_progress_en(), true, false, true, false, false)
    ||| num_pct_word_found(ctx, w_already())
    ||| num_pct_word_found(ctx, w_remaining())
    ||| num_pct_word_found(ctx, w_complete())
    ||| num_pct_word_found(ctx, w_ongoing())
    ||| word_num_found(ctx, w_already(), false, false, true, true, true)
    ||| word_num_found(ctx, w_remaining(), false, false, true, true, true)
    ||| word_num_found(ctx, w_complete(), false, false, true, true, true)
    ||| word_num_found(ctx, w_ongoing(), false, false, true, true, true)
    ||| standalone_pct(ctx)
    ||| word_num_found(ctx, w_total_amount(), false, true, true, true, false)
    ||| word_num_found(ctx, w_quota(), false, true, true, true, false)
    ||| word_num_found(ctx, w_limit(), false, true, true, true, false)
    ||| word_num_found(ctx, w_total_volume(), false, true, true, true, false)
    ||| word_num_found(ctx, w_total_sum(), false, true, true, true, false)
}

/// Exclusion test, per [`spec_excluded`].
pub fn excluded_exec(ctx: &Vec<char>) -> (r: bool)
    ensures
        r == spec_excluded(ctx@),
{
    if ctx.len() < 10 {
        return true;
    }
    let w1: Vec<char> = vec!['\u{4F18}', '\u{60E0}'];
    assert(w1@ =~= w_discount());
    let w2: Vec<char> = vec!['\u{6298}', '\u{6263}'];
    assert(w2@ =~= w_rebate());
    let w3: Vec<char> = vec!['\u{8D60}', '\u{9001}'];
    assert(w3@ =~= w_gift());
    let w4: Vec<char> = vec!['\u{5DF2}', '\u{7528}'];
    assert(w4@ =~= w_used());
    let w5: Vec<char> = vec!['\u{5269}', '\u{4F59}'];
    assert(w5@ =~= w_remaining());
    let w6: Vec<char> = vec!['\u{53EF}', '\u{7528}'];
    assert(w6@ =~= w_available());
    let w7: Vec<char> = vec!['\u{5DF2}', '\u{6D88}', '\u{8017}'];
    assert(w7@ =~= w_consumed());
    if word_num_found_exec(ctx, &w1, false, false, false, true, false) {
        return true;
    }
    if word_num_found_exec(ctx, &w2, false, false, false, true, false) {
        return true;
    }
    if word_num_found_exec(ctx, &w3, false, false, false, true, false) {
        return true;
    }
    if word_num_found_exec(ctx, &w4, false, false, false, true, false) {
        return true;
    }
    if word_num_found_exec(ctx, &w5, false, false, false, true, false) {
        return true;
    }
    if word_num_found_exec(ctx, &w6, false, false, false, true, false) {
        return true;
    }
    if word_num_found_exec(ctx, &w7, false, false, false, true, false) {
        return true;
    }
    let w8: Vec<char> = vec!['\u{8FDB}', '\u{5EA6}'];
    assert(w8@ =~= w_progress_zh());
    if word_num_found_exec(ctx, &w8, false, true, true, false, false) {
        return true;
    }
    let w9: Vec<char> = vec!['c', 'o', 'm', 'p', 'l', 'e', 't', 'e', 'd'];
    assert(w9@ =~= w_completed());
    if word_num_found_exec(ctx, &w9, true, false, true, false, false) {
        return true;
    }
    let w10: Vec<char> = vec!['p', 'r', 'o', 'g', 'r', 'e', 's', 's'];
    assert(w10@ =~= w_progress_en());
    if word_num_found_exec(ctx, &w10, true, false, true, false, false) {
        return true;
    }
    let w11: Vec<char> = vec!['\u{5DF2}'];
    assert(w11@ =~= w_already());
    let w12: Vec<char> = vec!['\u{5B8C}', '\u{6210}'];
    assert(w12@ =~= w_complete());
    let w13: Vec<char> = vec!['\u{8FDB}', '\u{884C}'];
    assert(w13@ =~= w_ongoing());
    if num_pct_word_found_exec(ctx, &w11) {
        return true;
    }
    if num_pct_word_found_exec(ctx, &w5) {
        return true;
    }
    if num_pct_word_found_exec(ctx, &w12) {
        return true;
    }
    if num_pct_word_found_exec(ctx, &w13) {
        return true;
    }
    if word_num_found_exec(ctx, &w11, false, false, true, true, true) {
        return true;
    }
    if word_num_found_exec(ctx, &w5, false, false, true, true, true) {
        return true;
    }
    if word_num_found_exec(ctx, &w12, false, false, true, true, true) {
        return true;
    }
    if word_num_found_exec(ctx, &w13, false, false, true, true, true) {
        return true;
    }
    if standalone_pct_exec(ctx) {
        return true;
    }
    let w14: Vec<char> = vec!['\u{603B}', '\u{989D}'];
    assert(w14@ =~= w_total_amount());
    let w15: Vec<char> = vec!['\u{914D}', '\u{989D}'];
    assert(w15@ =~= w_quota());
    let w16: Vec<char> = vec!['\u{9650}', '\u{5236}'];
    assert(w16@ =~= w_limit());
    let w17: Vec<char> = vec!['\u{603B}', '\u{91CF}'];
    assert(w17@ =~= w_total_volume());
    let w18: Vec<char> = vec!['\u{603B}', '\u{8BA1}'];
    assert(w18@ =~= w_total_sum());
    if word_num_found_exec(ctx, &w14, false, true, true, true, false) {
        return true;
    }
    if word_num_found_exec(ctx, &w15, false, true, true, true, false) {
        return true;
    }
    if word_num_found_exec(ctx, &w16, false, true, true, true, false) {
        return true;
    }
    if word_num_found_exec(ctx, &w17, false, true, true, true, false) {
        return true;
    }
    if word_num_found_exec(ctx, &w18, false, true, true, true, false) {
        return true;
    }
    false
}

/// Standalone-percentage test, per [`standalone_pct`].
pub fn standalone_pct_exec(ctx: &Vec<char>) -> (r: bool)
    ensures
        r == standalone_pct(ctx@),
{
    let a = space_run_end_exec(ctx, 0);
    proof {
        crate::strutil::lemma_space_run_end(ctx@, 0);
    }
    if !(a < ctx.len() && is_digit(ctx[a])) {
        return false;
    }
    let d = digit_run_end_exec(ctx, a);
    proof {
        crate::strutil::lemma_digit_run_end(ctx@, a as int);
    }
    if !(d < ctx.len() && ctx[d] == '%') {
        return false;
    }
    let e = space_run_end_exec(ctx, d + 1);
    e == ctx.len()
}

} // verus!
