//! Usage extraction from page text.
//!
//! The extractor scans the visible text of a page for every occurrence of
//! `<number>%` (integer or decimal, optionally with whitespace before the
//! percent sign), judges each occurrence by the text around it, and selects
//! one winner. An occurrence is kept only if its value lies within 0 to 100
//! percent and its context window — thirty characters to either side,
//! whitespace-normalised — matches no non-usage wording. Surviving
//! candidates whose value lies in the usage-like band of 10 to 99 percent
//! rank `Likely`, the rest `Possible`; the winner is the highest-priority,
//! then highest-valued candidate, earliest occurrence first on ties.
//!
//! Values are read in thousandths of a percent; decimal digits beyond the
//! third are ignored.

use crate::patterns::spec_excluded;
use crate::patterns::excluded_exec;
use crate::percent::MAX_MILLI;
use crate::strutil::chars_of;
use crate::strutil::digit_run_end;
use crate::strutil::digit_run_end_exec;
use crate::strutil::is_digit;
use crate::strutil::lemma_digit_run_end;
use crate::strutil::lemma_space_run_end;
use crate::strutil::normalize_ctx;
use crate::strutil::normalize_ctx_exec;
use crate::strutil::space_run_end;
use crate::strutil::space_run_end_exec;
use crate::strutil::spec_digit_val;
use crate::strutil::spec_is_digit;
use crate::strutil::string_of_chars;
use crate::strutil::subvec;
use vstd::prelude::*;

verus! {

/// End of the number starting at `i`: the maximal digit run, extended over
/// a decimal point when at least one digit follows it.
pub open spec fn num_end(t: Seq<char>, i: int) -> int
    recommends
        0 <= i <= t.len(),
{
    let j = digit_run_end(t, i);
    if j + 1 < t.len() && t[j] == '.' && spec_is_digit(t[j + 1]) {
        digit_run_end(t, j + 1)
    } else {
        j
    }
}

/// Position of the percent sign a match at `i` demands: first position past
/// the number and the whitespace after it.
pub open spec fn pct_pos(t: Seq<char>, i: int) -> int
    recommends
        0 <= i <= t.len(),
{
    space_run_end(t, num_end(t, i))
}

/// A percentage occurrence starts at `i`: a digit opens a number that is
/// followed, after optional whitespace, by a percent sign.
pub open spec fn match_at(t: Seq<char>, i: int) -> bool {
    &&& 0 <= i < t.len()
    &&& spec_is_digit(t[i])
    &&& pct_pos(t, i) < t.len()
    &&& t[pct_pos(t, i)] == '%'
}

/// First position past the occurrence at `i` (past its percent sign).
pub open spec fn match_end(t: Seq<char>, i: int) -> int {
    pct_pos(t, i) + 1
}

/// Bounds of the pieces of an occurrence.
pub proof fn lemma_match_bounds(t: Seq<char>, i: int)
    requires
        0 <= i <= t.len(),
    ensures
        i <= digit_run_end(t, i) <= num_end(t, i) <= pct_pos(t, i) <= t.len(),
        spec_is_digit(t[i]) && i < t.len() ==> i + 1 <= digit_run_end(t, i),
        match_at(t, i) ==> i + 2 <= match_end(t, i) <= t.len(),
{
    lemma_digit_run_end(t, i);
    let j = digit_run_end(t, i);
    if j + 1 < t.len() && t[j] == '.' && spec_is_digit(t[j + 1]) {
        lemma_digit_run_end(t, j + 1);
    }
    lemma_space_run_end(t, num_end(t, i));
}

/// Value of the digit run `t[i..j)` read as a decimal number.
pub open spec fn digits_val(t: Seq<char>, i: int, j: int) -> nat
    decreases j - i,
    when i <= j
{
    if i < j {
        digits_val(t, i, j - 1) * 10 + spec_digit_val(t[j - 1])
    } else {
        0
    }
}

/// Value, in thousandths, of the fraction digits `t[fs..fe)`; digits beyond
/// the third are ignored.
pub open spec fn frac_milli(t: Seq<char>, fs: int, fe: int) -> nat {
    (if fs < fe {
        spec_digit_val(t[fs]) * 100
    } else {
        0
    }) + (if fs + 1 < fe {
        spec_digit_val(t[fs + 1]) * 10
    } else {
        0
    }) + (if fs + 2 < fe {
        spec_digit_val(t[fs + 2])
    } else {
        0
    })
}

/// Value of the occurrence at `i`, in thousandths of a percent.
pub open spec fn value_milli_at(t: Seq<char>, i: int) -> nat
    recommends
        0 <= i <= t.len(),
{
    let j = digit_run_end(t, i);
    if j + 1 < t.len() && t[j] == '.' && spec_is_digit(t[j + 1]) {
        digits_val(t, i, j) * 1000 + frac_milli(t, j + 1, digit_run_end(t, j + 1))
    } else {
        digits_val(t, i, j) * 1000
    }
}

/// Start of the context window of an occurrence at `i`: thirty characters
/// before it, clipped at the start of the text.
pub open spec fn window_lo(i: int) -> int {
    if i >= 30 {
        i - 30
    } else {
        0
    }
}

/// End of the context window: thirty characters past the occurrence,
/// clipped at the end of the text.
pub open spec fn window_hi(t: Seq<char>, i: int) -> int {
    if match_end(t, i) + 30 <= t.len() {
        match_end(t, i) + 30
    } else {
        t.len() as int
    }
}

/// Normalised context window of the occurrence at `i`.
pub open spec fn ctx_at(t: Seq<char>, i: int) -> Seq<char>
    recommends
        match_at(t, i),
{
    normalize_ctx(t.subrange(window_lo(i), window_hi(t, i)))
}

/// Mathematical view of one candidate: its value in thousandths of a
/// percent, whether it ranks `Likely`, and its normalised context.
pub ghost struct CandModel {
    pub value: nat,
    pub likely: bool,
    pub ctx: Seq<char>,
}

/// The usage-like band: 10 to 99 percent ranks `Likely`.
pub open spec fn spec_likely(v: nat) -> bool {
    10_000 <= v <= 99_000
}

/// The occurrence at `i` survives filtering: its value is at most 100
/// percent and its context matches no exclusion.
pub open spec fn survives(t: Seq<char>, i: int) -> bool
    recommends
        match_at(t, i),
{
    value_milli_at(t, i) <= MAX_MILLI && !spec_excluded(ctx_at(t, i))
}

/// Candidate of the occurrence at `i`.
pub open spec fn cand_at(t: Seq<char>, i: int) -> CandModel
    recommends
        match_at(t, i),
{
    CandModel {
        value: value_milli_at(t, i),
        likely: spec_likely(value_milli_at(t, i)),
        ctx: ctx_at(t, i),
    }
}

/// The candidates of the text from position `i` on, in occurrence order.
/// Occurrences are non-overlapping: scanning resumes past each one.
pub open spec fn cands_from(t: Seq<char>, i: int) -> Seq<CandModel>
    decreases t.len() - i,
    when 0 <= i <= t.len()
    via cands_from_dec
{
    if i >= t.len() {
        Seq::empty()
    } else if match_at(t, i) {
        let rest = cands_from(t, match_end(t, i));
        if survives(t, i) {
            seq![cand_at(t, i)] + rest
        } else {
            rest
        }
    } else {
        cands_from(t, i + 1)
    }
}

#[via_fn]
proof fn cands_from_dec(t: Seq<char>, i: int) {
    if 0 <= i < t.len() && match_at(t, i) {
        lemma_match_bounds(t, i);
    }
}

/// All candidates of the text.
pub open spec fn candidates(t: Seq<char>) -> Seq<CandModel> {
    cands_from(t, 0)
}

/// Ranking: `Likely` before `Possible`, then higher value first.
pub open spec fn strictly_better(a: CandModel, b: CandModel) -> bool {
    ||| (a.likely && !b.likely)
    ||| (a.likely == b.likely && a.value > b.value)
}

/// Selection: walks the candidates in occurrence order and keeps the
/// current best, replacing it only by a strictly better one — so the
/// earliest of equally ranked candidates wins.
pub open spec fn fold_best(cs: Seq<CandModel>, acc: Option<CandModel>) -> Option<CandModel>
    decreases cs.len(),
{
    if cs.len() == 0 {
        acc
    } else {
        let acc2 = match acc {
            None => Some(cs[0]),
            Some(a) => if strictly_better(cs[0], a) {
                Some(cs[0])
            } else {
                Some(a)
            },
        };
        fold_best(cs.drop_first(), acc2)
    }
}

/// The candidate the extractor reports for the text, if any survives.
pub open spec fn spec_extract(t: Seq<char>) -> Option<CandModel> {
    fold_best(candidates(t), None)
}

/// Folding one more candidate equals one selection step on the fold so far.
pub proof fn lemma_fold_best_snoc(cs: Seq<CandModel>, acc: Option<CandModel>, m: CandModel)
    ensures
        fold_best(cs.push(m), acc) == fold_best(seq![m], fold_best(cs, acc)),
    decreases cs.len(),
{
    if cs.len() == 0 {
        assert(cs.push(m) =~= seq![m]);
    } else {
        assert(cs.push(m).drop_first() =~= cs.drop_first().push(m));
        let acc2 = match acc {
            None => Some(cs[0]),
            Some(a) => if strictly_better(cs[0], a) {
                Some(cs[0])
            } else {
                Some(a)
            },
        };
        lemma_fold_best_snoc(cs.drop_first(), acc2, m);
    }
}

/// Rank of a candidate: `Likely` for values in the usage-like band,
/// `Possible` otherwise.
#[derive(Clone, Copy, Debug, PartialEq, Eq, Structural)]
pub enum Priority {
    /// Value in the usage-like band of 10 to 99 percent.
    Likely,
    /// Valid value outside that band.
    Possible,
}

/// One surviving percentage occurrence.
#[derive(Clone, Debug)]
pub struct Candidate {
    /// Value in thousandths of a percent, at most [`MAX_MILLI`].
    pub value_milli: u32,
    /// Rank of the value.
    pub priority: Priority,
    /// The normalised context window the value stood in.
    pub context: String,
}

impl Candidate {
    /// Mathematical view of the candidate.
    pub open spec fn model(&self) -> CandModel {
        CandModel {
            value: self.value_milli as nat,
            likely: self.priority is Likely,
            ctx: self.context@,
        }
    }
}

/// View of an optional candidate.
pub open spec fn opt_model(o: Option<Candidate>) -> Option<CandModel> {
    match o {
        None => None,
        Some(c) => Some(c.model()),
    }
}

/// Numeric value of a digit character.
fn digit_of(c: char) -> (d: u32)
    requires
        spec_is_digit(c),
    ensures
        d == spec_digit_val(c),
        d <= 9,
{
    (c as u32) - 48
}

/// Value of the digit run `t[i..j)`, capped: any value over 100 comes back
/// as some value over 100 (at most 1009), values up to 100 come back exact.
fn int_part_capped(t: &Vec<char>, i: usize, j: usize) -> (r: u32)
    requires
        i <= j <= t@.len(),
        forall|k: int| i <= k < j ==> spec_is_digit(t@[k]),
    ensures
        digits_val(t@, i as int, j as int) > 100 ==> r > 100,
        digits_val(t@, i as int, j as int) <= 100 ==> r == digits_val(t@, i as int, j as int),
        r <= 1009,
{
    let mut acc: u32 = 0;
    let mut k = i;
    while k < j
        invariant
            i <= k <= j <= t@.len(),
            forall|m: int| i <= m < j ==> spec_is_digit(t@[m]),
            digits_val(t@, i as int, k as int) > 100 ==> acc > 100,
            digits_val(t@, i as int, k as int) <= 100 ==> acc == digits_val(
                t@,
                i as int,
                k as int,
            ),
            acc <= 1009,
        decreases j - k,
    {
        let d = digit_of(t[k]);
        if acc <= 100 {
            acc = acc * 10 + d;
        }
        k = k + 1;
        assert(digits_val(t@, i as int, k as int) == digits_val(t@, i as int, k as int - 1) * 10
            + spec_digit_val(t@[k as int - 1]));
    }
    acc
}

/// Value, in thousandths, of the first up-to-three digits of `t[fs..fe)`.
fn frac_part(t: &Vec<char>, fs: usize, fe: usize) -> (r: u32)
    requires
        fs <= fe <= t@.len(),
        forall|k: int| fs <= k < fe ==> spec_is_digit(t@[k]),
    ensures
        r == frac_milli(t@, fs as int, fe as int),
        r <= 999,
{
    let nd = fe - fs;
    let d1 = if nd >= 1 {
        digit_of(t[fs]) * 100
    } else {
        0
    };
    let d2 = if nd >= 2 {
        digit_of(t[fs + 1]) * 10
    } else {
        0
    };
    let d3 = if nd >= 3 {
        digit_of(t[fs + 2])
    } else {
        0
    };
    d1 + d2 + d3
}

/// Ranking test on plain values: the pair `(likely, value)` strictly beats
/// the candidate `b`.
fn beats(likely: bool, value_milli: u32, b: &Candidate) -> (r: bool)
    ensures
        r == strictly_better(
            CandModel { value: value_milli as nat, likely: likely, ctx: Seq::empty() },
            b.model(),
        ),
{
    let b_likely = match b.priority {
        Priority::Likely => true,
        Priority::Possible => false,
    };
    (likely && !b_likely) || (likely == b_likely && value_milli > b.value_milli)
}

/// Extraction from an already decomposed text. See [`extract_usage`].
#[verifier::rlimit(100)]
pub fn extract_from_chars(t: &Vec<char>) -> (r: Option<Candidate>)
    ensures
        opt_model(r) == spec_extract(t@),
        r matches Some(c) ==> c.value_milli <= MAX_MILLI,
{
    let n = t.len();
    let mut i: usize = 0;
    let mut best: Option<Candidate> = None;
    let ghost mut done: Seq<CandModel> = Seq::empty();
    while i < n
        invariant
            i <= n,
            n == t@.len(),
            candidates(t@) == done + cands_from(t@, i as int),
            opt_model(best) == fold_best(done, None),
            best matches Some(c) ==> c.value_milli <= MAX_MILLI,
        decreases n - i,
    {
        let ghost i0 = i as int;
        if !is_digit(t[i]) {
            i = i + 1;
            assert(cands_from(t@, i0) == cands_from(t@, i as int));
        } else {
            let ie = digit_run_end_exec(t, i);
            proof {
                lemma_digit_run_end(t@, i as int);
            }
            let has_frac = ie < n && t[ie] == '.' && ie + 1 < n && is_digit(t[ie + 1]);
            let ne = if has_frac {
                digit_run_end_exec(t, ie + 1)
            } else {
                ie
            };
            proof {
                if has_frac {
                    lemma_digit_run_end(t@, ie as int + 1);
                }
                assert(ne as int == num_end(t@, i0));
            }
            let pp = space_run_end_exec(t, ne);
            proof {
                lemma_space_run_end(t@, ne as int);
                assert(pp as int == pct_pos(t@, i0));
            }
            if !(pp < n && t[pp] == '%') {
                i = i + 1;
                assert(!match_at(t@, i0));
                assert(cands_from(t@, i0) == cands_from(t@, i as int));
            } else {
                assert(match_at(t@, i0));
                let me = pp + 1;
                proof {
                    lemma_match_bounds(t@, i0);
                }
                // value of the occurrence
                let int_capped = int_part_capped(t, i, ie);
                let frac = if has_frac {
                    frac_part(t, ie + 1, ne)
                } else {
                    0
                };
                let mut in_range: bool = false;
                let mut milli: u32 = 0;
                if int_capped <= 100 {
                    milli = int_capped * 1000 + frac;
                    in_range = milli <= MAX_MILLI;
                }
                proof {
                    if digits_val(t@, i0, ie as int) > 100 {
                        assert(value_milli_at(t@, i0) > 100_000);
                    }
                    assert(in_range == (value_milli_at(t@, i0) <= MAX_MILLI));
                    assert(in_range ==> milli == value_milli_at(t@, i0));
                }
                // context window of the occurrence
                let lo = if i >= 30 {
                    i - 30
                } else {
                    0
                };
                let hi = if n - me >= 30 {
                    me + 30
                } else {
                    n
                };
                let raw = subvec(t, lo, hi);
                let ctx = normalize_ctx_exec(&raw);
                proof {
                    assert(lo as int == window_lo(i0));
                    assert(hi as int == window_hi(t@, i0));
                    assert(ctx@ == ctx_at(t@, i0));
                }
                if in_range && !excluded_exec(&ctx) {
                    assert(survives(t@, i0));
                    let likely = 10_000 <= milli && milli <= 99_000;
                    let ghost m = cand_at(t@, i0);
                    let ghost prev = fold_best(done, None);
                    assert(likely == m.likely && milli as nat == m.value);
                    let replace = match &best {
                        None => true,
                        Some(b) => beats(likely, milli, b),
                    };
                    proof {
                        match &best {
                            None => {
                                assert(prev is None);
                            },
                            Some(b) => {
                                assert(prev == Some(b.model()));
                                assert(replace == strictly_better(m, b.model()));
                            },
                        }
                    }
                    if replace {
                        let cand = Candidate {
                            value_milli: milli,
                            priority: if likely {
                                Priority::Likely
                            } else {
                                Priority::Possible
                            },
                            context: string_of_chars(&ctx),
                        };
                        assert(cand.model() == m);
                        best = Some(cand);
                    }
                    proof {
                        lemma_fold_best_snoc(done, None, m);
                        let ghost step = match prev {
                            None => Some(m),
                            Some(a) => if strictly_better(m, a) {
                                Some(m)
                            } else {
                                Some(a)
                            },
                        };
                        assert(seq![m].len() == 1 && seq![m][0] == m);
                        assert(seq![m].drop_first() =~= Seq::<CandModel>::empty());
                        assert(fold_best(Seq::<CandModel>::empty(), step) == step);
                        assert(fold_best(seq![m], prev) == step);
                        let ghost done_old = done;
                        done = done.push(m);
                        assert(opt_model(best) == fold_best(done, None));
                        assert(cands_from(t@, i0) == seq![m] + cands_from(t@, me as int));
                        assert(done_old + cands_from(t@, i0) =~= done + cands_from(
                            t@,
                            me as int,
                        ));
                    }
                    i = me;
                } else {
                    assert(!survives(t@, i0));
                    i = me;
                    assert(cands_from(t@, i0) == cands_from(t@, i as int));
                }
            }
        }
    }
    proof {
        assert(cands_from(t@, i as int) =~= Seq::<CandModel>::empty());
        assert(done + cands_from(t@, i as int) =~= done);
        assert(candidates(t@) == done);
    }
    best
}

/// Every candidate is within the valid range, and its rank agrees with the
/// usage-like band.
pub proof fn lemma_cands_from_valid(t: Seq<char>, i: int)
    requires
        0 <= i <= t.len(),
    ensures
        forall|j: int|
            0 <= j < cands_from(t, i).len() ==> (#[trigger] cands_from(t, i)[j]).value
                <= MAX_MILLI && cands_from(t, i)[j].likely == spec_likely(
                cands_from(t, i)[j].value,
            ),
    decreases t.len() - i,
{
    if i >= t.len() {
    } else if match_at(t, i) {
        lemma_match_bounds(t, i);
        lemma_cands_from_valid(t, match_end(t, i));
        let rest = cands_from(t, match_end(t, i));
        if survives(t, i) {
            let c = cand_at(t, i);
            assert(cands_from(t, i) == seq![c] + rest);
            assert forall|j: int| 0 <= j < cands_from(t, i).len() implies (#[trigger] cands_from(
                t,
                i,
            )[j]).value <= MAX_MILLI && cands_from(t, i)[j].likely == spec_likely(
                cands_from(t, i)[j].value,
            ) by {
                if j == 0 {
                    assert(cands_from(t, i)[0] == c);
                } else {
                    assert(cands_from(t, i)[j] == rest[j - 1]);
                    assert(rest[j - 1].value <= MAX_MILLI && rest[j - 1].likely == spec_likely(
                        rest[j - 1].value,
                    ));
                }
            }
        } else {
            assert(cands_from(t, i) == rest);
            assert forall|j: int| 0 <= j < cands_from(t, i).len() implies (#[trigger] cands_from(
                t,
                i,
            )[j]).value <= MAX_MILLI && cands_from(t, i)[j].likely == spec_likely(
                cands_from(t, i)[j].value,
            ) by {
                assert(cands_from(t, i)[j] == rest[j]);
                assert(rest[j].value <= MAX_MILLI && rest[j].likely == spec_likely(rest[j].value));
            }
        }
    } else {
        lemma_cands_from_valid(t, i + 1);
        let rest = cands_from(t, i + 1);
        assert(cands_from(t, i) == rest);
        assert forall|j: int| 0 <= j < cands_from(t, i).len() implies (#[trigger] cands_from(
            t,
            i,
        )[j]).value <= MAX_MILLI && cands_from(t, i)[j].likely == spec_likely(
            cands_from(t, i)[j].value,
        ) by {
            assert(cands_from(t, i)[j] == rest[j]);
            assert(rest[j].value <= MAX_MILLI && rest[j].likely == spec_likely(rest[j].value));
        }
    }
}

/// The selection result is one of the candidates, unless it is the
/// accumulator.
pub proof fn lemma_fold_best_in(cs: Seq<CandModel>, acc: Option<CandModel>)
    ensures
        fold_best(cs, acc) is None ==> cs.len() == 0 && acc is None,
        fold_best(cs, acc) matches Some(m) ==> acc == Some(m) || exists|j: int|
            0 <= j < cs.len() && cs[j] == m,
    decreases cs.len(),
{
    if cs.len() > 0 {
        let acc2 = match acc {
            None => Some(cs[0]),
            Some(a) => if strictly_better(cs[0], a) {
                Some(cs[0])
            } else {
                Some(a)
            },
        };
        lemma_fold_best_in(cs.drop_first(), acc2);
        if fold_best(cs, acc) is Some {
            let m = fold_best(cs, acc)->Some_0;
            if acc2 == Some(m) {
                assert(cs[0] == m || acc == Some(m));
            } else {
                let j = choose|j: int| 0 <= j < cs.drop_first().len() && cs.drop_first()[j] == m;
                assert(cs[j + 1] == m);
            }
        }
    }
}

/// The ranking is a strict order on the pair of rank and value.
proof fn lemma_better_order(a: CandModel, b: CandModel, c: CandModel)
    ensures
        !strictly_better(a, a),
        !strictly_better(a, b) && !strictly_better(b, c) ==> !strictly_better(a, c),
        strictly_better(a, b) && !strictly_better(c, b) ==> strictly_better(a, c),
        strictly_better(b, a) && !strictly_better(b, c) ==> !strictly_better(a, c),
        strictly_better(a, b) && strictly_better(b, c) ==> strictly_better(a, c),
{
}

/// What selection guarantees: the result beats no candidate, every earlier
/// candidate is strictly beaten by it (first wins among equals), and the
/// accumulator never beats it.
pub proof fn lemma_fold_best_first(cs: Seq<CandModel>, acc: Option<CandModel>)
    ensures
        fold_best(cs, acc) is None ==> cs.len() == 0 && acc is None,
        fold_best(cs, acc) matches Some(m) ==> {
            &&& forall|j: int| 0 <= j < cs.len() ==> !strictly_better(#[trigger] cs[j], m)
            &&& (acc matches Some(a) ==> !strictly_better(a, m))
            &&& (acc == Some(m) || exists|j: int|
                {
                    &&& 0 <= j < cs.len()
                    &&& cs[j] == m
                    &&& forall|k: int| 0 <= k < j ==> strictly_better(m, #[trigger] cs[k])
                    &&& (acc matches Some(a) ==> strictly_better(m, a))
                })
        },
    decreases cs.len(),
{
    if cs.len() == 0 {
        if acc is Some {
            lemma_better_order(acc->Some_0, acc->Some_0, acc->Some_0);
        }
    } else {
        let rest = cs.drop_first();
        let acc2 = match acc {
            None => Some(cs[0]),
            Some(a) => if strictly_better(cs[0], a) {
                Some(cs[0])
            } else {
                Some(a)
            },
        };
        lemma_fold_best_first(rest, acc2);
        let m = fold_best(cs, acc)->Some_0;
        let a2 = acc2->Some_0;
        // maximality at position 0
        if acc2 == Some(cs[0]) {
            assert(!strictly_better(cs[0], m));
        } else {
            let a = acc->Some_0;
            assert(!strictly_better(cs[0], a) && !strictly_better(a, m));
            lemma_better_order(cs[0], a, m);
        }
        assert forall|j: int| 0 <= j < cs.len() implies !strictly_better(#[trigger] cs[j], m) by {
            if j >= 1 {
                assert(rest[j - 1] == cs[j]);
            }
        }
        // the accumulator never beats the result
        if acc is Some {
            let a = acc->Some_0;
            if strictly_better(cs[0], a) {
                assert(!strictly_better(cs[0], m));
                lemma_better_order(a, cs[0], m);
            }
        }
        // first-wins witness
        if acc2 == Some(m) {
            if acc == Some(m) {
            } else {
                assert(m == cs[0]);
                assert forall|k: int| 0 <= k < 0 implies strictly_better(m, #[trigger] cs[k]) by {
                }
                if acc is Some {
                    assert(strictly_better(cs[0], acc->Some_0));
                }
                assert(0 <= 0 < cs.len() && cs[0] == m);
            }
        } else {
            let j = choose|j: int|
                {
                    &&& 0 <= j < rest.len()
                    &&& rest[j] == m
                    &&& forall|k: int| 0 <= k < j ==> strictly_better(m, #[trigger] rest[k])
                    &&& strictly_better(m, a2)
                };
            // m strictly beats the head of the list
            if acc2 == Some(cs[0]) {
                assert(strictly_better(m, cs[0]));
            } else {
                let a = acc->Some_0;
                assert(strictly_better(m, a) && !strictly_better(cs[0], a));
                lemma_better_order(m, a, cs[0]);
            }
            // and the accumulator, when there is one
            if acc is Some {
                let a = acc->Some_0;
                if strictly_better(cs[0], a) {
                    lemma_better_order(m, cs[0], a);
                }
            }
            assert forall|k: int| 0 <= k < j + 1 implies strictly_better(
                m,
                #[trigger] cs[k],
            ) by {
                if k >= 1 {
                    assert(rest[k - 1] == cs[k]);
                }
            }
            assert(0 <= j + 1 < cs.len() && cs[j + 1] == m);
        }
    }
}

/// Law: an occurrence whose value lies outside 0 to 100 percent is never
/// selected — whatever the extractor reports is within the range.
pub proof fn lemma_extract_in_range(t: Seq<char>)
    ensures
        spec_extract(t) matches Some(m) ==> 0 <= m.value <= MAX_MILLI,
{
    lemma_cands_from_valid(t, 0);
    lemma_fold_best_in(candidates(t), None);
}

/// Law: when exactly one qualifying percentage survives filtering, in a
/// `Likely`-qualifying context, the extractor returns exactly it.
pub proof fn lemma_extract_single(t: Seq<char>)
    requires
        candidates(t).len() == 1,
        candidates(t)[0].likely,
    ensures
        spec_extract(t) == Some(candidates(t)[0]),
{
    let cs = candidates(t);
    assert(cs.drop_first() =~= Seq::<CandModel>::empty());
    assert(fold_best(cs.drop_first(), Some(cs[0])) == Some(cs[0]));
}

/// Law: with qualifying percentages present the extractor reports one of
/// them; none ranks strictly above the winner, and every candidate before
/// the winner ranks strictly below it — so among equally ranked candidates
/// the earliest occurrence wins, deterministically.
pub proof fn lemma_extract_selects_best(t: Seq<char>)
    requires
        candidates(t).len() > 0,
    ensures
        spec_extract(t) is Some,
        spec_extract(t) matches Some(m) ==> {
            let cs = candidates(t);
            &&& forall|j: int| 0 <= j < cs.len() ==> !strictly_better(#[trigger] cs[j], m)
            &&& exists|j: int|
                {
                    &&& 0 <= j < cs.len()
                    &&& cs[j] == m
                    &&& forall|k: int| 0 <= k < j ==> strictly_better(m, #[trigger] cs[k])
                }
        },
{
    lemma_fold_best_first(candidates(t), None);
    if spec_extract(t) is Some {
        let m = spec_extract(t)->Some_0;
        let cs = candidates(t);
        let j = choose|j: int|
            {
                &&& 0 <= j < cs.len()
                &&& cs[j] == m
                &&& forall|k: int| 0 <= k < j ==> strictly_better(m, #[trigger] cs[k])
                &&& true
            };
        assert(0 <= j < cs.len() && cs[j] == m);
    }
}

/// Law: the extractor reports no signal exactly when no occurrence
/// survives filtering.
pub proof fn lemma_no_signal_iff_no_candidates(t: Seq<char>)
    ensures
        (spec_extract(t) is None) == (candidates(t).len() == 0),
{
    lemma_fold_best_first(candidates(t), None);
    if candidates(t).len() == 0 {
        assert(fold_best(candidates(t), None) is None);
    }
}

/// Extracts one trustworthy usage percentage from page text, or reports
/// that there is no signal (`None`).
pub fn extract_usage(text: &str) -> (r: Option<Candidate>)
    ensures
        opt_model(r) == spec_extract(text@),
        r matches Some(c) ==> c.value_milli <= MAX_MILLI,
{
    let t = chars_of(text);
    extract_from_chars(&t)
}

} // verus!
