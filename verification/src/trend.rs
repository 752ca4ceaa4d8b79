//! Trends: parallel arrays of axis keys and three value series (income,
//! outcome, summary), and their normalization into percentages.
//!
//! Values are money in minor units. Normalization rescales each series by
//! its own total so that a full series sums (up to truncation) to
//! `SCALE_UNIT`, which represents 100%; a series whose total is zero
//! normalizes to all zeros rather than dividing by zero.

use vstd::prelude::*;

use crate::datatype::Money;
use crate::stats::Purpose;

verus! {

/// The fixed-point representation of 1.0 (100%) in a normalized trend.
pub const SCALE_UNIT: i128 = 1_000_000;

/// Largest series value magnitude `normalize` accepts: exactly twice the
/// engine's aggregate cap, so every value an engine breakdown can produce
/// (incomes and outcomes within `SUM_CAP`, summaries within twice that)
/// is admitted, and products with `SCALE_UNIT` stay inside 128 bits.
pub const VALUE_LIMIT: i128 = 60_000_000_000_000_000_000_000_000_000_000;

/// Longest series `normalize` accepts; longer than any expanded month
/// window, and partial totals stay inside 128 bits.
pub const NORM_LEN_LIMIT: usize = 2_800_000;

/// A chart-ready view: one axis key per data point and three parallel
/// value series of the same length.
#[derive(Debug)]
pub struct Trend<K> {
    pub axis: Vec<K>,
    pub income: Vec<Money>,
    pub outcome: Vec<Money>,
    pub summary: Vec<Money>,
}

/// The series' values as mathematical integers.
pub open spec fn series_view(v: Seq<Money>) -> Seq<int> {
    v.map_values(|x: Money| x as int)
}

/// The sum of a series.
pub open spec fn series_total(s: Seq<int>) -> int
    decreases s.len(),
{
    if s.len() == 0 {
        0
    } else {
        series_total(s.drop_last()) + s.last()
    }
}

/// One value rescaled by a series total: `x * SCALE_UNIT / t`, computed on
/// magnitudes (so truncation is toward zero) with the quotient's sign;
/// zero when the total is zero.
pub open spec fn norm_val(x: int, t: int) -> int {
    if t == 0 {
        0
    } else {
        let q = (abs_of(x) * SCALE_UNIT) / abs_of(t);
        if (x < 0) != (t < 0) {
            -q
        } else {
            q
        }
    }
}

/// The magnitude of an integer.
pub open spec fn abs_of(x: int) -> int {
    if x < 0 {
        -x
    } else {
        x
    }
}

/// A series normalized by its own total.
pub open spec fn norm_series(s: Seq<int>) -> Seq<int> {
    s.map_values(|x: int| norm_val(x, series_total(s)))
}

/// A series normalized by its own total, each value then made
/// non-negative (the outcome series is reported as positive shares).
pub open spec fn norm_series_abs(s: Seq<int>) -> Seq<int> {
    s.map_values(|x: int| abs_of(norm_val(x, series_total(s))))
}

/// The total of a vector of amounts.
#[verifier::loop_isolation(false)]
fn series_sum(v: &Vec<Money>) -> (r: Money)
    requires
        v@.len() <= NORM_LEN_LIMIT,
        forall|i: int| 0 <= i < v@.len() ==> -VALUE_LIMIT <= #[trigger] v@[i] <= VALUE_LIMIT,
    ensures
        r as int == series_total(series_view(v@)),
        -(NORM_LEN_LIMIT as int) * VALUE_LIMIT <= r as int <= (NORM_LEN_LIMIT as int) * VALUE_LIMIT,
{
    let ghost sv = series_view(v@);
    let n = v.len();
    let mut total: Money = 0;
    let mut i: usize = 0;
    while i < n
        invariant
            i <= n,
            total as int == series_total(sv.take(i as int)),
            -(i as int) * VALUE_LIMIT <= total as int <= (i as int) * VALUE_LIMIT,
        decreases n - i,
    {
        proof {
            assert(sv.take(i + 1).drop_last() =~= sv.take(i as int));
            assert(sv.take(i + 1).last() == sv[i as int]);
            assert(sv[i as int] == v@[i as int] as int);
        }
        total = total + v[i];
        i = i + 1;
    }
    proof {
        assert(sv.take(n as int) =~= sv);
    }
    total
}

/// One series normalized by its own total; with `take_abs` the values are
/// reported as non-negative shares.
#[verifier::loop_isolation(false)]
fn norm_one(v: &Vec<Money>, take_abs: bool) -> (r: Vec<Money>)
    requires
        v@.len() <= NORM_LEN_LIMIT,
        forall|i: int| 0 <= i < v@.len() ==> -VALUE_LIMIT <= #[trigger] v@[i] <= VALUE_LIMIT,
    ensures
        r@.len() == v@.len(),
        forall|i: int|
            0 <= i < r@.len() ==> #[trigger] r@[i] as int == (if take_abs {
                norm_series_abs(series_view(v@))[i]
            } else {
                norm_series(series_view(v@))[i]
            }),
{
    let ghost sv = series_view(v@);
    let total = series_sum(v);
    let ghost t = total as int;
    let n = v.len();
    let mut r: Vec<Money> = Vec::new();
    let mut i: usize = 0;
    while i < n
        invariant
            i <= n,
            r@.len() == i,
            forall|j: int|
                0 <= j < i ==> #[trigger] r@[j] as int == (if take_abs {
                    norm_series_abs(sv)[j]
                } else {
                    norm_series(sv)[j]
                }),
        decreases n - i,
    {
        let x = v[i];
        let val: Money = if total == 0 {
            0
        } else {
            let xa: u128 = if x < 0 {
                (-x) as u128
            } else {
                x as u128
            };
            let ta: u128 = if total < 0 {
                (-total) as u128
            } else {
                total as u128
            };
            proof {
                assert(-VALUE_LIMIT <= v@[i as int] <= VALUE_LIMIT);
                assert(xa <= VALUE_LIMIT as u128);
            }
            let q128: u128 = xa * (SCALE_UNIT as u128) / ta;
            proof {
                assert(xa as int == abs_of(x as int));
                assert(ta as int == abs_of(t));
                assert(ta >= 1);
                vstd::arithmetic::div_mod::lemma_div_nonincreasing(
                    (xa * (SCALE_UNIT as u128)) as int,
                    ta as int,
                );
                assert(q128 as int == (abs_of(x as int) * SCALE_UNIT) / abs_of(t));
            }
            let q: Money = q128 as i128;
            let signed: Money = if (x < 0) != (total < 0) {
                -q
            } else {
                q
            };
            if take_abs {
                if signed < 0 {
                    -signed
                } else {
                    signed
                }
            } else {
                signed
            }
        };
        proof {
            assert(sv[i as int] == v@[i as int] as int);
            assert(norm_series(sv)[i as int] == norm_val(sv[i as int], series_total(sv)));
            assert(norm_series_abs(sv)[i as int] == abs_of(
                norm_val(sv[i as int], series_total(sv)),
            ));
        }
        r.push(val);
        i = i + 1;
    }
    r
}

impl<K: Copy> Trend<K> {
    /// Rescale each of the three series independently into shares of that
    /// series' own total: a value `x` becomes `x * SCALE_UNIT / total`, so
    /// a whole series sums to about `SCALE_UNIT` (100%). The outcome
    /// series is reported as non-negative shares. A series whose total is
    /// zero becomes all zeros instead of dividing by zero. The axis is
    /// kept as it is.
    #[verifier::loop_isolation(false)]
    pub fn normalize(&self) -> (r: Self)
        requires
            self.income@.len() <= NORM_LEN_LIMIT,
            self.outcome@.len() <= NORM_LEN_LIMIT,
            self.summary@.len() <= NORM_LEN_LIMIT,
            forall|i: int|
                0 <= i < self.income@.len() ==> -VALUE_LIMIT <= #[trigger] self.income@[i]
                    <= VALUE_LIMIT,
            forall|i: int|
                0 <= i < self.outcome@.len() ==> -VALUE_LIMIT <= #[trigger] self.outcome@[i]
                    <= VALUE_LIMIT,
            forall|i: int|
                0 <= i < self.summary@.len() ==> -VALUE_LIMIT <= #[trigger] self.summary@[i]
                    <= VALUE_LIMIT,
        ensures
            r.axis@ == self.axis@,
            series_view(r.income@) == norm_series(series_view(self.income@)),
            series_view(r.outcome@) == norm_series_abs(series_view(self.outcome@)),
            series_view(r.summary@) == norm_series(series_view(self.summary@)),
    {
        let income = norm_one(&self.income, false);
        let outcome = norm_one(&self.outcome, true);
        let summary = norm_one(&self.summary, false);
        let an = self.axis.len();
        let mut axis: Vec<K> = Vec::new();
        let mut i: usize = 0;
        while i < an
            invariant
                i <= an,
                axis@ == self.axis@.take(i as int),
            decreases an - i,
        {
            axis.push(self.axis[i]);
            proof {
                assert(axis@ =~= self.axis@.take(i + 1));
            }
            i = i + 1;
        }
        proof {
            assert(self.axis@.take(an as int) =~= self.axis@);
            assert(series_view(income@) =~= norm_series(series_view(self.income@)));
            assert(series_view(outcome@) =~= norm_series_abs(series_view(self.outcome@)));
            assert(series_view(summary@) =~= norm_series(series_view(self.summary@)));
        }
        Trend { axis, income, outcome, summary }
    }
}

/// A series of zeros totals zero.
proof fn lemma_series_total_zeros(s: Seq<int>)
    requires
        forall|i: int| 0 <= i < s.len() ==> s[i] == 0,
    ensures
        series_total(s) == 0,
    decreases s.len(),
{
    if s.len() > 0 {
        lemma_series_total_zeros(s.drop_last());
    }
}

/// A series already in percentages stays put: normalizing a series whose
/// total is exactly one unit (100%) changes no value.
pub proof fn lemma_norm_unit_total(s: Seq<int>)
    requires
        series_total(s) == SCALE_UNIT as int,
    ensures
        norm_series(s) == s,
{
    assert forall|i: int| 0 <= i < s.len() implies norm_series(s)[i] == s[i] by {
        let x = s[i];
        vstd::arithmetic::div_mod::lemma_div_by_multiple(abs_of(x), SCALE_UNIT as int);
        assert((abs_of(x) * SCALE_UNIT) / (SCALE_UNIT as int) == abs_of(x));
    }
    assert(norm_series(s) =~= s);
}

/// The non-negative variant: normalizing an all-non-negative series whose
/// total is exactly one unit changes no value.
pub proof fn lemma_norm_abs_unit_total(s: Seq<int>)
    requires
        series_total(s) == SCALE_UNIT as int,
        forall|i: int| 0 <= i < s.len() ==> s[i] >= 0,
    ensures
        norm_series_abs(s) == s,
{
    assert forall|i: int| 0 <= i < s.len() implies norm_series_abs(s)[i] == s[i] by {
        let x = s[i];
        vstd::arithmetic::div_mod::lemma_div_by_multiple(abs_of(x), SCALE_UNIT as int);
        assert((abs_of(x) * SCALE_UNIT) / (SCALE_UNIT as int) == abs_of(x));
    }
    assert(norm_series_abs(s) =~= s);
}

/// A series whose total is zero normalizes to all zeros, for both
/// variants.
pub proof fn lemma_norm_zero_total(s: Seq<int>)
    requires
        series_total(s) == 0,
    ensures
        norm_series(s) == Seq::new(s.len(), |i: int| 0int),
        norm_series_abs(s) == Seq::new(s.len(), |i: int| 0int),
{
    assert(norm_series(s) =~= Seq::new(s.len(), |i: int| 0int));
    assert(norm_series_abs(s) =~= Seq::new(s.len(), |i: int| 0int));
}

/// Normalization is idempotent on already-normalized series: a second
/// normalization changes no series whose original total was exactly one
/// unit (100%) or zero.
pub proof fn lemma_normalize_idempotent(s: Seq<int>)
    requires
        series_total(s) == SCALE_UNIT as int || series_total(s) == 0,
    ensures
        norm_series(norm_series(s)) == norm_series(s),
{
    if series_total(s) == SCALE_UNIT as int {
        lemma_norm_unit_total(s);
    } else {
        lemma_norm_zero_total(s);
        let z = Seq::new(s.len(), |i: int| 0int);
        lemma_series_total_zeros(z);
        lemma_norm_zero_total(z);
    }
}

/// The non-negative variant of the idempotence law, as the outcome series
/// is normalized: a second normalization changes no all-non-negative
/// series whose original total was exactly one unit, nor one whose total
/// was zero.
pub proof fn lemma_normalize_idempotent_abs(s: Seq<int>)
    requires
        (series_total(s) == SCALE_UNIT as int && (forall|i: int| 0 <= i < s.len() ==> s[i] >= 0))
            || series_total(s) == 0,
    ensures
        norm_series_abs(norm_series_abs(s)) == norm_series_abs(s),
{
    if series_total(s) == SCALE_UNIT as int && (forall|i: int| 0 <= i < s.len() ==> s[i] >= 0) {
        lemma_norm_abs_unit_total(s);
    } else {
        lemma_norm_zero_total(s);
        let z = Seq::new(s.len(), |i: int| 0int);
        lemma_series_total_zeros(z);
        lemma_norm_zero_total(z);
    }
}

/// The magnitude a data point is ranked by: its net for `All`, its income
/// for `Income`, and the absolute value of its outcome for `Outcome`.
pub open spec fn rank_key(
    p: Purpose,
    inc: Seq<Money>,
    out: Seq<Money>,
    sum: Seq<Money>,
    i: int,
) -> int {
    match p {
        Purpose::All => sum[i] as int,
        Purpose::Income => inc[i] as int,
        Purpose::Outcome => abs_of(out[i] as int),
    }
}

/// The strict total order a ranking sorts by: larger key first, ties
/// broken by the earlier position in the source trend.
pub open spec fn rank_before(
    p: Purpose,
    inc: Seq<Money>,
    out: Seq<Money>,
    sum: Seq<Money>,
    a: int,
    b: int,
) -> bool {
    ||| rank_key(p, inc, out, sum, a) > rank_key(p, inc, out, sum, b)
    ||| (rank_key(p, inc, out, sum, a) == rank_key(p, inc, out, sum, b) && a < b)
}

///`ord` lists the positions of the top `k` data points: as many as exist
/// but at most `k`, in ranking order, and every listed position outranks
/// every unlisted one. The ranking order is strict and total, so exactly
/// one such sequence exists.
pub open spec fn ranked_selection(
    p: Purpose,
    inc: Seq<Money>,
    out: Seq<Money>,
    sum: Seq<Money>,
    k: int,
    ord: Seq<int>,
) -> bool {
    let n = inc.len() as int;
    &&& ord.len() == if k < n {
        k
    } else {
        n
    }
    &&& forall|i: int| 0 <= i < ord.len() ==> 0 <= #[trigger] ord[i] < n
    &&& forall|i: int, j: int|
        0 <= i < j < ord.len() ==> rank_before(p, inc, out, sum, #[trigger] ord[i], #[trigger] ord[j])
    &&& forall|i: int, v: int|
        0 <= i < ord.len() && 0 <= v < n && !(#[trigger] ord.contains(v)) ==> rank_before(
            p,
            inc,
            out,
            sum,
            #[trigger] ord[i],
            v,
        )
}

/// The ranked trend `r` reads the source trend's rows at the positions
/// `ord` lists, in that order.
pub open spec fn trend_rows_at<K>(t: Trend<K>, r: Trend<K>, ord: Seq<int>) -> bool {
    &&& r.axis@.len() == ord.len()
    &&& r.income@.len() == ord.len()
    &&& r.outcome@.len() == ord.len()
    &&& r.summary@.len() == ord.len()
    &&& forall|i: int|
        0 <= i < ord.len() ==> #[trigger] r.axis@[i] == t.axis@[ord[i]] && r.income@[i]
            == t.income@[ord[i]] && r.outcome@[i] == t.outcome@[ord[i]] && r.summary@[i]
            == t.summary@[ord[i]]
}

/// Some position below `n` is missing from a too-short list.
proof fn lemma_unchosen_exists(ord: Seq<int>, n: int)
    requires
        forall|i: int| 0 <= i < ord.len() ==> 0 <= #[trigger] ord[i] < n,
        ord.len() < n,
    ensures
        exists|v: int| 0 <= v < n && !ord.contains(v),
{
    broadcast use vstd::seq_lib::seq_to_set_is_finite;

    if forall|v: int| 0 <= v < n ==> #[trigger] ord.contains(v) {
        let rng = vstd::set_lib::set_int_range(0, n);
        vstd::set_lib::lemma_int_range(0, n);
        assert(rng.subset_of(ord.to_set())) by {
            assert forall|v: int| rng.contains(v) implies ord.to_set().contains(v) by {
                assert(ord.contains(v));
            }
        }
        vstd::set_lib::lemma_len_subset(rng, ord.to_set());
        ord.lemma_cardinality_of_set();
        assert(false);
    }
}

fn contains_u(v: &Vec<usize>, x: usize) -> (r: bool)
    ensures
        r == v@.contains(x),
{
    let n = v.len();
    let mut i: usize = 0;
    while i < n
        invariant
            i <= n,
            n == v@.len(),
            forall|j: int| 0 <= j < i ==> v@[j] != x,
        decreases n - i,
    {
        if v[i] == x {
            return true;
        }
        i = i + 1;
    }
    false
}

/// The magnitude row `i` is ranked by.
fn key_at(
    inc: &Vec<Money>,
    out: &Vec<Money>,
    sum: &Vec<Money>,
    purpose: Purpose,
    i: usize,
) -> (k: Money)
    requires
        i < inc@.len(),
        i < out@.len(),
        i < sum@.len(),
        out@[i as int] > i128::MIN,
    ensures
        k as int == rank_key(purpose, inc@, out@, sum@, i as int),
{
    match purpose {
        Purpose::All => sum[i],
        Purpose::Income => inc[i],
        Purpose::Outcome => {
            let v = out[i];
            if v < 0 {
                -v
            } else {
                v
            }
        },
    }
}

/// Keep the `top_k` best-ranked rows of a trend, best first: by net, by
/// income, or by outcome magnitude. Ties go to the earlier row. Asking for
/// zero rows or ranking an empty trend returns the trend unchanged, as a
/// deliberate no-op guard.
#[verifier::loop_isolation(false)]
fn rank_order(
    inc: &Vec<Money>,
    out: &Vec<Money>,
    sum: &Vec<Money>,
    purpose: Purpose,
    top_k: usize,
) -> (ord: Vec<usize>)
    requires
        out@.len() == inc@.len(),
        sum@.len() == inc@.len(),
        inc@.len() > 0,
        top_k > 0,
        forall|i: int| 0 <= i < out@.len() ==> #[trigger] out@[i] > i128::MIN,
    ensures
        ranked_selection(
            purpose,
            inc@,
            out@,
            sum@,
            top_k as int,
            ord@.map_values(|u: usize| u as int),
        ),
        forall|i: int| 0 <= i < ord@.len() ==> (#[trigger] ord@[i]) < inc@.len(),
{
    let n = inc.len();
    let kk = if top_k > n {
        n
    } else {
        top_k
    };
    let ghost ginc = inc@;
    let ghost gout = out@;
    let ghost gsum = sum@;
    let mut ord: Vec<usize> = Vec::new();
    let mut step: usize = 0;
    while step < kk
        invariant
            step <= kk,
            ord@.len() == step,
            forall|i: int| 0 <= i < ord@.len() ==> (#[trigger] ord@[i]) < n,
            forall|i: int, j: int|
                0 <= i < j < ord@.len() ==> rank_before(
                    purpose,
                    ginc,
                    gout,
                    gsum,
                    #[trigger] ord@[i] as int,
                    #[trigger] ord@[j] as int,
                ),
            forall|i: int, v: int|
                0 <= i < ord@.len() && 0 <= v < n && !(#[trigger] ord@.contains(
                    v as usize,
                )) ==> rank_before(
                    purpose,
                    ginc,
                    gout,
                    gsum,
                    #[trigger] ord@[i] as int,
                    v,
                ),
        decreases kk - step,
    {
        let best = pick_best(inc, out, sum, purpose, &ord);
        let ghost old_ord = ord@;
        ord.push(best);
        proof {
            assert forall|i: int, j: int| 0 <= i < j < ord@.len() implies rank_before(
                purpose,
                ginc,
                gout,
                gsum,
                #[trigger] ord@[i] as int,
                #[trigger] ord@[j] as int,
            ) by {
                if j == ord@.len() - 1 {
                    assert(ord@[i] == old_ord[i]);
                    assert(!old_ord.contains(best));
                    assert(((best as int) as usize) == best);
                    assert(rank_before(purpose, ginc, gout, gsum, old_ord[i] as int, best as int));
                }
            }
            assert forall|i: int, v2: int|
                0 <= i < ord@.len() && 0 <= v2 < n && !(#[trigger] ord@.contains(
                    v2 as usize,
                )) implies rank_before(
                purpose,
                ginc,
                gout,
                gsum,
                #[trigger] ord@[i] as int,
                v2,
            ) by {
                assert(!old_ord.contains(v2 as usize)) by {
                    if old_ord.contains(v2 as usize) {
                        let t = choose|t: int| 0 <= t < old_ord.len() && old_ord[t] == v2 as usize;
                        assert(ord@[t] == v2 as usize);
                    }
                }
                if i < ord@.len() - 1 {
                    assert(ord@[i] == old_ord[i]);
                } else {
                    assert(ord@[i] == best);
                    assert(v2 != best as int);
                }
            }
        }
        step = step + 1;
    }
    proof {
        let ordi = ord@.map_values(|u: usize| u as int);
        assert(ordi.len() == kk);
        assert(forall|i: int| 0 <= i < ordi.len() ==> #[trigger] ordi[i] == ord@[i] as int);
        assert forall|i: int, v2: int|
            0 <= i < ordi.len() && 0 <= v2 < ginc.len() && !(#[trigger] ordi.contains(
                v2,
            )) implies rank_before(purpose, ginc, gout, gsum, #[trigger] ordi[i], v2) by {
            assert(!ord@.contains(v2 as usize)) by {
                if ord@.contains(v2 as usize) {
                    let t2 = choose|t2: int| 0 <= t2 < ord@.len() && ord@[t2] == v2 as usize;
                    assert(ordi[t2] == v2);
                }
            }
        }
        assert(ranked_selection(purpose, ginc, gout, gsum, top_k as int, ordi));
    }
    ord
}

/// The best-ranked position not yet listed in `ord`; `ord` must not
/// already list every position.
#[verifier::loop_isolation(false)]
fn pick_best(
    inc: &Vec<Money>,
    out: &Vec<Money>,
    sum: &Vec<Money>,
    purpose: Purpose,
    ord: &Vec<usize>,
) -> (best: usize)
    requires
        out@.len() == inc@.len(),
        sum@.len() == inc@.len(),
        ord@.len() < inc@.len(),
        forall|i: int| 0 <= i < ord@.len() ==> (#[trigger] ord@[i]) < inc@.len(),
        forall|i: int| 0 <= i < out@.len() ==> #[trigger] out@[i] > i128::MIN,
    ensures
        best < inc@.len(),
        !ord@.contains(best),
        forall|u: int|
            0 <= u < inc@.len() && !(#[trigger] ord@.contains(u as usize)) ==> (u == best as int
                || rank_before(purpose, inc@, out@, sum@, best as int, u)),
{
    let n = inc.len();
    let ghost ginc = inc@;
    let ghost gout = out@;
    let ghost gsum = sum@;
    let mut best: usize = 0;
    let mut found = false;
    let mut v: usize = 0;
    while v < n
        invariant
            v <= n,
            found ==> best < n && (best as int) < v as int + 1 && !ord@.contains(best),
            found ==> forall|u: int|
                0 <= u < v && !(#[trigger] ord@.contains(u as usize)) ==> (u == best as int
                    || rank_before(purpose, ginc, gout, gsum, best as int, u)),
            !found ==> forall|u: int| 0 <= u < v ==> ord@.contains(#[trigger] (u as usize)),
        decreases n - v,
    {
        if !contains_u(ord, v) {
            if !found {
                best = v;
                found = true;
            } else {
                let kv = key_at(inc, out, sum, purpose, v);
                let kb = key_at(inc, out, sum, purpose, best);
                if kv > kb {
                    best = v;
                }
            }
        }
        v = v + 1;
    }
    proof {
        if !found {
            let ordi = ord@.map_values(|u: usize| u as int);
            assert forall|u: int| 0 <= u < n implies #[trigger] ordi.contains(u) by {
                assert(ord@.contains(u as usize));
                let t = choose|t: int| 0 <= t < ord@.len() && ord@[t] == u as usize;
                assert(ordi[t] == u);
            }
            assert(forall|i: int| 0 <= i < ordi.len() ==> 0 <= #[trigger] ordi[i] < n);
            lemma_unchosen_exists(ordi, n as int);
            let w = choose|w: int| 0 <= w < n && !ordi.contains(w);
            assert(ord@.contains(w as usize));
            let t = choose|t: int| 0 <= t < ord@.len() && ord@[t] == w as usize;
            assert(ordi[t] == w);
            assert(false);
        }
    }
    best
}

/// Keep the `top_k` best-ranked rows of a trend, best first: by net, by
/// income, or by outcome magnitude. Ties go to the earlier row. Asking for
/// zero rows or ranking an empty trend returns the trend unchanged, as a
/// deliberate no-op guard.
#[verifier::loop_isolation(false)]
pub fn rank_trend<K: Copy>(trend: Trend<K>, purpose: Purpose, top_k: usize) -> (r: Trend<K>)
    requires
        trend.income@.len() == trend.axis@.len(),
        trend.outcome@.len() == trend.axis@.len(),
        trend.summary@.len() == trend.axis@.len(),
        forall|i: int| 0 <= i < trend.outcome@.len() ==> #[trigger] trend.outcome@[i] > i128::MIN,
    ensures
        trend.axis@.len() == 0 || top_k == 0 ==> r == trend,
        trend.axis@.len() > 0 && top_k > 0 ==> exists|ord: Seq<int>|
            ranked_selection(
                purpose,
                trend.income@,
                trend.outcome@,
                trend.summary@,
                top_k as int,
                ord,
            ) && trend_rows_at(trend, r, ord),
{
    let n = trend.axis.len();
    if n == 0 || top_k == 0 {
        return trend;
    }
    let ord = rank_order(&trend.income, &trend.outcome, &trend.summary, purpose, top_k);
    let kk = ord.len();
    let mut axis: Vec<K> = Vec::new();
    let mut inc: Vec<Money> = Vec::new();
    let mut out: Vec<Money> = Vec::new();
    let mut sum: Vec<Money> = Vec::new();
    let mut t: usize = 0;
    while t < kk
        invariant
            t <= kk,
            kk == ord@.len(),
            forall|i: int| 0 <= i < ord@.len() ==> (#[trigger] ord@[i]) < n,
            axis@.len() == t && inc@.len() == t && out@.len() == t && sum@.len() == t,
            forall|i: int|
                0 <= i < t ==> #[trigger] axis@[i] == trend.axis@[ord@[i] as int] && inc@[i]
                    == trend.income@[ord@[i] as int] && out@[i] == trend.outcome@[ord@[i] as int]
                    && sum@[i] == trend.summary@[ord@[i] as int],
        decreases kk - t,
    {
        let o = ord[t];
        axis.push(trend.axis[o]);
        inc.push(trend.income[o]);
        out.push(trend.outcome[o]);
        sum.push(trend.summary[o]);
        t = t + 1;
    }
    let r = Trend { axis, income: inc, outcome: out, summary: sum };
    proof {
        let ordi = ord@.map_values(|u: usize| u as int);
        assert(trend_rows_at(trend, r, ordi)) by {
            assert(forall|i: int| 0 <= i < ordi.len() ==> #[trigger] ordi[i] == ord@[i] as int);
        }
    }
    r
}

} // verus!
