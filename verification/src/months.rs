//! Calendar months: the linear month number, lexicographic order on
//! `(year, month)` pairs, the inclusive expansion of a month range, and
//! shifting a month by a signed offset.
//!
//! A query window (a "timephase") is a pair of `(year, month)` pairs,
//! start and end, both inclusive. A reversed window expands to nothing.

use vstd::prelude::*;

use crate::datatype::YEAR_LIMIT;

verus! {

/// A `(year, month)` pair.
pub type YearMonth = (i32, u32);

/// An inclusive month window: start and end `(year, month)`.
pub type Phase = (YearMonth, YearMonth);

/// A month pair the engine accepts: a real month and a sane year.
pub open spec fn valid_ym(ym: YearMonth) -> bool {
    &&& 1 <= ym.1 <= 12
    &&& -YEAR_LIMIT <= ym.0 <= YEAR_LIMIT
}

/// Both ends of a window are acceptable month pairs.
pub open spec fn phase_wf(ph: Phase) -> bool {
    valid_ym(ph.0) && valid_ym(ph.1)
}

/// Months since the calendar origin: injective and order-preserving on
/// valid month pairs.
pub open spec fn month_num(ym: YearMonth) -> int {
    12 * (ym.0 as int) + (ym.1 as int) - 1
}

/// Lexicographic order: `a` is no later than `b`.
pub open spec fn ym_le(a: YearMonth, b: YearMonth) -> bool {
    a.0 < b.0 || (a.0 == b.0 && a.1 <= b.1)
}

/// The month pair `ym` falls inside the window `ph`.
pub open spec fn in_phase(ph: Phase, ym: YearMonth) -> bool {
    &&& 1 <= ym.1 <= 12
    &&& ym_le(ph.0, ym)
    &&& ym_le(ym, ph.1)
}

/// How many months the window spans (zero when reversed).
pub open spec fn phase_len(ph: Phase) -> int {
    if month_num(ph.0) <= month_num(ph.1) {
        month_num(ph.1) - month_num(ph.0) + 1
    } else {
        0
    }
}

/// The month pair `i` months after `start`.
pub open spec fn month_at(start: YearMonth, i: int) -> YearMonth {
    let t = month_num(start) + i;
    (((t / 12) as i32), ((t % 12 + 1) as u32))
}

/// The ordered, inclusive sequence of months a window spans.
pub open spec fn month_seq(ph: Phase) -> Seq<YearMonth> {
    Seq::new(phase_len(ph) as nat, |i: int| month_at(ph.0, i))
}

/// On valid month pairs the month number reflects the lexicographic order
/// exactly.
pub proof fn lemma_num_le(a: YearMonth, b: YearMonth)
    requires
        1 <= a.1 <= 12,
        1 <= b.1 <= 12,
    ensures
        ym_le(a, b) <==> month_num(a) <= month_num(b),
        a == b <==> month_num(a) == month_num(b),
{
    assert(ym_le(a, b) <==> month_num(a) <= month_num(b)) by (nonlinear_arith)
        requires
            1 <= a.1 <= 12,
            1 <= b.1 <= 12,
    ;
    assert(a.0 == b.0 && a.1 == b.1 <==> month_num(a) == month_num(b)) by (nonlinear_arith)
        requires
            1 <= a.1 <= 12,
            1 <= b.1 <= 12,
    ;
    if month_num(a) == month_num(b) {
        assert(a.0 == b.0 && a.1 == b.1);
        assert(a == b);
    }
}

/// A month number decomposes uniquely into a year and a month.
proof fn lemma_num_inverse(ym: YearMonth)
    requires
        1 <= ym.1 <= 12,
    ensures
        month_num(ym) / 12 == ym.0 as int,
        month_num(ym) % 12 == ym.1 as int - 1,
{
    vstd::arithmetic::div_mod::lemma_fundamental_div_mod_converse(
        month_num(ym),
        12,
        ym.0 as int,
        ym.1 as int - 1,
    );
}

/// Inside a valid window, the `i`-th month of the range is a valid month
/// pair, lies in the window, and its month number is `i` past the start.
pub proof fn lemma_month_at_props(ph: Phase, i: int)
    requires
        phase_wf(ph),
        0 <= i < phase_len(ph),
    ensures
        valid_ym(month_at(ph.0, i)),
        in_phase(ph, month_at(ph.0, i)),
        month_num(month_at(ph.0, i)) == month_num(ph.0) + i,
{
    let t = month_num(ph.0) + i;
    let y = t / 12;
    let m = t % 12;
    vstd::arithmetic::div_mod::lemma_fundamental_div_mod(t, 12);
    assert(t == 12 * y + m);
    // the year stays within the cast range
    assert(month_num(ph.0) <= t <= month_num(ph.1));
    assert(12 * (-YEAR_LIMIT as int) - 12 <= 12 * y <= 12 * (YEAR_LIMIT as int) + 12) by (nonlinear_arith)
        requires
            t == 12 * y + m,
            0 <= m < 12,
            12 * (-YEAR_LIMIT as int) + 1 - 1 <= t <= 12 * (YEAR_LIMIT as int) + 12 - 1,
    ;
    assert(-YEAR_LIMIT as int - 1 <= y <= YEAR_LIMIT as int + 1) by (nonlinear_arith)
        requires
            12 * (-YEAR_LIMIT as int) - 12 <= 12 * y <= 12 * (YEAR_LIMIT as int) + 12,
    ;
    let ym = month_at(ph.0, i);
    assert(ym.0 as int == y);
    assert(ym.1 as int == m + 1);
    assert(month_num(ym) == 12 * y + m);
    lemma_num_le(ph.0, ym);
    lemma_num_le(ym, ph.1);
    // tighten the year back into the valid range using the window's ends
    lemma_num_inverse(ph.0);
    lemma_num_inverse(ph.1);
    assert(ph.0.0 as int <= y <= ph.1.0 as int) by (nonlinear_arith)
        requires
            month_num(ph.0) <= 12 * y + m <= month_num(ph.1),
            month_num(ph.0) == 12 * (ph.0.0 as int) + (ph.0.1 as int) - 1,
            month_num(ph.1) == 12 * (ph.1.0 as int) + (ph.1.1 as int) - 1,
            1 <= ph.0.1 as int <= 12,
            1 <= ph.1.1 as int <= 12,
            0 <= m < 12,
    ;
}

/// A month pair lies in the window exactly when it appears in the expanded
/// range, namely at the index given by its distance from the start.
pub proof fn lemma_in_phase_index(ph: Phase, ym: YearMonth)
    requires
        phase_wf(ph),
        in_phase(ph, ym),
    ensures
        0 <= month_num(ym) - month_num(ph.0) < phase_len(ph),
        month_seq(ph)[month_num(ym) - month_num(ph.0)] == ym,
{
    lemma_num_le(ph.0, ym);
    lemma_num_le(ym, ph.1);
    lemma_num_le(ph.0, ph.1);
    let i = month_num(ym) - month_num(ph.0);
    lemma_num_inverse(ym);
    let got = month_at(ph.0, i);
    assert(got.0 as int == ym.0 as int && got.1 as int == ym.1 as int);
    assert(got == ym);
}

/// Every month of the expanded range lies in the window.
pub proof fn lemma_month_seq_in_phase(ph: Phase)
    requires
        phase_wf(ph),
    ensures
        forall|i: int|
            0 <= i < month_seq(ph).len() ==> valid_ym(#[trigger] month_seq(ph)[i]) && in_phase(
                ph,
                month_seq(ph)[i],
            ) && month_num(month_seq(ph)[i]) == month_num(ph.0) + i,
{
    assert forall|i: int| 0 <= i < month_seq(ph).len() implies valid_ym(
        #[trigger] month_seq(ph)[i],
    ) && in_phase(ph, month_seq(ph)[i]) && month_num(month_seq(ph)[i]) == month_num(ph.0)
        + i by {
        lemma_month_at_props(ph, i);
    }
}

/// The window one month short of `ph` at its end.
pub open spec fn phase_drop_last(ph: Phase) -> Phase {
    if ph.1.1 == 1 {
        (ph.0, (((ph.1.0 - 1) as i32), 12u32))
    } else {
        (ph.0, (ph.1.0, ((ph.1.1 - 1) as u32)))
    }
}

/// A non-empty expanded range is the expansion of the shortened window plus
/// the end month, and membership splits accordingly.
pub proof fn lemma_phase_drop_last(ph: Phase)
    requires
        phase_wf(ph),
        phase_len(ph) > 0,
    ensures
        phase_len(ph) > 1 ==> phase_wf(phase_drop_last(ph)),
        phase_drop_last(ph).0 == ph.0,
        1 <= phase_drop_last(ph).1.1 <= 12,
        phase_len(phase_drop_last(ph)) == phase_len(ph) - 1,
        month_seq(ph).drop_last() == month_seq(phase_drop_last(ph)),
        month_seq(ph).last() == ph.1,
        forall|ym: YearMonth|
            #[trigger] in_phase(ph, ym) <==> (in_phase(phase_drop_last(ph), ym) || ym == ph.1),
        forall|ym: YearMonth| !(in_phase(phase_drop_last(ph), ym) && ym == ph.1),
{
    let pd = phase_drop_last(ph);
    lemma_num_le(ph.0, ph.1);
    assert(month_num(pd.1) == month_num(ph.1) - 1);
    // the shortened end is still a valid pair whenever the short window is
    // non-empty: it then lies between the two valid window ends
    if phase_len(ph) > 1 {
        lemma_num_le(ph.0, pd.1);
        assert(ph.0.0 <= pd.1.0 <= ph.1.0);
    }
    assert(phase_len(pd) == phase_len(ph) - 1);
    assert(month_seq(ph).drop_last() =~= month_seq(pd));
    lemma_month_at_props(ph, phase_len(ph) - 1);
    lemma_num_inverse(ph.1);
    assert(month_seq(ph).last() == ph.1);
    assert forall|ym: YearMonth| #[trigger] in_phase(ph, ym) implies (in_phase(pd, ym) || ym
        == ph.1) by {
        if ym != ph.1 {
            lemma_num_le(ym, ph.1);
            lemma_num_le(ym, pd.1);
            lemma_num_le(ph.0, ym);
        }
    }
    assert forall|ym: YearMonth| in_phase(pd, ym) || ym == ph.1 implies #[trigger] in_phase(
        ph,
        ym,
    ) by {
        if in_phase(pd, ym) {
            lemma_num_le(ym, pd.1);
            lemma_num_le(ym, ph.1);
        } else {
            lemma_num_le(ph.0, ym);
            lemma_num_le(ym, ph.1);
        }
    }
    assert forall|ym: YearMonth| in_phase(pd, ym) implies ym != ph.1 by {
        lemma_num_le(ym, pd.1);
        lemma_num_le(ph.1, ym);
    }
}

/// Expand an inclusive month window into the ordered list of months it
/// spans: from start to end, stepping one calendar month at a time, rolling
/// the year over after December. A reversed window yields an empty list.
pub fn expand_month_range(sy: i32, sm: u32, ey: i32, em: u32) -> (r: Vec<YearMonth>)
    requires
        valid_ym((sy, sm)),
        valid_ym((ey, em)),
    ensures
        r@ == month_seq(((sy, sm), (ey, em))),
{
    let ph: Ghost<Phase> = Ghost(((sy, sm), (ey, em)));
    let mut result: Vec<YearMonth> = Vec::new();
    let mut cy: i32 = sy;
    let mut cm: u32 = sm;
    proof {
        lemma_num_le((sy, sm), (ey, em));
    }
    while cy < ey || (cy == ey && cm <= em)
        invariant
            valid_ym((sy, sm)),
            valid_ym((ey, em)),
            1 <= cm <= 12,
            -YEAR_LIMIT <= cy <= YEAR_LIMIT + 1,
            month_num((cy, cm)) == month_num((sy, sm)) + result@.len(),
            result@.len() <= phase_len(ph@),
            result@ == month_seq(ph@).take(result@.len() as int),
            ph@ == ((sy, sm), (ey, em)),
        decreases phase_len(ph@) - result@.len(),
    {
        proof {
            lemma_num_le((cy, cm), (ey, em));
            assert(month_num((cy, cm)) <= month_num((ey, em)));
            assert(result@.len() < phase_len(ph@));
            lemma_month_at_props(ph@, result@.len() as int);
            lemma_num_inverse((cy, cm));
            assert(month_at(ph@.0, result@.len() as int) == (cy, cm));
        }
        let ghost n = result@.len() as int;
        result.push((cy, cm));
        proof {
            assert(result@ =~= month_seq(ph@).take(n + 1));
        }
        cm = cm + 1;
        if cm > 12 {
            cm = 1;
            cy = cy + 1;
        }
    }
    proof {
        assert(month_num((cy, cm)) > month_num((ey, em)));
        assert(result@.len() == phase_len(ph@));
        assert(result@ =~= month_seq(ph@));
    }
    result
}

/// Shift a `(year, month)` pair by a signed number of months, clamping at
/// the calendar origin (year zero, January): the result of walking `delta`
/// months forward or backward from `ym`.
pub fn add_months(ym: YearMonth, delta: i32) -> (r: YearMonth)
    requires
        valid_ym(ym),
        -12_000_000 <= delta <= 12_000_000,
    ensures
        ({
            let t0 = month_num(ym) + delta;
            let t = if t0 < 0 {
                0
            } else {
                t0
            };
            r == (((t / 12) as i32), ((t % 12 + 1) as u32))
        }),
        1 <= r.1 <= 12,
{
    let (y, m) = ym;
    let total: i32 = y * 12 + (m as i32 - 1) + delta;
    let total: i32 = if total < 0 {
        0
    } else {
        total
    };
    let t: u32 = total as u32;
    let ry: i32 = (t / 12) as i32;
    let rm: u32 = t % 12 + 1;
    proof {
        vstd::arithmetic::div_mod::lemma_fundamental_div_mod(t as int, 12);
    }
    (ry, rm)
}

} // verus!

