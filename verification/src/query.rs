//! The query layer: every read-only view computed from `monthstats`'s
//! output. The per-key filter primitive, the windowed scalar summary, the
//! per-month time series, the cross-month per-category and per-account
//! breakdowns, and the top-K rankings over them; with the partition
//! lemmas that tie a whole window's sums to its months.

use vstd::prelude::*;

use crate::datatype::{AccountId, CategoryId, Entry, Money, UserId, AMOUNT_LIMIT, SUM_CAP};
use crate::ledger::{
    detail_of, entry_pred, entry_sel, lemma_scope_sum_bound, lemma_scope_zero, lemma_single_month,
    month_ok, scope_count, scope_sum, scope_sum_upto, tx_ym, w_amount, Ledger,
};
use crate::months::{lemma_num_le, month_num, phase_wf, valid_ym, Phase, YearMonth};
use crate::stats::{alist_find, filter_value_spec, Monthstats, Purpose};
use crate::sums::count;
use crate::trend::Trend;

verus! {

/// A category filter as the category-key filter it denotes: filtering by
/// a category selects exactly the entries carrying that category.
pub open spec fn lift_cat(category: Option<CategoryId>) -> Option<Option<CategoryId>> {
    match category {
        Some(c) => Some(Some(c)),
        None => None,
    }
}

/// Conservation of money: in any scope, the net sum is the income sum
/// plus the outcome sum, because every selected entry is counted on
/// exactly one side of the sign split.
pub proof fn lemma_purpose_split(
    l: Ledger,
    uid: UserId,
    ph: Phase,
    accf: Option<AccountId>,
    catf: Option<Option<CategoryId>>,
    upto: int,
)
    ensures
        scope_sum_upto(l, uid, ph, accf, catf, Purpose::All, upto) == scope_sum_upto(
            l,
            uid,
            ph,
            accf,
            catf,
            Purpose::Income,
            upto,
        ) + scope_sum_upto(l, uid, ph, accf, catf, Purpose::Outcome, upto),
{
    crate::sums::lemma_wsum_split(
        l.entry@.take(upto),
        entry_pred(l, uid, ph, accf, catf, Purpose::All),
        entry_pred(l, uid, ph, accf, catf, Purpose::Income),
        entry_pred(l, uid, ph, accf, catf, Purpose::Outcome),
        w_amount(),
    );
}

/// What the per-key lookup reads from a correct month record is exactly
/// that scope's sum over the aggregated prefix.
proof fn lemma_filter_bridge(
    l: Ledger,
    uid: UserId,
    m: YearMonth,
    s: Monthstats,
    accf: Option<AccountId>,
    category: Option<CategoryId>,
    p: Purpose,
    upto: int,
)
    requires
        l.wf(),
        0 <= upto <= l.entry@.len(),
        month_ok(l, uid, m, s, upto),
    ensures
        filter_value_spec(s, accf, category, p) == scope_sum_upto(
            l,
            uid,
            (m, m),
            accf,
            lift_cat(category),
            p,
            upto,
        ),
{
    let ph = (m, m);
    let catf = lift_cat(category);
    lemma_purpose_split(l, uid, ph, accf, catf, upto);
    lemma_scope_sum_bound(l, uid, ph, accf, catf, Purpose::Income, upto);
    lemma_scope_sum_bound(l, uid, ph, accf, catf, Purpose::Outcome, upto);
    match (accf, category) {
        (Option::None, Option::None) => {},
        (Option::None, Option::Some(cat)) => {
            assert(alist_find(s.category@, Some(cat)) == detail_of(l, uid, ph, None, catf, upto));
            if detail_of(l, uid, ph, None, catf, upto) is None {
                lemma_scope_zero(l, uid, ph, None, catf, upto);
            }
        },
        (Option::Some(acc), Option::None) => {
            assert(alist_find(s.account@, acc) == detail_of(l, uid, ph, accf, None, upto));
            if detail_of(l, uid, ph, accf, None, upto) is None {
                lemma_scope_zero(l, uid, ph, accf, None, upto);
            }
        },
        (Option::Some(acc), Option::Some(cat)) => {
            assert(alist_find(s.account_category@, (acc, Some(cat))) == detail_of(
                l,
                uid,
                ph,
                Some(acc),
                Some(Some(cat)),
                upto,
            ));
            if detail_of(l, uid, ph, accf, catf, upto) is None {
                lemma_scope_zero(l, uid, ph, accf, catf, upto);
            }
        },
    }
}

/// The window sum taken month by month over a list of months.
pub open spec fn months_sum(
    l: Ledger,
    uid: UserId,
    ms: Seq<YearMonth>,
    accf: Option<AccountId>,
    catf: Option<Option<CategoryId>>,
    p: Purpose,
) -> int
    decreases ms.len(),
{
    if ms.len() == 0 {
        0
    } else {
        months_sum(l, uid, ms.drop_last(), accf, catf, p) + scope_sum(
            l,
            uid,
            (ms.last(), ms.last()),
            accf,
            catf,
            p,
        )
    }
}

/// The window count taken month by month over a list of months.
pub open spec fn months_count(
    l: Ledger,
    uid: UserId,
    ms: Seq<YearMonth>,
    accf: Option<AccountId>,
    catf: Option<Option<CategoryId>>,
) -> int
    decreases ms.len(),
{
    if ms.len() == 0 {
        0
    } else {
        months_count(l, uid, ms.drop_last(), accf, catf) + scope_count(
            l,
            uid,
            (ms.last(), ms.last()),
            accf,
            catf,
        )
    }
}

/// An empty window selects nothing.
proof fn lemma_empty_phase(
    l: Ledger,
    uid: UserId,
    ph: Phase,
    accf: Option<AccountId>,
    catf: Option<Option<CategoryId>>,
)
    requires
        phase_wf(ph),
        crate::months::phase_len(ph) == 0,
    ensures
        scope_sum(l, uid, ph, accf, catf, Purpose::All) == 0,
        scope_sum(l, uid, ph, accf, catf, Purpose::Income) == 0,
        scope_sum(l, uid, ph, accf, catf, Purpose::Outcome) == 0,
        scope_count(l, uid, ph, accf, catf) == 0,
{
    let es = l.entry@.take(l.entry@.len() as int);
    assert forall|i: int|
        0 <= i < es.len() implies !(entry_pred(l, uid, ph, accf, catf, Purpose::All)(
        #[trigger] es[i],
    )) by {
        let e = es[i];
        if entry_sel(l, uid, ph, e) {
            let ym = tx_ym(l.transaction@, e.tranid).unwrap();
            lemma_num_le(ph.0, ym);
            lemma_num_le(ym, ph.1);
        }
    }
    assert forall|i: int|
        0 <= i < es.len() implies !(entry_pred(l, uid, ph, accf, catf, Purpose::Income)(
        #[trigger] es[i],
    )) && !(entry_pred(l, uid, ph, accf, catf, Purpose::Outcome)(es[i])) by {
        assert(!(entry_pred(l, uid, ph, accf, catf, Purpose::All)(es[i])));
    }
    crate::sums::lemma_wsum_empty(es, entry_pred(l, uid, ph, accf, catf, Purpose::All), w_amount());
    crate::sums::lemma_wsum_empty(
        es,
        entry_pred(l, uid, ph, accf, catf, Purpose::Income),
        w_amount(),
    );
    crate::sums::lemma_wsum_empty(
        es,
        entry_pred(l, uid, ph, accf, catf, Purpose::Outcome),
        w_amount(),
    );
    crate::sums::lemma_wsum_empty(
        es,
        entry_pred(l, uid, ph, accf, catf, Purpose::All),
        crate::sums::one_w::<Entry>(),
    );
}

/// Two scopes whose filters agree on every entry have the same sums.
proof fn lemma_scope_congruence(
    l: Ledger,
    uid: UserId,
    ph1: Phase,
    ph2: Phase,
    accf: Option<AccountId>,
    catf: Option<Option<CategoryId>>,
    p: Purpose,
)
    requires
        forall|e: Entry| #[trigger]
            entry_sel(l, uid, ph1, e) == entry_sel(l, uid, ph2, e),
    ensures
        scope_sum(l, uid, ph1, accf, catf, p) == scope_sum(l, uid, ph2, accf, catf, p),
        scope_count(l, uid, ph1, accf, catf) == scope_count(l, uid, ph2, accf, catf),
{
    let es = l.entry@.take(l.entry@.len() as int);
    crate::sums::lemma_wsum_congruence(
        es,
        entry_pred(l, uid, ph1, accf, catf, p),
        w_amount(),
        entry_pred(l, uid, ph2, accf, catf, p),
        w_amount(),
    );
    crate::sums::lemma_wsum_congruence(
        es,
        entry_pred(l, uid, ph1, accf, catf, Purpose::All),
        crate::sums::one_w::<Entry>(),
        entry_pred(l, uid, ph2, accf, catf, Purpose::All),
        crate::sums::one_w::<Entry>(),
    );
}

/// Partition of a window by its months: the whole-window sum and count
/// are the month-by-month sums and counts over the expanded range.
proof fn lemma_months_partition(
    l: Ledger,
    uid: UserId,
    ph: Phase,
    accf: Option<AccountId>,
    catf: Option<Option<CategoryId>>,
    p: Purpose,
)
    requires
        phase_wf(ph),
    ensures
        scope_sum(l, uid, ph, accf, catf, p) == months_sum(
            l,
            uid,
            crate::months::month_seq(ph),
            accf,
            catf,
            p,
        ),
        scope_count(l, uid, ph, accf, catf) == months_count(
            l,
            uid,
            crate::months::month_seq(ph),
            accf,
            catf,
        ),
    decreases crate::months::phase_len(ph),
{
    let ms = crate::months::month_seq(ph);
    let es = l.entry@.take(l.entry@.len() as int);
    if crate::months::phase_len(ph) <= 0 {
        lemma_empty_phase(l, uid, ph, accf, catf);
    } else if crate::months::phase_len(ph) == 1 {
        lemma_num_le(ph.0, ph.1);
        lemma_num_le(ph.1, ph.0);
        assert(ph.0 == ph.1);
        crate::months::lemma_month_seq_in_phase(ph);
        assert(ms.len() == 1 && ms[0] == ph.0);
        assert(ms.drop_last() =~= Seq::<YearMonth>::empty());
        assert(ms.last() == ph.0);
        assert forall|e: Entry| #[trigger] entry_sel(l, uid, ph, e) == entry_sel(
            l,
            uid,
            (ph.0, ph.0),
            e,
        ) by {}
        lemma_scope_congruence(l, uid, ph, (ph.0, ph.0), accf, catf, p);
        assert((ms.last(), ms.last()) == (ph.0, ph.0));
        assert(months_sum(l, uid, ms, accf, catf, p) == months_sum(
            l,
            uid,
            ms.drop_last(),
            accf,
            catf,
            p,
        ) + scope_sum(l, uid, (ms.last(), ms.last()), accf, catf, p));
        assert(months_sum(l, uid, ms.drop_last(), accf, catf, p) == 0);
        assert(months_count(l, uid, ms, accf, catf) == months_count(
            l,
            uid,
            ms.drop_last(),
            accf,
            catf,
        ) + scope_count(l, uid, (ms.last(), ms.last()), accf, catf));
        assert(months_count(l, uid, ms.drop_last(), accf, catf) == 0);
    } else {
        let pd = crate::months::phase_drop_last(ph);
        crate::months::lemma_phase_drop_last(ph);
        lemma_months_partition(l, uid, pd, accf, catf, p);
        assert(ms.drop_last() == crate::months::month_seq(pd));
        assert(ms.last() == ph.1);
        // split the whole-window filter into the short window and the end
        // month, which partition it
        let f = entry_pred(l, uid, ph, accf, catf, p);
        let f1 = entry_pred(l, uid, pd, accf, catf, p);
        let f2 = entry_pred(l, uid, (ph.1, ph.1), accf, catf, p);
        assert forall|i: int| 0 <= i < es.len() implies #[trigger] f(es[i]) == (f1(es[i]) || f2(
            es[i],
        )) && !(f1(es[i]) && f2(es[i])) by {
            let e = es[i];
            if e.userid == uid && tx_ym(l.transaction@, e.tranid) is Some {
                let ym = tx_ym(l.transaction@, e.tranid).unwrap();
                if 1 <= ym.1 <= 12 {
                    lemma_single_month(ph.1, ym);
                }
            }
        }
        crate::sums::lemma_wsum_split(es, f, f1, f2, w_amount());
        let cf = entry_pred(l, uid, ph, accf, catf, Purpose::All);
        let cf1 = entry_pred(l, uid, pd, accf, catf, Purpose::All);
        let cf2 = entry_pred(l, uid, (ph.1, ph.1), accf, catf, Purpose::All);
        assert forall|i: int| 0 <= i < es.len() implies #[trigger] cf(es[i]) == (cf1(es[i]) || cf2(
            es[i],
        )) && !(cf1(es[i]) && cf2(es[i])) by {
            let e = es[i];
            if e.userid == uid && tx_ym(l.transaction@, e.tranid) is Some {
                let ym = tx_ym(l.transaction@, e.tranid).unwrap();
                if 1 <= ym.1 <= 12 {
                    lemma_single_month(ph.1, ym);
                }
            }
        }
        crate::sums::lemma_wsum_split(es, cf, cf1, cf2, crate::sums::one_w::<Entry>());
    }
}

/// Walking the month list one month further adds that month's sum.
proof fn lemma_months_take_step(
    l: Ledger,
    uid: UserId,
    ms: Seq<YearMonth>,
    accf: Option<AccountId>,
    catf: Option<Option<CategoryId>>,
    p: Purpose,
    i: int,
)
    requires
        0 <= i < ms.len(),
    ensures
        months_sum(l, uid, ms.take(i + 1), accf, catf, p) == months_sum(
            l,
            uid,
            ms.take(i),
            accf,
            catf,
            p,
        ) + scope_sum(l, uid, (ms[i], ms[i]), accf, catf, p),
        months_count(l, uid, ms.take(i + 1), accf, catf) == months_count(
            l,
            uid,
            ms.take(i),
            accf,
            catf,
        ) + scope_count(l, uid, (ms[i], ms[i]), accf, catf),
{
    assert(ms.take(i + 1).drop_last() =~= ms.take(i));
    assert(ms.take(i + 1).last() == ms[i]);
}

/// The number of months a sane window can span: at most 2400012, which
/// is below `NORM_LEN_LIMIT`, so a time series over any accepted window
/// can be normalized.
pub proof fn lemma_phase_len_bound(ph: Phase)
    requires
        phase_wf(ph),
    ensures
        0 <= crate::months::phase_len(ph) <= 2400012,
{
}

impl Ledger {
    /// The scalar one month record contributes under the given filters:
    /// the right breakdown record read through the purpose, zero when the
    /// filtered key never occurred.
    fn filter_value(
        s: &Monthstats,
        accountid: Option<AccountId>,
        category: Option<CategoryId>,
        purpose: Purpose,
    ) -> (r: Money)
        ensures
            r as int == filter_value_spec(*s, accountid, category, purpose),
    {
        match (accountid, category) {
            (None, None) => s.get(purpose),
            (None, Some(cat)) => match crate::stats::cat_find(&s.category, Some(cat)) {
                Some(d) => d.get(purpose),
                None => 0,
            },
            (Some(acc), None) => match crate::stats::acc_find(&s.account, acc) {
                Some(d) => d.get(purpose),
                None => 0,
            },
            (Some(acc), Some(cat)) => match crate::stats::pair_find(
                &s.account_category,
                (acc, Some(cat)),
            ) {
                Some(d) => d.get(purpose),
                None => 0,
            },
        }
    }

    /// Sum the filtered scalar across all months of the window: the total
    /// income, outcome or net of the user's postings inside the window,
    /// optionally restricted to one account and one category.
    ///
    /// Without an explicit window the single month `(year, month)` is
    /// used; with one, `year` and `month` are ignored. `onlyspend` absent
    /// asks for the net, `true` for the (negative) outcome, `false` for
    /// the income.
    #[verifier::loop_isolation(false)]
    pub fn month_summary(
        &self,
        userid: UserId,
        year: i32,
        month: u32,
        accountid: Option<AccountId>,
        category: Option<CategoryId>,
        onlyspend: Option<bool>,
        timephase: Option<Phase>,
    ) -> (r: Money)
        requires
            self.wf(),
            match timephase {
                Some(ph) => phase_wf(ph),
                None => valid_ym((year, month)),
            },
        ensures
            r as int == scope_sum(
                *self,
                userid,
                summary_phase(year, month, timephase),
                accountid,
                lift_cat(category),
                Purpose::trans_spec(onlyspend),
            ),
            -SUM_CAP <= r <= SUM_CAP,
    {
        let phase = match timephase {
            Some(ph) => ph,
            None => ((year, month), (year, month)),
        };
        let purpose = Purpose::trans(onlyspend);
        let stat = self.monthstats(userid, phase);
        let ghost ms = crate::months::month_seq(phase);
        let ghost catf = lift_cat(category);
        let n = stat.len();
        proof {
            lemma_phase_len_bound(phase);
        }
        let mut total: Money = 0;
        let mut i: usize = 0;
        while i < n
            invariant
                i <= n,
                total as int == months_sum(*self, userid, ms.take(i as int), accountid, catf, purpose),
                -(i as int) * SUM_CAP <= total as int <= (i as int) * SUM_CAP,
            decreases n - i,
        {
            let v = Self::filter_value(&stat[i].1, accountid, category, purpose);
            proof {
                lemma_filter_bridge(
                    *self,
                    userid,
                    stat@[i as int].0,
                    stat@[i as int].1,
                    accountid,
                    category,
                    purpose,
                    self.entry@.len() as int,
                );
                lemma_scope_sum_bound(
                    *self,
                    userid,
                    (ms[i as int], ms[i as int]),
                    accountid,
                    catf,
                    purpose,
                    self.entry@.len() as int,
                );
                lemma_months_take_step(*self, userid, ms, accountid, catf, purpose, i as int);
            }
            total = total + v;
            i = i + 1;
        }
        proof {
            assert(ms.take(n as int) =~= ms);
            lemma_months_partition(*self, userid, phase, accountid, catf, purpose);
            lemma_scope_sum_bound(
                *self,
                userid,
                phase,
                accountid,
                catf,
                purpose,
                self.entry@.len() as int,
            );
        }
        total
    }
}

/// The window that `month_summary` aggregates: the explicit one when
/// given, else the single month named by `year` and `month`.
pub open spec fn summary_phase(year: i32, month: u32, timephase: Option<Phase>) -> Phase {
    match timephase {
        Some(ph) => ph,
        None => ((year, month), (year, month)),
    }
}

impl Ledger {
    /// One data point per month of the window, in chronological order:
    /// the income, outcome and net of the user's postings in that month
    /// under the optional account and category filters. A time series for
    /// charting or month-by-month narration.
    #[verifier::loop_isolation(false)]
    pub fn data_linetrend(
        &self,
        userid: UserId,
        timephase: Phase,
        accountid: Option<AccountId>,
        category: Option<CategoryId>,
    ) -> (t: Trend<YearMonth>)
        requires
            self.wf(),
            phase_wf(timephase),
        ensures
            t.axis@ == crate::months::month_seq(timephase),
            t.income@.len() == t.axis@.len(),
            t.outcome@.len() == t.axis@.len(),
            t.summary@.len() == t.axis@.len(),
            forall|i: int|
                0 <= i < t.axis@.len() ==> #[trigger] t.income@[i] as int == scope_sum(
                    *self,
                    userid,
                    (t.axis@[i], t.axis@[i]),
                    accountid,
                    lift_cat(category),
                    Purpose::Income,
                ),
            forall|i: int|
                0 <= i < t.axis@.len() ==> #[trigger] t.outcome@[i] as int == scope_sum(
                    *self,
                    userid,
                    (t.axis@[i], t.axis@[i]),
                    accountid,
                    lift_cat(category),
                    Purpose::Outcome,
                ),
            forall|i: int|
                0 <= i < t.axis@.len() ==> #[trigger] t.summary@[i] as int == scope_sum(
                    *self,
                    userid,
                    (t.axis@[i], t.axis@[i]),
                    accountid,
                    lift_cat(category),
                    Purpose::All,
                ),
            forall|i: int|
                0 <= i < t.axis@.len() ==> -SUM_CAP <= #[trigger] t.income@[i] <= SUM_CAP
                    && -SUM_CAP <= t.outcome@[i] <= SUM_CAP && -(2 * SUM_CAP) <= t.summary@[i] <= 2
                    * SUM_CAP,
    {
        let stat = self.monthstats(userid, timephase);
        let ghost ms = crate::months::month_seq(timephase);
        let ghost catf = lift_cat(category);
        let n = stat.len();
        let mut date: Vec<YearMonth> = Vec::new();
        let mut inc: Vec<Money> = Vec::new();
        let mut out: Vec<Money> = Vec::new();
        let mut sum: Vec<Money> = Vec::new();
        let mut i: usize = 0;
        while i < n
            invariant
                i <= n,
                date@ == ms.take(i as int),
                inc@.len() == i && out@.len() == i && sum@.len() == i,
                forall|t: int|
                    0 <= t < i ==> #[trigger] inc@[t] as int == scope_sum(
                        *self,
                        userid,
                        (ms[t], ms[t]),
                        accountid,
                        catf,
                        Purpose::Income,
                    ),
                forall|t: int|
                    0 <= t < i ==> #[trigger] out@[t] as int == scope_sum(
                        *self,
                        userid,
                        (ms[t], ms[t]),
                        accountid,
                        catf,
                        Purpose::Outcome,
                    ),
                forall|t: int|
                    0 <= t < i ==> #[trigger] sum@[t] as int == scope_sum(
                        *self,
                        userid,
                        (ms[t], ms[t]),
                        accountid,
                        catf,
                        Purpose::All,
                    ),
            decreases n - i,
        {
            let v_inc = Self::filter_value(&stat[i].1, accountid, category, Purpose::Income);
            let v_out = Self::filter_value(&stat[i].1, accountid, category, Purpose::Outcome);
            let v_sum = Self::filter_value(&stat[i].1, accountid, category, Purpose::All);
            proof {
                lemma_filter_bridge(
                    *self,
                    userid,
                    stat@[i as int].0,
                    stat@[i as int].1,
                    accountid,
                    category,
                    Purpose::Income,
                    self.entry@.len() as int,
                );
                lemma_filter_bridge(
                    *self,
                    userid,
                    stat@[i as int].0,
                    stat@[i as int].1,
                    accountid,
                    category,
                    Purpose::Outcome,
                    self.entry@.len() as int,
                );
                lemma_filter_bridge(
                    *self,
                    userid,
                    stat@[i as int].0,
                    stat@[i as int].1,
                    accountid,
                    category,
                    Purpose::All,
                    self.entry@.len() as int,
                );
                assert(ms.take(i as int).push(ms[i as int]) =~= ms.take(i + 1));
            }
            date.push(stat[i].0);
            inc.push(v_inc);
            out.push(v_out);
            sum.push(v_sum);
            i = i + 1;
        }
        proof {
            assert(ms.take(n as int) =~= ms);
            assert forall|t: int| 0 <= t < n implies -SUM_CAP <= #[trigger] inc@[t] <= SUM_CAP
                && -SUM_CAP <= out@[t] <= SUM_CAP && -(2 * SUM_CAP) <= sum@[t] <= 2
                * SUM_CAP by {
                lemma_scope_sum_bound(
                    *self,
                    userid,
                    (ms[t], ms[t]),
                    accountid,
                    catf,
                    Purpose::Income,
                    self.entry@.len() as int,
                );
                lemma_scope_sum_bound(
                    *self,
                    userid,
                    (ms[t], ms[t]),
                    accountid,
                    catf,
                    Purpose::Outcome,
                    self.entry@.len() as int,
                );
                lemma_purpose_split(
                    *self,
                    userid,
                    (ms[t], ms[t]),
                    accountid,
                    catf,
                    self.entry@.len() as int,
                );
            }
        }
        Trend { axis: date, income: inc, outcome: out, summary: sum }
    }
}

/// Strictly ascending identifiers: sorted and free of duplicates.
pub open spec fn sorted_strict(s: Seq<i64>) -> bool {
    forall|i: int, j: int| 0 <= i < j < s.len() ==> s[i] < s[j]
}

/// Insert an identifier into a strictly ascending vector, keeping it
/// strictly ascending; inserting a present identifier changes nothing.
#[verifier::loop_isolation(false)]
fn insert_sorted(v: &mut Vec<i64>, c: i64)
    requires
        sorted_strict(old(v)@),
    ensures
        sorted_strict(final(v)@),
        forall|x: i64| final(v)@.contains(x) <==> (old(v)@.contains(x) || x == c),
        final(v)@.len() <= old(v)@.len() + 1,
{
    let n = v.len();
    let mut i: usize = 0;
    while i < n && v[i] < c
        invariant
            i <= n,
            forall|j: int| 0 <= j < i ==> (#[trigger] v@[j]) < c,
        decreases n - i,
    {
        i = i + 1;
    }
    if i < n && v[i] == c {
        proof {
            assert(v@.contains(c));
            assert forall|x: i64| v@.contains(x) <==> (old(v)@.contains(x) || x == c) by {}
        }
        return ;
    }
    v.insert(i, c);
    proof {
        assert forall|a: int, b: int| 0 <= a < b < v@.len() implies v@[a] < v@[b] by {
            if b < i {
            } else if a < i && b == i {
            } else if a < i && b > i {
                assert(v@[b] == old(v)@[b - 1]);
            } else if a == i {
                assert(v@[b] == old(v)@[b - 1]);
            } else {
                assert(v@[a] == old(v)@[a - 1] && v@[b] == old(v)@[b - 1]);
            }
        }
        assert forall|x: i64| v@.contains(x) <==> (old(v)@.contains(x) || x == c) by {
            if v@.contains(x) {
                let t = choose|t: int| 0 <= t < v@.len() && v@[t] == x;
                if t < i {
                    assert(old(v)@[t] == x);
                } else if t > i {
                    assert(old(v)@[t - 1] == x);
                }
            }
            if old(v)@.contains(x) {
                let t = choose|t: int| 0 <= t < old(v)@.len() && old(v)@[t] == x;
                if t < i {
                    assert(v@[t] == x);
                } else {
                    assert(v@[t + 1] == x);
                }
            }
            if x == c {
                assert(v@[i as int] == c);
            }
        }
    }
}

/// A month-by-month count is positive exactly when some month's count is.
proof fn lemma_months_count_pos(
    l: Ledger,
    uid: UserId,
    ms: Seq<YearMonth>,
    accf: Option<AccountId>,
    catf: Option<Option<CategoryId>>,
)
    ensures
        months_count(l, uid, ms, accf, catf) >= 0,
        months_count(l, uid, ms, accf, catf) > 0 <==> exists|t: int|
            0 <= t < ms.len() && scope_count(l, uid, ((#[trigger] ms[t]), ms[t]), accf, catf) > 0,
    decreases ms.len(),
{
    if ms.len() > 0 {
        lemma_months_count_pos(l, uid, ms.drop_last(), accf, catf);
        let last = ms[ms.len() - 1];
        crate::sums::lemma_wsum_nonneg(
            l.entry@.take(l.entry@.len() as int),
            entry_pred(l, uid, (last, last), accf, catf, Purpose::All),
            crate::sums::one_w::<Entry>(),
        );
        if months_count(l, uid, ms, accf, catf) > 0 {
            if scope_count(l, uid, (last, last), accf, catf) > 0 {
                assert(0 <= ms.len() - 1 < ms.len() && scope_count(
                    l,
                    uid,
                    (ms[ms.len() - 1], ms[ms.len() - 1]),
                    accf,
                    catf,
                ) > 0);
            } else {
                let t = choose|t: int|
                    0 <= t < ms.drop_last().len() && scope_count(
                        l,
                        uid,
                        ((#[trigger] ms.drop_last()[t]), ms.drop_last()[t]),
                        accf,
                        catf,
                    ) > 0;
                assert(ms[t] == ms.drop_last()[t]);
            }
        }
        if exists|t: int|
            0 <= t < ms.len() && scope_count(l, uid, ((#[trigger] ms[t]), ms[t]), accf, catf) > 0 {
            let t = choose|t: int|
                0 <= t < ms.len() && scope_count(l, uid, ((#[trigger] ms[t]), ms[t]), accf, catf)
                    > 0;
            if t < ms.len() - 1 {
                assert(ms.drop_last()[t] == ms[t]);
                assert(months_count(l, uid, ms.drop_last(), accf, catf) > 0);
            }
        }
    }
}

impl Ledger {
    /// Sum the filtered scalars of an already-computed month table across
    /// its whole window, for all three purposes at once.
    #[verifier::loop_isolation(false)]
    fn sum_window(
        &self,
        stat: &Vec<(YearMonth, Monthstats)>,
        accountid: Option<AccountId>,
        category: Option<CategoryId>,
        Ghost(userid): Ghost<UserId>,
        Ghost(ph): Ghost<Phase>,
    ) -> (r: (Money, Money, Money))
        requires
            self.wf(),
            phase_wf(ph),
            stat@.len() == crate::months::month_seq(ph).len(),
            forall|i: int|
                0 <= i < stat@.len() ==> (#[trigger] stat@[i]).0 == crate::months::month_seq(ph)[i],
            forall|i: int|
                0 <= i < stat@.len() ==> month_ok(
                    *self,
                    userid,
                    (#[trigger] stat@[i]).0,
                    stat@[i].1,
                    self.entry@.len() as int,
                ),
        ensures
            r.0 as int == scope_sum(*self, userid, ph, accountid, lift_cat(category), Purpose::Income),
            r.1 as int == scope_sum(
                *self,
                userid,
                ph,
                accountid,
                lift_cat(category),
                Purpose::Outcome,
            ),
            r.2 as int == scope_sum(*self, userid, ph, accountid, lift_cat(category), Purpose::All),
            -SUM_CAP <= r.0 <= SUM_CAP,
            -SUM_CAP <= r.1 <= SUM_CAP,
            -(2 * SUM_CAP) <= r.2 <= 2 * SUM_CAP,
    {
        let ghost ms = crate::months::month_seq(ph);
        let ghost catf = lift_cat(category);
        let n = stat.len();
        proof {
            lemma_phase_len_bound(ph);
        }
        let mut inc: Money = 0;
        let mut out: Money = 0;
        let mut all: Money = 0;
        let mut i: usize = 0;
        while i < n
            invariant
                i <= n,
                inc as int == months_sum(*self, userid, ms.take(i as int), accountid, catf, Purpose::Income),
                out as int == months_sum(
                    *self,
                    userid,
                    ms.take(i as int),
                    accountid,
                    catf,
                    Purpose::Outcome,
                ),
                all as int == months_sum(*self, userid, ms.take(i as int), accountid, catf, Purpose::All),
                -(i as int) * SUM_CAP <= inc as int <= (i as int) * SUM_CAP,
                -(i as int) * SUM_CAP <= out as int <= (i as int) * SUM_CAP,
                -(i as int) * (2 * SUM_CAP) <= all as int <= (i as int) * (2 * SUM_CAP),
            decreases n - i,
        {
            let v_inc = Self::filter_value(&stat[i].1, accountid, category, Purpose::Income);
            let v_out = Self::filter_value(&stat[i].1, accountid, category, Purpose::Outcome);
            let v_all = Self::filter_value(&stat[i].1, accountid, category, Purpose::All);
            proof {
                lemma_filter_bridge(
                    *self,
                    userid,
                    stat@[i as int].0,
                    stat@[i as int].1,
                    accountid,
                    category,
                    Purpose::Income,
                    self.entry@.len() as int,
                );
                lemma_filter_bridge(
                    *self,
                    userid,
                    stat@[i as int].0,
                    stat@[i as int].1,
                    accountid,
                    category,
                    Purpose::Outcome,
                    self.entry@.len() as int,
                );
                lemma_filter_bridge(
                    *self,
                    userid,
                    stat@[i as int].0,
                    stat@[i as int].1,
                    accountid,
                    category,
                    Purpose::All,
                    self.entry@.len() as int,
                );
                lemma_scope_sum_bound(
                    *self,
                    userid,
                    (ms[i as int], ms[i as int]),
                    accountid,
                    catf,
                    Purpose::Income,
                    self.entry@.len() as int,
                );
                lemma_scope_sum_bound(
                    *self,
                    userid,
                    (ms[i as int], ms[i as int]),
                    accountid,
                    catf,
                    Purpose::Outcome,
                    self.entry@.len() as int,
                );
                lemma_purpose_split(
                    *self,
                    userid,
                    (ms[i as int], ms[i as int]),
                    accountid,
                    catf,
                    self.entry@.len() as int,
                );
                lemma_months_take_step(*self, userid, ms, accountid, catf, Purpose::Income, i as int);
                lemma_months_take_step(*self, userid, ms, accountid, catf, Purpose::Outcome, i as int);
                lemma_months_take_step(*self, userid, ms, accountid, catf, Purpose::All, i as int);
            }
            inc = inc + v_inc;
            out = out + v_out;
            all = all + v_all;
            i = i + 1;
        }
        proof {
            assert(ms.take(n as int) =~= ms);
            lemma_months_partition(*self, userid, ph, accountid, catf, Purpose::Income);
            lemma_months_partition(*self, userid, ph, accountid, catf, Purpose::Outcome);
            lemma_months_partition(*self, userid, ph, accountid, catf, Purpose::All);
            lemma_scope_sum_bound(
                *self,
                userid,
                ph,
                accountid,
                catf,
                Purpose::Income,
                self.entry@.len() as int,
            );
            lemma_scope_sum_bound(
                *self,
                userid,
                ph,
                accountid,
                catf,
                Purpose::Outcome,
                self.entry@.len() as int,
            );
            lemma_purpose_split(*self, userid, ph, accountid, catf, self.entry@.len() as int);
        }
        (inc, out, all)
    }
}

/// The axis of a category breakdown: every category (sorted ascending,
/// no duplicates) that any posting of the user carries inside the window,
/// regardless of account.
pub open spec fn cat_axis_ok(l: Ledger, uid: UserId, ph: Phase, axis: Seq<CategoryId>) -> bool {
    &&& sorted_strict(axis)
    &&& forall|c: CategoryId| #[trigger]
        axis.contains(c) <==> scope_count(l, uid, ph, None, Some(Some(c))) > 0
}

/// The axis of an account breakdown: every account (sorted ascending, no
/// duplicates) that any posting of the user uses inside the window,
/// regardless of category.
pub open spec fn acc_axis_ok(l: Ledger, uid: UserId, ph: Phase, axis: Seq<AccountId>) -> bool {
    &&& sorted_strict(axis)
    &&& forall|a: AccountId| #[trigger]
        axis.contains(a) <==> scope_count(l, uid, ph, Some(a), None) > 0
}

/// The value series of a category breakdown: for each axis category, the
/// window totals of the user's postings in that category, under the
/// optional account filter.
pub open spec fn cat_values_ok(
    l: Ledger,
    uid: UserId,
    ph: Phase,
    accountid: Option<AccountId>,
    axis: Seq<CategoryId>,
    inc: Seq<Money>,
    out: Seq<Money>,
    sum: Seq<Money>,
) -> bool {
    &&& inc.len() == axis.len()
    &&& out.len() == axis.len()
    &&& sum.len() == axis.len()
    &&& forall|i: int|
        0 <= i < axis.len() ==> #[trigger] inc[i] as int == scope_sum(
            l,
            uid,
            ph,
            accountid,
            Some(Some(axis[i])),
            Purpose::Income,
        )
    &&& forall|i: int|
        0 <= i < axis.len() ==> #[trigger] out[i] as int == scope_sum(
            l,
            uid,
            ph,
            accountid,
            Some(Some(axis[i])),
            Purpose::Outcome,
        )
    &&& forall|i: int|
        0 <= i < axis.len() ==> #[trigger] sum[i] as int == scope_sum(
            l,
            uid,
            ph,
            accountid,
            Some(Some(axis[i])),
            Purpose::All,
        )
}

/// The value series of an account breakdown: for each axis account, the
/// window totals of the user's postings on that account, under the
/// optional category filter.
pub open spec fn acc_values_ok(
    l: Ledger,
    uid: UserId,
    ph: Phase,
    category: Option<CategoryId>,
    axis: Seq<AccountId>,
    inc: Seq<Money>,
    out: Seq<Money>,
    sum: Seq<Money>,
) -> bool {
    &&& inc.len() == axis.len()
    &&& out.len() == axis.len()
    &&& sum.len() == axis.len()
    &&& forall|i: int|
        0 <= i < axis.len() ==> #[trigger] inc[i] as int == scope_sum(
            l,
            uid,
            ph,
            Some(axis[i]),
            lift_cat(category),
            Purpose::Income,
        )
    &&& forall|i: int|
        0 <= i < axis.len() ==> #[trigger] out[i] as int == scope_sum(
            l,
            uid,
            ph,
            Some(axis[i]),
            lift_cat(category),
            Purpose::Outcome,
        )
    &&& forall|i: int|
        0 <= i < axis.len() ==> #[trigger] sum[i] as int == scope_sum(
            l,
            uid,
            ph,
            Some(axis[i]),
            lift_cat(category),
            Purpose::All,
        )
}

/// Every value series an engine breakdown produces stays within twice the
/// aggregate cap.
pub open spec fn values_bounded(inc: Seq<Money>, out: Seq<Money>, sum: Seq<Money>) -> bool {
    &&& forall|i: int| 0 <= i < inc.len() ==> -SUM_CAP <= #[trigger] inc[i] <= SUM_CAP
    &&& forall|i: int| 0 <= i < out.len() ==> -SUM_CAP <= #[trigger] out[i] <= SUM_CAP
    &&& forall|i: int| 0 <= i < sum.len() ==> -(2 * SUM_CAP) <= #[trigger] sum[i] <= 2 * SUM_CAP
}

impl Ledger {
    /// Collapse the window into one data point per category seen in it
    /// (ascending by id): the category's windowed income, outcome and net,
    /// optionally filtered by account. Categories are collected from all
    /// of the user's postings in the window; the account filter applies to
    /// the values only, as in a breakdown table whose rows never vanish
    /// when a filter empties them.
    #[verifier::loop_isolation(false)]
    pub fn category_pietrend(
        &self,
        userid: UserId,
        timephase: Phase,
        accountid: Option<AccountId>,
    ) -> (t: Trend<CategoryId>)
        requires
            self.wf(),
            phase_wf(timephase),
        ensures
            cat_axis_ok(*self, userid, timephase, t.axis@),
            cat_values_ok(
                *self,
                userid,
                timephase,
                accountid,
                t.axis@,
                t.income@,
                t.outcome@,
                t.summary@,
            ),
            values_bounded(t.income@, t.outcome@, t.summary@),
    {
        let stat = self.monthstats(userid, timephase);
        let ghost ms = crate::months::month_seq(timephase);
        let n = stat.len();
        let mut cats: Vec<CategoryId> = Vec::new();
        let mut mi: usize = 0;
        while mi < n
            invariant
                mi <= n,
                sorted_strict(cats@),
                forall|c: CategoryId| #[trigger]
                    cats@.contains(c) <==> exists|t: int|
                        0 <= t < mi && scope_count(
                            *self,
                            userid,
                            ((#[trigger] ms[t]), ms[t]),
                            None,
                            Some(Some(c)),
                        ) > 0,
            decreases n - mi,
        {
            let list = &stat[mi].1.category;
            let kn = list.len();
            let mut ki: usize = 0;
            while ki < kn
                invariant
                    ki <= kn,
                    kn == list@.len(),
                    sorted_strict(cats@),
                    forall|c: CategoryId| #[trigger]
                        cats@.contains(c) <==> (exists|t: int|
                            0 <= t < mi && scope_count(
                                *self,
                                userid,
                                ((#[trigger] ms[t]), ms[t]),
                                None,
                                Some(Some(c)),
                            ) > 0) || (exists|k: int|
                            0 <= k < ki && (#[trigger] list@[k]).0 == Some(c)),
                decreases kn - ki,
            {
                if let Some(c) = list[ki].0 {
                    insert_sorted(&mut cats, c);
                    proof {
                        assert(list@[ki as int].0 == Some(c));
                    }
                }
                ki = ki + 1;
            }
            proof {
                let mstats = stat@[mi as int].1;
                assert forall|c: CategoryId| #[trigger] cats@.contains(c) <==> (exists|t: int|
                    0 <= t < mi + 1 && scope_count(
                        *self,
                        userid,
                        ((#[trigger] ms[t]), ms[t]),
                        None,
                        Some(Some(c)),
                    ) > 0) by {
                    crate::stats::lemma_alist_find_is_some(mstats.category@, Some(c));
                    lemma_scope_sum_bound(
                        *self,
                        userid,
                        (ms[mi as int], ms[mi as int]),
                        None,
                        Some(Some(c)),
                        Purpose::All,
                        self.entry@.len() as int,
                    );
                    if cats@.contains(c) {
                        if exists|k: int| 0 <= k < kn && (#[trigger] mstats.category@[k]).0 == Some(
                            c,
                        ) {
                            assert(alist_find(mstats.category@, Some(c)) is Some);
                            assert(scope_count(
                                *self,
                                userid,
                                (ms[mi as int], ms[mi as int]),
                                None,
                                Some(Some(c)),
                            ) > 0);
                        }
                    } else {
                        assert(alist_find(mstats.category@, Some(c)) is None);
                    }
                }
            }
            mi = mi + 1;
        }
        // the collected categories are exactly those with postings in the
        // whole window
        proof {
            assert forall|c: CategoryId| #[trigger] cats@.contains(c) <==> scope_count(
                *self,
                userid,
                timephase,
                None,
                Some(Some(c)),
            ) > 0 by {
                lemma_months_count_pos(*self, userid, ms, None, Some(Some(c)));
                lemma_months_partition(*self, userid, timephase, None, Some(Some(c)), Purpose::All);
            }
        }
        let cn = cats.len();
        let mut inc: Vec<Money> = Vec::new();
        let mut out: Vec<Money> = Vec::new();
        let mut sum: Vec<Money> = Vec::new();
        let mut ci: usize = 0;
        while ci < cn
            invariant
                ci <= cn,
                cn == cats@.len(),
                inc@.len() == ci && out@.len() == ci && sum@.len() == ci,
                cat_values_ok(
                    *self,
                    userid,
                    timephase,
                    accountid,
                    cats@.take(ci as int),
                    inc@,
                    out@,
                    sum@,
                ),
                values_bounded(inc@, out@, sum@),
            decreases cn - ci,
        {
            let c = cats[ci];
            let (v_inc, v_out, v_all) = self.sum_window(
                &stat,
                accountid,
                Some(c),
                Ghost(userid),
                Ghost(timephase),
            );
            inc.push(v_inc);
            out.push(v_out);
            sum.push(v_all);
            proof {
                assert(cats@.take(ci + 1).drop_last() =~= cats@.take(ci as int));
                assert(cats@.take(ci + 1)[ci as int] == c);
            }
            ci = ci + 1;
        }
        proof {
            assert(cats@.take(cn as int) =~= cats@);
        }
        Trend { axis: cats, income: inc, outcome: out, summary: sum }
    }

    /// Collapse the window into one data point per account seen in it
    /// (ascending by id): the account's windowed income, outcome and net,
    /// optionally filtered by category. Accounts are collected from all of
    /// the user's postings in the window; the category filter applies to
    /// the values only.
    #[verifier::loop_isolation(false)]
    pub fn account_pietrend(
        &self,
        userid: UserId,
        timephase: Phase,
        category: Option<CategoryId>,
    ) -> (t: Trend<AccountId>)
        requires
            self.wf(),
            phase_wf(timephase),
        ensures
            acc_axis_ok(*self, userid, timephase, t.axis@),
            acc_values_ok(
                *self,
                userid,
                timephase,
                category,
                t.axis@,
                t.income@,
                t.outcome@,
                t.summary@,
            ),
            values_bounded(t.income@, t.outcome@, t.summary@),
    {
        let stat = self.monthstats(userid, timephase);
        let ghost ms = crate::months::month_seq(timephase);
        let n = stat.len();
        let mut accs: Vec<AccountId> = Vec::new();
        let mut mi: usize = 0;
        while mi < n
            invariant
                mi <= n,
                sorted_strict(accs@),
                forall|a: AccountId| #[trigger]
                    accs@.contains(a) <==> exists|t: int|
                        0 <= t < mi && scope_count(
                            *self,
                            userid,
                            ((#[trigger] ms[t]), ms[t]),
                            Some(a),
                            None,
                        ) > 0,
            decreases n - mi,
        {
            let list = &stat[mi].1.account;
            let kn = list.len();
            let mut ki: usize = 0;
            while ki < kn
                invariant
                    ki <= kn,
                    kn == list@.len(),
                    sorted_strict(accs@),
                    forall|a: AccountId| #[trigger]
                        accs@.contains(a) <==> (exists|t: int|
                            0 <= t < mi && scope_count(
                                *self,
                                userid,
                                ((#[trigger] ms[t]), ms[t]),
                                Some(a),
                                None,
                            ) > 0) || (exists|k: int|
                            0 <= k < ki && (#[trigger] list@[k]).0 == a),
                decreases kn - ki,
            {
                let a = list[ki].0;
                insert_sorted(&mut accs, a);
                proof {
                    assert(list@[ki as int].0 == a);
                }
                ki = ki + 1;
            }
            proof {
                let mstats = stat@[mi as int].1;
                assert forall|a: AccountId| #[trigger] accs@.contains(a) <==> (exists|t: int|
                    0 <= t < mi + 1 && scope_count(
                        *self,
                        userid,
                        ((#[trigger] ms[t]), ms[t]),
                        Some(a),
                        None,
                    ) > 0) by {
                    crate::stats::lemma_alist_find_is_some(mstats.account@, a);
                    lemma_scope_sum_bound(
                        *self,
                        userid,
                        (ms[mi as int], ms[mi as int]),
                        Some(a),
                        None,
                        Purpose::All,
                        self.entry@.len() as int,
                    );
                    if accs@.contains(a) {
                        if exists|k: int| 0 <= k < kn && (#[trigger] mstats.account@[k]).0 == a {
                            assert(alist_find(mstats.account@, a) is Some);
                            assert(scope_count(
                                *self,
                                userid,
                                (ms[mi as int], ms[mi as int]),
                                Some(a),
                                None,
                            ) > 0);
                        }
                    } else {
                        assert(alist_find(mstats.account@, a) is None);
                    }
                }
            }
            mi = mi + 1;
        }
        proof {
            assert forall|a: AccountId| #[trigger] accs@.contains(a) <==> scope_count(
                *self,
                userid,
                timephase,
                Some(a),
                None,
            ) > 0 by {
                lemma_months_count_pos(*self, userid, ms, Some(a), None);
                lemma_months_partition(*self, userid, timephase, Some(a), None, Purpose::All);
            }
        }
        let an = accs.len();
        let mut inc: Vec<Money> = Vec::new();
        let mut out: Vec<Money> = Vec::new();
        let mut sum: Vec<Money> = Vec::new();
        let mut ai: usize = 0;
        while ai < an
            invariant
                ai <= an,
                an == accs@.len(),
                inc@.len() == ai && out@.len() == ai && sum@.len() == ai,
                acc_values_ok(
                    *self,
                    userid,
                    timephase,
                    category,
                    accs@.take(ai as int),
                    inc@,
                    out@,
                    sum@,
                ),
                values_bounded(inc@, out@, sum@),
            decreases an - ai,
        {
            let a = accs[ai];
            let (v_inc, v_out, v_all) = self.sum_window(
                &stat,
                Some(a),
                category,
                Ghost(userid),
                Ghost(timephase),
            );
            inc.push(v_inc);
            out.push(v_out);
            sum.push(v_all);
            proof {
                assert(accs@.take(ai + 1).drop_last() =~= accs@.take(ai as int));
                assert(accs@.take(ai + 1)[ai as int] == a);
            }
            ai = ai + 1;
        }
        proof {
            assert(accs@.take(an as int) =~= accs@);
        }
        Trend { axis: accs, income: inc, outcome: out, summary: sum }
    }
}

impl Ledger {
    /// The top `top_k` categories of the window, best first. `onlyspend`
    /// picks the ranking key: `true` ranks by outcome magnitude, `false`
    /// by income, absent by net; ties go to the smaller category id (the
    /// earlier row of the ascending breakdown). With `top_k` zero or an
    /// empty breakdown the whole breakdown is returned unchanged. For a
    /// positive `top_k` the result holds exactly
    /// `min(top_k, distinct categories in the window)` rows.
    pub fn top_category(
        &self,
        userid: UserId,
        timephase: Phase,
        accountid: Option<AccountId>,
        top_k: usize,
        onlyspend: Option<bool>,
    ) -> (t: Trend<CategoryId>)
        requires
            self.wf(),
            phase_wf(timephase),
        ensures
            exists|pie: Trend<CategoryId>|
                {
                    &&& cat_axis_ok(*self, userid, timephase, pie.axis@)
                    &&& cat_values_ok(
                        *self,
                        userid,
                        timephase,
                        accountid,
                        pie.axis@,
                        pie.income@,
                        pie.outcome@,
                        pie.summary@,
                    )
                    &&& values_bounded(pie.income@, pie.outcome@, pie.summary@)
                    &&& (pie.axis@.len() == 0 || top_k == 0) ==> t == pie
                    &&& (pie.axis@.len() > 0 && top_k > 0) ==> exists|ord: Seq<int>|
                        crate::trend::ranked_selection(
                            Purpose::trans_spec(onlyspend),
                            pie.income@,
                            pie.outcome@,
                            pie.summary@,
                            top_k as int,
                            ord,
                        ) && crate::trend::trend_rows_at(pie, t, ord)
                    &&& top_k > 0 ==> t.axis@.len() == (if top_k < pie.axis@.len() {
                        top_k as int
                    } else {
                        pie.axis@.len() as int
                    })
                },
    {
        let temp = self.category_pietrend(userid, timephase, accountid);
        let purpose = Purpose::trans(onlyspend);
        let ghost gpie = temp;
        proof {
            assert(forall|i: int|
                0 <= i < temp.outcome@.len() ==> #[trigger] temp.outcome@[i] > i128::MIN);
        }
        let t = crate::trend::rank_trend(temp, purpose, top_k);
        proof {
            assert(cat_axis_ok(*self, userid, timephase, gpie.axis@));
        }
        t
    }

    /// The top `top_k` accounts of the window, best first, ranked like
    /// `top_category`; ties go to the smaller account id. With `top_k`
    /// zero or an empty breakdown the whole breakdown is returned
    /// unchanged.
    pub fn top_account(
        &self,
        userid: UserId,
        timephase: Phase,
        category: Option<CategoryId>,
        top_k: usize,
        onlyspend: Option<bool>,
    ) -> (t: Trend<AccountId>)
        requires
            self.wf(),
            phase_wf(timephase),
        ensures
            exists|pie: Trend<AccountId>|
                {
                    &&& acc_axis_ok(*self, userid, timephase, pie.axis@)
                    &&& acc_values_ok(
                        *self,
                        userid,
                        timephase,
                        category,
                        pie.axis@,
                        pie.income@,
                        pie.outcome@,
                        pie.summary@,
                    )
                    &&& values_bounded(pie.income@, pie.outcome@, pie.summary@)
                    &&& (pie.axis@.len() == 0 || top_k == 0) ==> t == pie
                    &&& (pie.axis@.len() > 0 && top_k > 0) ==> exists|ord: Seq<int>|
                        crate::trend::ranked_selection(
                            Purpose::trans_spec(onlyspend),
                            pie.income@,
                            pie.outcome@,
                            pie.summary@,
                            top_k as int,
                            ord,
                        ) && crate::trend::trend_rows_at(pie, t, ord)
                    &&& top_k > 0 ==> t.axis@.len() == (if top_k < pie.axis@.len() {
                        top_k as int
                    } else {
                        pie.axis@.len() as int
                    })
                },
    {
        let temp = self.account_pietrend(userid, timephase, category);
        let purpose = Purpose::trans(onlyspend);
        let ghost gpie = temp;
        proof {
            assert(forall|i: int|
                0 <= i < temp.outcome@.len() ==> #[trigger] temp.outcome@[i] > i128::MIN);
        }
        let t = crate::trend::rank_trend(temp, purpose, top_k);
        proof {
            assert(acc_axis_ok(*self, userid, timephase, gpie.axis@));
        }
        t
    }
}

/// Conservation of money over any window and filters: the net summary is
/// the income summary plus the outcome summary, because every selected
/// posting is counted on exactly one side of the sign split.
pub proof fn lemma_summary_conservation(
    l: Ledger,
    uid: UserId,
    ph: Phase,
    accf: Option<AccountId>,
    catf: Option<Option<CategoryId>>,
)
    ensures
        scope_sum(l, uid, ph, accf, catf, Purpose::All) == scope_sum(
            l,
            uid,
            ph,
            accf,
            catf,
            Purpose::Income,
        ) + scope_sum(l, uid, ph, accf, catf, Purpose::Outcome),
{
    lemma_purpose_split(l, uid, ph, accf, catf, l.entry@.len() as int);
}

} // verus!

