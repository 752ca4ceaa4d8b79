//! The ledger store and the aggregation engine over it.
//!
//! The store owns five flat collections (users, accounts, categories,
//! transactions, entries) and never mutates them; every query reads and
//! reduces them. The central operation is `monthstats`: one pass over all
//! entries of a user inside a month window, building a per-month breakdown
//! keyed simultaneously by category, by account and by their pair. Every
//! other query is computed from its output.
//!
//! An entry contributes to a month when its transaction resolves (the
//! first transaction carrying its id, which must belong to the same user)
//! and that transaction's month falls inside the window; entries whose
//! transaction cannot be resolved this way are silently excluded as
//! orphans. A non-negative amount counts as income, a negative one as
//! outcome; net is their sum.

use vstd::prelude::*;

use crate::datatype::{
    Account, AccountId, AccountType, Category, CategoryId, Currency, Entry, Money, Transaction,
    TransactionId, User, UserId, AMOUNT_LIMIT, SUM_CAP,
};
use crate::months::{
    in_phase, lemma_num_le, month_num, phase_wf, valid_ym, ym_le, Phase, YearMonth,
};
use crate::stats::{
    alist_find, alist_keys_unique, detail_bounded, Detailstats, Monthstats, Purpose,
};
use crate::sums::{count, wsum};

verus! {

/// The ledger store: pure data, no behaviour beyond lookups.
#[derive(Debug)]
pub struct Ledger {
    pub user: Vec<User>,
    pub account: Vec<Account>,
    pub category: Vec<Category>,
    pub transaction: Vec<Transaction>,
    pub entry: Vec<Entry>,
}

impl Default for Ledger {
    fn default() -> (r: Self)
        ensures
            r.user@.len() == 0,
            r.account@.len() == 0,
            r.category@.len() == 0,
            r.transaction@.len() == 0,
            r.entry@.len() == 0,
    {
        Ledger {
            user: Vec::new(),
            account: Vec::new(),
            category: Vec::new(),
            transaction: Vec::new(),
            entry: Vec::new(),
        }
    }
}

/// The first transaction in the list carrying the given id, if any.
pub open spec fn tx_first(ts: Seq<Transaction>, tid: TransactionId) -> Option<Transaction>
    decreases ts.len(),
{
    if ts.len() == 0 {
        None
    } else if ts[0].id == tid {
        Some(ts[0])
    } else {
        tx_first(ts.drop_first(), tid)
    }
}

/// The `(year, month)` of the transaction an id resolves to, if any.
pub open spec fn tx_ym(ts: Seq<Transaction>, tid: TransactionId) -> Option<YearMonth> {
    match tx_first(ts, tid) {
        Some(t) => Some((t.occur_date.year, t.occur_date.month)),
        None => None,
    }
}

pub(crate) proof fn lemma_tx_first_at(ts: Seq<Transaction>, i: int)
    requires
        0 <= i < ts.len(),
        forall|j: int| 0 <= j < i ==> (#[trigger] ts[j]).id != ts[i].id,
    ensures
        tx_first(ts, ts[i].id) == Some(ts[i]),
    decreases i,
{
    if i > 0 {
        lemma_tx_first_at(ts.drop_first(), i - 1);
    }
}

pub(crate) proof fn lemma_tx_first_none(ts: Seq<Transaction>, tid: TransactionId)
    requires
        forall|j: int| 0 <= j < ts.len() ==> (#[trigger] ts[j]).id != tid,
    ensures
        tx_first(ts, tid) == None::<Transaction>,
    decreases ts.len(),
{
    if ts.len() > 0 {
        lemma_tx_first_none(ts.drop_first(), tid);
    }
}

/// What a resolved transaction is: an element of the list.
pub proof fn lemma_tx_first_elem(ts: Seq<Transaction>, tid: TransactionId)
    requires
        tx_first(ts, tid) is Some,
    ensures
        exists|i: int|
            0 <= i < ts.len() && ts[i] == tx_first(ts, tid).unwrap() && ts[i].id == tid,
    decreases ts.len(),
{
    if ts.len() > 0 {
        if ts[0].id == tid {
            assert(ts[0] == tx_first(ts, tid).unwrap());
        } else {
            lemma_tx_first_elem(ts.drop_first(), tid);
            let i = choose|i: int|
                0 <= i < ts.drop_first().len() && ts.drop_first()[i] == tx_first(
                    ts.drop_first(),
                    tid,
                ).unwrap() && ts.drop_first()[i].id == tid;
            assert(ts[i + 1] == tx_first(ts, tid).unwrap() && ts[i + 1].id == tid);
        }
    }
}

/// Find the user and month of the first transaction with the given id.
#[verifier::loop_isolation(false)]
pub(crate) fn tx_user_month(ts: &Vec<Transaction>, tid: TransactionId) -> (r: Option<(
    UserId,
    YearMonth,
)>)
    ensures
        r == match tx_first(ts@, tid) {
            Some(t) => Some((t.userid, (t.occur_date.year, t.occur_date.month))),
            None => None::<(UserId, YearMonth)>,
        },
{
    let n = ts.len();
    let mut i: usize = 0;
    while i < n
        invariant
            i <= n,
            forall|j: int| 0 <= j < i ==> (#[trigger] ts@[j]).id != tid,
        decreases n - i,
    {
        if ts[i].id == tid {
            proof {
                lemma_tx_first_at(ts@, i as int);
            }
            return Some((ts[i].userid, (ts[i].occur_date.year, ts[i].occur_date.month)));
        }
        i = i + 1;
    }
    proof {
        lemma_tx_first_none(ts@, tid);
    }
    None
}

impl Ledger {
    /// A well-formed store: transaction ids are unique, transaction dates
    /// are real calendar dates in a sane year range, and every posting and
    /// opening balance stays within the per-posting magnitude cap.
    pub open spec fn wf(self) -> bool {
        &&& forall|i: int, j: int|
            0 <= i < j < self.transaction@.len() ==> (#[trigger] self.transaction@[i]).id != (
            #[trigger] self.transaction@[j]).id
        &&& forall|i: int|
            0 <= i < self.transaction@.len() ==> (#[trigger] self.transaction@[i]).occur_date.wf()
        &&& forall|i: int|
            0 <= i < self.entry@.len() ==> -AMOUNT_LIMIT <= (#[trigger] self.entry@[i]).amount
                <= AMOUNT_LIMIT
        &&& forall|i: int|
            0 <= i < self.account@.len() ==> -AMOUNT_LIMIT <= (#[trigger] self.account@[i]).balance
                <= AMOUNT_LIMIT
    }
}

/// The entry belongs to the user, resolves to a transaction of that same
/// user, and that transaction's month falls in the window. An entry whose
/// transaction is missing or belongs to another user is an orphan and is
/// never selected.
pub open spec fn entry_sel(l: Ledger, uid: UserId, ph: Phase, e: Entry) -> bool {
    &&& e.userid == uid
    &&& match tx_first(l.transaction@, e.tranid) {
        Some(t) => t.userid == uid && in_phase(ph, (t.occur_date.year, t.occur_date.month)),
        None => false,
    }
}

/// The entry passes an optional account filter.
pub open spec fn acc_match(accf: Option<AccountId>, e: Entry) -> bool {
    match accf {
        Some(a) => e.accountid == a,
        None => true,
    }
}

/// The entry passes an optional category-key filter. The key itself is an
/// `Option`: `Some(None)` selects exactly the uncategorized entries.
pub open spec fn cat_match(catf: Option<Option<CategoryId>>, e: Entry) -> bool {
    match catf {
        Some(k) => e.categoryid == k,
        None => true,
    }
}

/// The filter that one scope of one query denotes: user and window, the
/// optional account and category-key filters, and the purpose's sign.
pub open spec fn entry_pred(
    l: Ledger,
    uid: UserId,
    ph: Phase,
    accf: Option<AccountId>,
    catf: Option<Option<CategoryId>>,
    p: Purpose,
) -> spec_fn(Entry) -> bool {
    |e: Entry|
        entry_sel(l, uid, ph, e) && acc_match(accf, e) && cat_match(catf, e) && p.sign_sel(
            e.amount as int,
        )
}

/// The amount an entry contributes.
pub open spec fn w_amount() -> spec_fn(Entry) -> int {
    |e: Entry| e.amount as int
}

/// The engine's central quantity: the sum of the amounts of the first
/// `upto` entries that one scope of one query selects.
pub open spec fn scope_sum_upto(
    l: Ledger,
    uid: UserId,
    ph: Phase,
    accf: Option<AccountId>,
    catf: Option<Option<CategoryId>>,
    p: Purpose,
    upto: int,
) -> int {
    wsum(l.entry@.take(upto), entry_pred(l, uid, ph, accf, catf, p), w_amount())
}

/// How many of the first `upto` entries the scope selects (ignoring sign).
pub open spec fn scope_count_upto(
    l: Ledger,
    uid: UserId,
    ph: Phase,
    accf: Option<AccountId>,
    catf: Option<Option<CategoryId>>,
    upto: int,
) -> int {
    count(l.entry@.take(upto), entry_pred(l, uid, ph, accf, catf, Purpose::All))
}

/// The sum of the amounts of all entries the scope selects.
pub open spec fn scope_sum(
    l: Ledger,
    uid: UserId,
    ph: Phase,
    accf: Option<AccountId>,
    catf: Option<Option<CategoryId>>,
    p: Purpose,
) -> int {
    scope_sum_upto(l, uid, ph, accf, catf, p, l.entry@.len() as int)
}

/// How many entries the scope selects.
pub open spec fn scope_count(
    l: Ledger,
    uid: UserId,
    ph: Phase,
    accf: Option<AccountId>,
    catf: Option<Option<CategoryId>>,
) -> int {
    scope_count_upto(l, uid, ph, accf, catf, l.entry@.len() as int)
}

/// The income, outcome and summary of one scope over a prefix of entries.
pub open spec fn detail_sums(
    l: Ledger,
    uid: UserId,
    ph: Phase,
    accf: Option<AccountId>,
    catf: Option<Option<CategoryId>>,
    upto: int,
) -> Detailstats {
    let inc = scope_sum_upto(l, uid, ph, accf, catf, Purpose::Income, upto);
    let out = scope_sum_upto(l, uid, ph, accf, catf, Purpose::Outcome, upto);
    Detailstats { income: inc as i128, outcome: out as i128, summary: (inc + out) as i128 }
}

/// What an association list must hold for one scope: the scope's sums when
/// any entry was selected, nothing when none was.
pub open spec fn detail_of(
    l: Ledger,
    uid: UserId,
    ph: Phase,
    accf: Option<AccountId>,
    catf: Option<Option<CategoryId>>,
    upto: int,
) -> Option<Detailstats> {
    if scope_count_upto(l, uid, ph, accf, catf, upto) > 0 {
        Some(detail_sums(l, uid, ph, accf, catf, upto))
    } else {
        None
    }
}

/// For a one-month window, membership means being exactly that month.
pub proof fn lemma_single_month(m: YearMonth, ym: YearMonth)
    requires
        valid_ym(m),
        1 <= ym.1 <= 12,
    ensures
        in_phase((m, m), ym) <==> ym == m,
{
    lemma_num_le(m, ym);
    lemma_num_le(ym, m);
}

/// Any scope sum over a prefix of a well-formed ledger's entries stays
/// within `SUM_CAP`, and scope counts are non-negative.
pub proof fn lemma_scope_sum_bound(
    l: Ledger,
    uid: UserId,
    ph: Phase,
    accf: Option<AccountId>,
    catf: Option<Option<CategoryId>>,
    p: Purpose,
    upto: int,
)
    requires
        l.wf(),
        0 <= upto <= l.entry@.len(),
    ensures
        -SUM_CAP <= scope_sum_upto(l, uid, ph, accf, catf, p, upto) <= SUM_CAP,
        0 <= scope_count_upto(l, uid, ph, accf, catf, upto) <= upto,
{
    let es = l.entry@.take(upto);
    assert(l.entry.len() == l.entry@.len());
    assert(l.entry@.len() <= usize::MAX);
    assert(forall|i: int| 0 <= i < es.len() ==> es[i] == l.entry@[i]);
    let w = w_amount();
    assert(forall|i: int|
        0 <= i < es.len() ==> -AMOUNT_LIMIT <= #[trigger] w(es[i]) <= AMOUNT_LIMIT);
    crate::sums::lemma_wsum_bound(
        es,
        entry_pred(l, uid, ph, accf, catf, p),
        w,
        AMOUNT_LIMIT as int,
    );
    vstd::arithmetic::mul::lemma_mul_inequality(upto, usize::MAX as int, AMOUNT_LIMIT as int);
    assert(usize::MAX as int * (AMOUNT_LIMIT as int) <= SUM_CAP);
    let cw = crate::sums::one_w::<Entry>();
    crate::sums::lemma_wsum_bound(es, entry_pred(l, uid, ph, accf, catf, Purpose::All), cw, 1);
    crate::sums::lemma_wsum_nonneg(es, entry_pred(l, uid, ph, accf, catf, Purpose::All), cw);
    assert(scope_count_upto(l, uid, ph, accf, catf, upto) == wsum(
        es,
        entry_pred(l, uid, ph, accf, catf, Purpose::All),
        cw,
    )) by {
        crate::sums::lemma_wsum_congruence(
            es,
            entry_pred(l, uid, ph, accf, catf, Purpose::All),
            crate::sums::one_w::<Entry>(),
            entry_pred(l, uid, ph, accf, catf, Purpose::All),
            cw,
        );
    }
}

/// When the `j`-th entry is not in the scope, extending the summed prefix
/// past it changes nothing.
proof fn lemma_scope_step_unsel(
    l: Ledger,
    uid: UserId,
    ph: Phase,
    accf: Option<AccountId>,
    catf: Option<Option<CategoryId>>,
    j: int,
)
    requires
        0 <= j < l.entry@.len(),
        !(entry_pred(l, uid, ph, accf, catf, Purpose::All)(l.entry@[j])),
    ensures
        scope_sum_upto(l, uid, ph, accf, catf, Purpose::Income, j + 1) == scope_sum_upto(
            l,
            uid,
            ph,
            accf,
            catf,
            Purpose::Income,
            j,
        ),
        scope_sum_upto(l, uid, ph, accf, catf, Purpose::Outcome, j + 1) == scope_sum_upto(
            l,
            uid,
            ph,
            accf,
            catf,
            Purpose::Outcome,
            j,
        ),
        scope_sum_upto(l, uid, ph, accf, catf, Purpose::All, j + 1) == scope_sum_upto(
            l,
            uid,
            ph,
            accf,
            catf,
            Purpose::All,
            j,
        ),
        scope_count_upto(l, uid, ph, accf, catf, j + 1) == scope_count_upto(
            l,
            uid,
            ph,
            accf,
            catf,
            j,
        ),
        detail_of(l, uid, ph, accf, catf, j + 1) == detail_of(l, uid, ph, accf, catf, j),
{
    let w = w_amount();
    crate::sums::lemma_wsum_take_step(
        l.entry@,
        entry_pred(l, uid, ph, accf, catf, Purpose::Income),
        w,
        j,
    );
    crate::sums::lemma_wsum_take_step(
        l.entry@,
        entry_pred(l, uid, ph, accf, catf, Purpose::Outcome),
        w,
        j,
    );
    crate::sums::lemma_wsum_take_step(
        l.entry@,
        entry_pred(l, uid, ph, accf, catf, Purpose::All),
        w,
        j,
    );
    crate::sums::lemma_wsum_take_step(
        l.entry@,
        entry_pred(l, uid, ph, accf, catf, Purpose::All),
        crate::sums::one_w::<Entry>(),
        j,
    );
}

/// When the `j`-th entry is in the scope, extending the summed prefix past
/// it adds the entry's contribution to the matching signs and bumps the
/// count.
proof fn lemma_scope_step_sel(
    l: Ledger,
    uid: UserId,
    ph: Phase,
    accf: Option<AccountId>,
    catf: Option<Option<CategoryId>>,
    j: int,
)
    requires
        0 <= j < l.entry@.len(),
        entry_pred(l, uid, ph, accf, catf, Purpose::All)(l.entry@[j]),
    ensures
        scope_sum_upto(l, uid, ph, accf, catf, Purpose::Income, j + 1) == scope_sum_upto(
            l,
            uid,
            ph,
            accf,
            catf,
            Purpose::Income,
            j,
        ) + if l.entry@[j].amount >= 0 {
            l.entry@[j].amount as int
        } else {
            0
        },
        scope_sum_upto(l, uid, ph, accf, catf, Purpose::Outcome, j + 1) == scope_sum_upto(
            l,
            uid,
            ph,
            accf,
            catf,
            Purpose::Outcome,
            j,
        ) + if l.entry@[j].amount < 0 {
            l.entry@[j].amount as int
        } else {
            0
        },
        scope_count_upto(l, uid, ph, accf, catf, j + 1) == scope_count_upto(
            l,
            uid,
            ph,
            accf,
            catf,
            j,
        ) + 1,
{
    let w = w_amount();
    crate::sums::lemma_wsum_take_step(
        l.entry@,
        entry_pred(l, uid, ph, accf, catf, Purpose::Income),
        w,
        j,
    );
    crate::sums::lemma_wsum_take_step(
        l.entry@,
        entry_pred(l, uid, ph, accf, catf, Purpose::Outcome),
        w,
        j,
    );
    crate::sums::lemma_wsum_take_step(
        l.entry@,
        entry_pred(l, uid, ph, accf, catf, Purpose::All),
        crate::sums::one_w::<Entry>(),
        j,
    );
}

/// When none of the first `upto` entries is in the scope, its sums vanish.
pub(crate) proof fn lemma_scope_zero(
    l: Ledger,
    uid: UserId,
    ph: Phase,
    accf: Option<AccountId>,
    catf: Option<Option<CategoryId>>,
    upto: int,
)
    requires
        scope_count_upto(l, uid, ph, accf, catf, upto) == 0,
    ensures
        scope_sum_upto(l, uid, ph, accf, catf, Purpose::Income, upto) == 0,
        scope_sum_upto(l, uid, ph, accf, catf, Purpose::Outcome, upto) == 0,
        scope_sum_upto(l, uid, ph, accf, catf, Purpose::All, upto) == 0,
{
    let es = l.entry@.take(upto);
    let coarse = entry_pred(l, uid, ph, accf, catf, Purpose::All);
    crate::sums::lemma_wsum_subfilter_zero(
        es,
        coarse,
        entry_pred(l, uid, ph, accf, catf, Purpose::Income),
        w_amount(),
    );
    crate::sums::lemma_wsum_subfilter_zero(
        es,
        coarse,
        entry_pred(l, uid, ph, accf, catf, Purpose::Outcome),
        w_amount(),
    );
    crate::sums::lemma_wsum_subfilter_zero(es, coarse, coarse, w_amount());
}

/// When the `j`-th entry is in the scope, the scope's stored record steps
/// to `detail_after` of what it was (the zero record when absent).
proof fn lemma_detail_step(
    l: Ledger,
    uid: UserId,
    ph: Phase,
    accf: Option<AccountId>,
    catf: Option<Option<CategoryId>>,
    j: int,
)
    requires
        l.wf(),
        0 <= j < l.entry@.len(),
        entry_pred(l, uid, ph, accf, catf, Purpose::All)(l.entry@[j]),
    ensures
        detail_of(l, uid, ph, accf, catf, j + 1) == Some(
            crate::stats::detail_after(
                match detail_of(l, uid, ph, accf, catf, j) {
                    Some(d) => d,
                    None => crate::stats::detail_zero(),
                },
                l.entry@[j].amount,
            ),
        ),
{
    let a = l.entry@[j].amount;
    lemma_scope_step_sel(l, uid, ph, accf, catf, j);
    lemma_scope_sum_bound(l, uid, ph, accf, catf, Purpose::Income, j);
    lemma_scope_sum_bound(l, uid, ph, accf, catf, Purpose::Outcome, j);
    lemma_scope_sum_bound(l, uid, ph, accf, catf, Purpose::Income, j + 1);
    lemma_scope_sum_bound(l, uid, ph, accf, catf, Purpose::Outcome, j + 1);
    if detail_of(l, uid, ph, accf, catf, j) is None {
        lemma_scope_zero(l, uid, ph, accf, catf, j);
    }
}

/// The month record `s` is exactly the aggregation of the first `upto`
/// entries for the single month `m`: correct global scalars, and each of
/// the three association lists holds a key exactly when some selected
/// entry produced it, bound to that scope's sums.
pub open spec fn month_ok(l: Ledger, uid: UserId, m: YearMonth, s: Monthstats, upto: int) -> bool {
    let ph = (m, m);
    &&& s.income as int == scope_sum_upto(l, uid, ph, None, None, Purpose::Income, upto)
    &&& s.outcome as int == scope_sum_upto(l, uid, ph, None, None, Purpose::Outcome, upto)
    &&& s.summary as int == s.income as int + s.outcome as int
    &&& alist_keys_unique(s.category@)
    &&& alist_keys_unique(s.account@)
    &&& alist_keys_unique(s.account_category@)
    &&& forall|k: Option<CategoryId>| #[trigger]
        alist_find(s.category@, k) == detail_of(l, uid, ph, None, Some(k), upto)
    &&& forall|a: AccountId| #[trigger]
        alist_find(s.account@, a) == detail_of(l, uid, ph, Some(a), None, upto)
    &&& forall|ak: (AccountId, Option<CategoryId>)| #[trigger]
        alist_find(s.account_category@, ak) == detail_of(l, uid, ph, Some(ak.0), Some(ak.1), upto)
}

/// Under `month_ok`, every record stored in the three lists is bounded,
/// so one more posting cannot overflow it.
proof fn lemma_month_lists_bounded(l: Ledger, uid: UserId, m: YearMonth, s: Monthstats, upto: int)
    requires
        l.wf(),
        0 <= upto <= l.entry@.len(),
        month_ok(l, uid, m, s, upto),
    ensures
        crate::stats::alist_bounded(s.category@),
        crate::stats::alist_bounded(s.account@),
        crate::stats::alist_bounded(s.account_category@),
{
    let ph = (m, m);
    assert forall|i: int| 0 <= i < s.category@.len() implies detail_bounded(
        #[trigger] s.category@[i].1,
    ) by {
        crate::stats::lemma_alist_index_find(s.category@, i);
        let k = s.category@[i].0;
        lemma_scope_sum_bound(l, uid, ph, None, Some(k), Purpose::Income, upto);
        lemma_scope_sum_bound(l, uid, ph, None, Some(k), Purpose::Outcome, upto);
    }
    assert forall|i: int| 0 <= i < s.account@.len() implies detail_bounded(
        #[trigger] s.account@[i].1,
    ) by {
        crate::stats::lemma_alist_index_find(s.account@, i);
        let a = s.account@[i].0;
        lemma_scope_sum_bound(l, uid, ph, Some(a), None, Purpose::Income, upto);
        lemma_scope_sum_bound(l, uid, ph, Some(a), None, Purpose::Outcome, upto);
    }
    assert forall|i: int| 0 <= i < s.account_category@.len() implies detail_bounded(
        #[trigger] s.account_category@[i].1,
    ) by {
        crate::stats::lemma_alist_index_find(s.account_category@, i);
        let ak = s.account_category@[i].0;
        lemma_scope_sum_bound(l, uid, ph, Some(ak.0), Some(ak.1), Purpose::Income, upto);
        lemma_scope_sum_bound(l, uid, ph, Some(ak.0), Some(ak.1), Purpose::Outcome, upto);
    }
}

/// A fresh record aggregates the empty prefix correctly.
proof fn lemma_month_ok_init(l: Ledger, uid: UserId, m: YearMonth, s: Monthstats)
    requires
        s.income == 0 && s.outcome == 0 && s.summary == 0,
        s.category@.len() == 0,
        s.account@.len() == 0,
        s.account_category@.len() == 0,
    ensures
        month_ok(l, uid, m, s, 0),
{
    let ph = (m, m);
    assert(l.entry@.take(0) =~= Seq::<Entry>::empty());
}

/// Skipping an entry that no scope of this month selects preserves the
/// record.
proof fn lemma_month_ok_skip(l: Ledger, uid: UserId, m: YearMonth, s: Monthstats, j: int)
    requires
        month_ok(l, uid, m, s, j),
        0 <= j < l.entry@.len(),
        !entry_sel(l, uid, (m, m), l.entry@[j]),
    ensures
        month_ok(l, uid, m, s, j + 1),
{
    let ph = (m, m);
    lemma_scope_step_unsel(l, uid, ph, None, None, j);
    assert forall|k: Option<CategoryId>| #[trigger] alist_find(s.category@, k) == detail_of(
        l,
        uid,
        ph,
        None,
        Some(k),
        j + 1,
    ) by {
        lemma_scope_step_unsel(l, uid, ph, None, Some(k), j);
    }
    assert forall|a: AccountId| #[trigger] alist_find(s.account@, a) == detail_of(
        l,
        uid,
        ph,
        Some(a),
        None,
        j + 1,
    ) by {
        lemma_scope_step_unsel(l, uid, ph, Some(a), None, j);
    }
    assert forall|ak: (AccountId, Option<CategoryId>)| #[trigger] alist_find(
        s.account_category@,
        ak,
    ) == detail_of(l, uid, ph, Some(ak.0), Some(ak.1), j + 1) by {
        lemma_scope_step_unsel(l, uid, ph, Some(ak.0), Some(ak.1), j);
    }
}

impl Ledger {
    /// Month statistics for one user inside an inclusive month window.
    ///
    /// The result has exactly one record per month of the expanded window,
    /// in chronological order, even for months with no postings. Each
    /// record aggregates every entry of the user whose transaction
    /// resolves — to a transaction of that same user — in that month:
    /// globally, by category key, by account, and by the (account,
    /// category) pair. Entries resolving to another user's transaction
    /// are orphans and count nowhere.
    #[verifier::loop_isolation(false)]
    pub fn monthstats(&self, userid: UserId, timephase: Phase) -> (r: Vec<(YearMonth, Monthstats)>)
        requires
            self.wf(),
            phase_wf(timephase),
        ensures
            r@.len() == crate::months::month_seq(timephase).len(),
            forall|i: int|
                0 <= i < r@.len() ==> (#[trigger] r@[i]).0 == crate::months::month_seq(
                    timephase,
                )[i],
            forall|i: int|
                0 <= i < r@.len() ==> month_ok(
                    *self,
                    userid,
                    (#[trigger] r@[i]).0,
                    r@[i].1,
                    self.entry@.len() as int,
                ),
    {
        let start = timephase.0;
        let end = timephase.1;
        let phase = crate::months::expand_month_range(start.0, start.1, end.0, end.1);
        let n = phase.len();
        let ghost ms = crate::months::month_seq(timephase);
        let mut table: Vec<(YearMonth, Monthstats)> = Vec::new();
        let mut i: usize = 0;
        while i < n
            invariant
                i <= n,
                n == phase@.len(),
                phase@ == ms,
                table@.len() == i,
                forall|t: int| 0 <= t < i ==> (#[trigger] table@[t]).0 == ms[t],
                forall|t: int|
                    0 <= t < i ==> month_ok(*self, userid, (#[trigger] table@[t]).0, table@[t].1, 0),
            decreases n - i,
        {
            let slot = Monthstats::default();
            proof {
                lemma_month_ok_init(*self, userid, phase@[i as int], slot);
            }
            table.push((phase[i], slot));
            i = i + 1;
        }
        let en = self.entry.len();
        let mut j: usize = 0;
        while j < en
            invariant
                j <= en,
                en == self.entry@.len(),
                n == phase@.len(),
                phase@ == ms,
                self.wf(),
                phase_wf(timephase),
                ms == crate::months::month_seq(timephase),
                table@.len() == n,
                forall|t: int| 0 <= t < n ==> (#[trigger] table@[t]).0 == ms[t],
                forall|t: int|
                    0 <= t < n ==> month_ok(
                        *self,
                        userid,
                        (#[trigger] table@[t]).0,
                        table@[t].1,
                        j as int,
                    ),
            decreases en - j,
        {
            let e = &self.entry[j];
            let ghost ej = self.entry@[j as int];
            if e.userid != userid {
                proof {
                    assert forall|t: int| 0 <= t < n implies month_ok(
                        *self,
                        userid,
                        (#[trigger] table@[t]).0,
                        table@[t].1,
                        j + 1,
                    ) by {
                        lemma_month_ok_skip(*self, userid, table@[t].0, table@[t].1, j as int);
                    }
                }
                j = j + 1;
                continue ;
            }
            let tym_opt = tx_user_month(&self.transaction, e.tranid);
            let (tu, (y, mth)) = match tym_opt {
                Some(tym) => tym,
                None => {
                    proof {
                        assert forall|t: int| 0 <= t < n implies month_ok(
                            *self,
                            userid,
                            (#[trigger] table@[t]).0,
                            table@[t].1,
                            j + 1,
                        ) by {
                            lemma_month_ok_skip(*self, userid, table@[t].0, table@[t].1, j as int);
                        }
                    }
                    j = j + 1;
                    continue ;
                },
            };
            if tu != userid {
                // the transaction belongs to another user: the entry is an
                // orphan and contributes to no month
                proof {
                    assert forall|t: int| 0 <= t < n implies month_ok(
                        *self,
                        userid,
                        (#[trigger] table@[t]).0,
                        table@[t].1,
                        j + 1,
                    ) by {
                        assert(!entry_sel(*self, userid, (table@[t].0, table@[t].0), ej));
                        lemma_month_ok_skip(*self, userid, table@[t].0, table@[t].1, j as int);
                    }
                }
                j = j + 1;
                continue ;
            }
            proof {
                lemma_tx_first_elem(self.transaction@, ej.tranid);
                let ti = choose|i: int|
                    0 <= i < self.transaction@.len() && self.transaction@[i] == tx_first(
                        self.transaction@,
                        ej.tranid,
                    ).unwrap() && self.transaction@[i].id == ej.tranid;
                assert(self.transaction@[ti].occur_date.wf());
                assert(1 <= mth <= 12);
                assert(-crate::datatype::YEAR_LIMIT <= y <= crate::datatype::YEAR_LIMIT);
            }
            let inside = ym_le_exec(start, (y, mth)) && ym_le_exec((y, mth), end);
            if !inside {
                proof {
                    assert forall|t: int| 0 <= t < n implies month_ok(
                        *self,
                        userid,
                        (#[trigger] table@[t]).0,
                        table@[t].1,
                        j + 1,
                    ) by {
                        crate::months::lemma_month_seq_in_phase(timephase);
                        assert(in_phase(timephase, table@[t].0));
                        assert(table@[t].0 != (y, mth));
                        lemma_single_month(table@[t].0, (y, mth));
                        assert(!in_phase((table@[t].0, table@[t].0), (y, mth)));
                        assert(!entry_sel(*self, userid, (table@[t].0, table@[t].0), ej));
                        lemma_month_ok_skip(*self, userid, table@[t].0, table@[t].1, j as int);
                    }
                }
                j = j + 1;
                continue ;
            }
            // locate the month's slot by its distance from the window start
            let del: i64 = (y as i64) * 12 + (mth as i64) - ((start.0 as i64) * 12
                + (start.1 as i64));
            proof {
                assert(in_phase(timephase, (y, mth)));
                crate::months::lemma_in_phase_index(timephase, (y, mth));
                assert(del == month_num((y, mth)) - month_num(timephase.0));
            }
            let idx: usize = del as usize;
            let amount = e.amount;
            let ghost cat_key = ej.categoryid;
            let ghost acc_key = ej.accountid;
            let mut slot: (YearMonth, Monthstats) = ((0i32, 0u32), Monthstats::default());
            core::mem::swap(&mut slot, &mut table[idx]);
            let ghost olds = slot.1;
            let (ym_keep, mut stats) = slot;
            proof {
                let ph1 = (ym_keep, ym_keep);
                assert(ym_keep == (y, mth));
                assert(entry_sel(*self, userid, ph1, ej)) by {
                    lemma_single_month(ym_keep, (y, mth));
                }
                lemma_scope_sum_bound(*self, userid, ph1, None, None, Purpose::Income, j as int);
                lemma_scope_sum_bound(*self, userid, ph1, None, None, Purpose::Outcome, j as int);
                lemma_month_lists_bounded(*self, userid, ym_keep, stats, j as int);
            }
            if amount >= 0 {
                stats.income = stats.income + amount;
            } else {
                stats.outcome = stats.outcome + amount;
            }
            stats.summary = stats.income + stats.outcome;
            crate::stats::cat_upsert(&mut stats.category, e.categoryid, amount);
            crate::stats::acc_upsert(&mut stats.account, e.accountid, amount);
            crate::stats::pair_upsert(&mut stats.account_category, (e.accountid, e.categoryid), amount);
            proof {
                let ph1 = (ym_keep, ym_keep);
                lemma_scope_step_sel(*self, userid, ph1, None, None, j as int);
                assert forall|k: Option<CategoryId>| #[trigger] alist_find(stats.category@, k)
                    == detail_of(*self, userid, ph1, None, Some(k), j + 1) by {
                    if k == cat_key {
                        lemma_detail_step(*self, userid, ph1, None, Some(k), j as int);
                    } else {
                        lemma_scope_step_unsel(*self, userid, ph1, None, Some(k), j as int);
                    }
                }
                assert forall|a: AccountId| #[trigger] alist_find(stats.account@, a) == detail_of(
                    *self,
                    userid,
                    ph1,
                    Some(a),
                    None,
                    j + 1,
                ) by {
                    if a == acc_key {
                        lemma_detail_step(*self, userid, ph1, Some(a), None, j as int);
                    } else {
                        lemma_scope_step_unsel(*self, userid, ph1, Some(a), None, j as int);
                    }
                }
                assert forall|ak: (AccountId, Option<CategoryId>)| #[trigger] alist_find(
                    stats.account_category@,
                    ak,
                ) == detail_of(*self, userid, ph1, Some(ak.0), Some(ak.1), j + 1) by {
                    if ak == (acc_key, cat_key) {
                        lemma_detail_step(*self, userid, ph1, Some(ak.0), Some(ak.1), j as int);
                    } else {
                        lemma_scope_step_unsel(*self, userid, ph1, Some(ak.0), Some(ak.1), j as int);
                    }
                }
                assert(month_ok(*self, userid, ym_keep, stats, j + 1));
            }
            table[idx] = (ym_keep, stats);
            proof {
                assert forall|t: int| 0 <= t < n implies month_ok(
                    *self,
                    userid,
                    (#[trigger] table@[t]).0,
                    table@[t].1,
                    j + 1,
                ) by {
                    if t != idx as int {
                        crate::months::lemma_month_seq_in_phase(timephase);
                        assert(month_num(ms[t]) == month_num(timephase.0) + t);
                        assert(month_num(ms[idx as int]) == month_num(timephase.0) + idx);
                        lemma_num_le(ms[t], ms[idx as int]);
                        lemma_num_le(ms[idx as int], ms[t]);
                        assert(ms[t] != ms[idx as int]);
                        assert(table@[t].0 != (y, mth));
                        lemma_single_month(table@[t].0, (y, mth));
                        assert(!entry_sel(*self, userid, (table@[t].0, table@[t].0), ej));
                        lemma_month_ok_skip(*self, userid, table@[t].0, table@[t].1, j as int);
                    }
                }
            }
            j = j + 1;
        }
        table
    }
}

/// Whether `a` is no later than `b`.
pub(crate) fn ym_le_exec(a: YearMonth, b: YearMonth) -> (r: bool)
    ensures
        r == ym_le(a, b),
{
    a.0 < b.0 || (a.0 == b.0 && a.1 <= b.1)
}

impl Ledger {
    /// A small fixed ledger for demonstrations: one user, a chequing and
    /// a credit account, the categories Food and Rent, and three December
    /// 2025 expenses (groceries, rent, a latte), all in cents.
    pub fn build_demo_ledger() -> (r: Ledger)
        ensures
            r.wf(),
            r.user@.len() == 1,
            r.account@.len() == 2,
            r.category@.len() == 2,
            r.transaction@.len() == 3,
            r.entry@.len() == 3,
            r.user@[0].id == 1 && r.user@[0].email@ == "demo@example.com"@,
            r.account@[0].id == 1 && r.account@[0].userid == 1 && r.account@[0].name@
                == "Chequing"@ && r.account@[0].account_type == AccountType::Checking
                && r.account@[0].currency.0@ == "CAD"@ && r.account@[0].balance == 100000,
            r.account@[1].id == 2 && r.account@[1].userid == 1 && r.account@[1].name@ == "Visa"@
                && r.account@[1].account_type == AccountType::Credit && r.account@[1].currency.0@
                == "CAD"@ && r.account@[1].balance == 0,
            r.category@[0].id == 1 && r.category@[0].userid == 1 && r.category@[0].name@ == "Food"@
                && r.category@[0].parentid is None,
            r.category@[1].id == 2 && r.category@[1].userid == 1 && r.category@[1].name@ == "Rent"@
                && r.category@[1].parentid is None,
            r.transaction@[0].id == 101 && r.transaction@[0].userid == 1
                && r.transaction@[0].occur_date == (crate::datatype::Date {
                year: 2025,
                month: 12,
                day: 1,
            }) && r.transaction@[0].receiver is Some && r.transaction@[0].receiver.unwrap()@
                == "Supermarket"@ && r.transaction@[0].desc is Some
                && r.transaction@[0].desc.unwrap()@ == "Groceries"@,
            r.transaction@[1].id == 102 && r.transaction@[1].userid == 1
                && r.transaction@[1].occur_date == (crate::datatype::Date {
                year: 2025,
                month: 12,
                day: 2,
            }) && r.transaction@[1].receiver is Some && r.transaction@[1].receiver.unwrap()@
                == "Landlord"@ && r.transaction@[1].desc is Some && r.transaction@[1].desc.unwrap()@
                == "December rent"@,
            r.transaction@[2].id == 103 && r.transaction@[2].userid == 1
                && r.transaction@[2].occur_date == (crate::datatype::Date {
                year: 2025,
                month: 12,
                day: 3,
            }) && r.transaction@[2].receiver is Some && r.transaction@[2].receiver.unwrap()@
                == "Cafe"@ && r.transaction@[2].desc is None,
            r.entry@[0] == (Entry {
                id: 1,
                userid: 1,
                tranid: 101,
                accountid: 1,
                categoryid: Some(1),
                amount: (-5000) as i128,
                desc: None,
            }),
            r.entry@[1] == (Entry {
                id: 2,
                userid: 1,
                tranid: 102,
                accountid: 1,
                categoryid: Some(2),
                amount: (-70000) as i128,
                desc: None,
            }),
            r.entry@[2].id == 3 && r.entry@[2].userid == 1 && r.entry@[2].tranid == 103
                && r.entry@[2].accountid == 2 && r.entry@[2].categoryid == Some(1 as CategoryId)
                && r.entry@[2].amount == -1000 && r.entry@[2].desc is Some
                && r.entry@[2].desc.unwrap()@ == "Latte"@,
    {
        let userid: UserId = 1;
        let user = User { id: userid, email: String::from_str("demo@example.com") };
        let acc_checking = Account {
            id: 1,
            userid,
            name: String::from_str("Chequing"),
            account_type: AccountType::Checking,
            currency: Currency(String::from_str("CAD")),
            balance: 100000,
        };
        let acc_credit = Account {
            id: 2,
            userid,
            name: String::from_str("Visa"),
            account_type: AccountType::Credit,
            currency: Currency(String::from_str("CAD")),
            balance: 0,
        };
        let cat_food = Category {
            id: 1,
            userid,
            name: String::from_str("Food"),
            parentid: None,
        };
        let cat_rent = Category {
            id: 2,
            userid,
            name: String::from_str("Rent"),
            parentid: None,
        };
        let tx1 = Transaction {
            id: 101,
            userid,
            occur_date: crate::datatype::Date::new(2025, 12, 1),
            receiver: Some(String::from_str("Supermarket")),
            desc: Some(String::from_str("Groceries")),
        };
        let tx2 = Transaction {
            id: 102,
            userid,
            occur_date: crate::datatype::Date::new(2025, 12, 2),
            receiver: Some(String::from_str("Landlord")),
            desc: Some(String::from_str("December rent")),
        };
        let tx3 = Transaction {
            id: 103,
            userid,
            occur_date: crate::datatype::Date::new(2025, 12, 3),
            receiver: Some(String::from_str("Cafe")),
            desc: None,
        };
        let e1 = Entry {
            id: 1,
            userid,
            tranid: 101,
            accountid: 1,
            categoryid: Some(1),
            amount: -5000,
            desc: None,
        };
        let e2 = Entry {
            id: 2,
            userid,
            tranid: 102,
            accountid: 1,
            categoryid: Some(2),
            amount: -70000,
            desc: None,
        };
        let e3 = Entry {
            id: 3,
            userid,
            tranid: 103,
            accountid: 2,
            categoryid: Some(1),
            amount: -1000,
            desc: Some(String::from_str("Latte")),
        };
        let mut user_v: Vec<User> = Vec::new();
        user_v.push(user);
        let mut account_v: Vec<Account> = Vec::new();
        account_v.push(acc_checking);
        account_v.push(acc_credit);
        let mut category_v: Vec<Category> = Vec::new();
        category_v.push(cat_food);
        category_v.push(cat_rent);
        let mut transaction_v: Vec<Transaction> = Vec::new();
        transaction_v.push(tx1);
        transaction_v.push(tx2);
        transaction_v.push(tx3);
        let mut entry_v: Vec<Entry> = Vec::new();
        entry_v.push(e1);
        entry_v.push(e2);
        entry_v.push(e3);
        Ledger {
            user: user_v,
            account: account_v,
            category: category_v,
            transaction: transaction_v,
            entry: entry_v,
        }
    }
}


} // verus!
