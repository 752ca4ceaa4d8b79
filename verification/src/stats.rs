//! Per-month statistics records and the small association lists that key
//! them by category, by account, and by the (account, category) pair.
//!
//! An association list is a vector of `(key, Detailstats)` pairs with
//! pairwise distinct keys; it models a finite map. The record for one
//! month carries the month's global income/outcome/net and one such list
//! per breakdown dimension.

use vstd::prelude::*;

use crate::datatype::{AccountId, CategoryId, Money, AMOUNT_LIMIT, SUM_CAP};

verus! {

/// Which scalar a query asks for: net (`All`), only inflows (`Income`),
/// or only outflows (`Outcome`).
#[derive(Clone, Copy, Debug, PartialEq, Eq, Structural)]
pub enum Purpose {
    All,
    Income,
    Outcome,
}

impl Purpose {
    /// The purpose an optional "only spending?" flag denotes: absent means
    /// net, `true` means outflows, `false` means inflows.
    pub open spec fn trans_spec(onlyspend: Option<bool>) -> Purpose {
        match onlyspend {
            Option::None => Purpose::All,
            Option::Some(true) => Purpose::Outcome,
            Option::Some(false) => Purpose::Income,
        }
    }

    pub fn trans(onlyspend: Option<bool>) -> (r: Self)
        ensures
            r == Purpose::trans_spec(onlyspend),
    {
        match onlyspend {
            None => Purpose::All,
            Some(true) => Purpose::Outcome,
            Some(false) => Purpose::Income,
        }
    }

    /// Whether an amount of the given sign contributes to this purpose:
    /// a non-negative amount is income, a negative one is outcome.
    pub open spec fn sign_sel(self, amount: int) -> bool {
        match self {
            Purpose::All => true,
            Purpose::Income => amount >= 0,
            Purpose::Outcome => amount < 0,
        }
    }
}

/// Income, outcome and their sum for one scope (one month, one key).
#[derive(Clone, Copy, Debug, PartialEq, Eq, Structural)]
pub struct Detailstats {
    pub income: Money,
    pub outcome: Money,
    pub summary: Money,
}

/// The all-zero record.
pub open spec fn detail_zero() -> Detailstats {
    Detailstats { income: 0, outcome: 0, summary: 0 }
}

/// The record's income and outcome stay within the largest reachable
/// aggregate magnitude.
pub open spec fn detail_bounded(d: Detailstats) -> bool {
    &&& -SUM_CAP <= d.income <= SUM_CAP
    &&& -SUM_CAP <= d.outcome <= SUM_CAP
}

/// The scalar of `d` that the purpose selects.
pub open spec fn detail_get(d: Detailstats, p: Purpose) -> int {
    match p {
        Purpose::All => d.summary as int,
        Purpose::Income => d.income as int,
        Purpose::Outcome => d.outcome as int,
    }
}

/// The record after absorbing one posting: a non-negative amount goes to
/// income, a negative one to outcome; the summary is their sum.
pub open spec fn detail_after(d: Detailstats, amount: i128) -> Detailstats {
    let inc: i128 = if amount >= 0 {
        (d.income + amount) as i128
    } else {
        d.income
    };
    let out: i128 = if amount < 0 {
        (d.outcome + amount) as i128
    } else {
        d.outcome
    };
    Detailstats { income: inc, outcome: out, summary: (inc + out) as i128 }
}

impl Detailstats {
    pub fn get(&self, purpose: Purpose) -> (r: Money)
        ensures
            r as int == detail_get(*self, purpose),
    {
        match purpose {
            Purpose::All => self.summary,
            Purpose::Income => self.income,
            Purpose::Outcome => self.outcome,
        }
    }
}

impl Default for Detailstats {
    fn default() -> (r: Self)
        ensures
            r == detail_zero(),
    {
        Detailstats { income: 0, outcome: 0, summary: 0 }
    }
}

/// One month's breakdown: global scalars plus per-category, per-account
/// and per-(account, category) records.
#[derive(Debug)]
pub struct Monthstats {
    pub income: Money,
    pub outcome: Money,
    pub summary: Money,
    pub category: Vec<(Option<CategoryId>, Detailstats)>,
    pub account: Vec<(AccountId, Detailstats)>,
    pub account_category: Vec<((AccountId, Option<CategoryId>), Detailstats)>,
}

/// The month's own scalar that the purpose selects.
pub open spec fn month_get(s: Monthstats, p: Purpose) -> int {
    match p {
        Purpose::All => s.summary as int,
        Purpose::Income => s.income as int,
        Purpose::Outcome => s.outcome as int,
    }
}

impl Monthstats {
    pub fn get(&self, purpose: Purpose) -> (r: Money)
        ensures
            r as int == month_get(*self, purpose),
    {
        match purpose {
            Purpose::All => self.summary,
            Purpose::Income => self.income,
            Purpose::Outcome => self.outcome,
        }
    }
}

impl Default for Monthstats {
    fn default() -> (r: Self)
        ensures
            r.income == 0 && r.outcome == 0 && r.summary == 0,
            r.category@ == Seq::<(Option<CategoryId>, Detailstats)>::empty(),
            r.account@ == Seq::<(AccountId, Detailstats)>::empty(),
            r.account_category@ == Seq::<((AccountId, Option<CategoryId>), Detailstats)>::empty(),
    {
        Monthstats {
            income: 0,
            outcome: 0,
            summary: 0,
            category: Vec::new(),
            account: Vec::new(),
            account_category: Vec::new(),
        }
    }
}

/// The first record stored under key `k`, if any.
pub open spec fn alist_find<K>(s: Seq<(K, Detailstats)>, k: K) -> Option<Detailstats>
    decreases s.len(),
{
    if s.len() == 0 {
        None
    } else if s[0].0 == k {
        Some(s[0].1)
    } else {
        alist_find(s.drop_first(), k)
    }
}

/// The record under `k`, or the all-zero record when the key is absent.
pub open spec fn alist_get_or0<K>(s: Seq<(K, Detailstats)>, k: K) -> Detailstats {
    match alist_find(s, k) {
        Some(d) => d,
        None => detail_zero(),
    }
}

/// All keys are pairwise distinct.
pub open spec fn alist_keys_unique<K>(s: Seq<(K, Detailstats)>) -> bool {
    forall|i: int, j: int| 0 <= i < j < s.len() ==> s[i].0 != s[j].0
}

/// Every stored record is magnitude-bounded.
pub open spec fn alist_bounded<K>(s: Seq<(K, Detailstats)>) -> bool {
    forall|i: int| 0 <= i < s.len() ==> detail_bounded(#[trigger] s[i].1)
}

/// Finding the key of a first occurrence yields that occurrence's record.
pub proof fn lemma_alist_find_at<K>(s: Seq<(K, Detailstats)>, i: int)
    requires
        0 <= i < s.len(),
        forall|j: int| 0 <= j < i ==> s[j].0 != s[i].0,
    ensures
        alist_find(s, s[i].0) == Some(s[i].1),
    decreases i,
{
    if i > 0 {
        lemma_alist_find_at(s.drop_first(), i - 1);
    }
}

/// Under distinct keys, every stored pair is what the find returns.
pub proof fn lemma_alist_index_find<K>(s: Seq<(K, Detailstats)>, i: int)
    requires
        alist_keys_unique(s),
        0 <= i < s.len(),
    ensures
        alist_find(s, s[i].0) == Some(s[i].1),
{
    lemma_alist_find_at(s, i);
}

/// A key stored nowhere is not found.
pub proof fn lemma_alist_find_none<K>(s: Seq<(K, Detailstats)>, k: K)
    requires
        forall|j: int| 0 <= j < s.len() ==> (#[trigger] s[j]).0 != k,
    ensures
        alist_find(s, k) == None::<Detailstats>,
    decreases s.len(),
{
    if s.len() > 0 {
        lemma_alist_find_none(s.drop_first(), k);
    }
}

/// A key is found exactly when some pair stores it.
pub proof fn lemma_alist_find_is_some<K>(s: Seq<(K, Detailstats)>, k: K)
    ensures
        alist_find(s, k).is_some() <==> exists|i: int| 0 <= i < s.len() && (#[trigger] s[i]).0 == k,
    decreases s.len(),
{
    if s.len() == 0 {
    } else if s[0].0 == k {
        assert(s[0].0 == k);
    } else {
        lemma_alist_find_is_some(s.drop_first(), k);
        if alist_find(s, k).is_some() {
            let i = choose|i: int| 0 <= i < s.drop_first().len() && (#[trigger] s.drop_first()[i]).0
                == k;
            assert(s[i + 1].0 == k);
        }
        if exists|i: int| 0 <= i < s.len() && (#[trigger] s[i]).0 == k {
            let i = choose|i: int| 0 <= i < s.len() && (#[trigger] s[i]).0 == k;
            assert(s.drop_first()[i - 1].0 == k);
        }
    }
}

/// Replacing the record at one index changes only that key's binding.
pub proof fn lemma_alist_update<K>(s: Seq<(K, Detailstats)>, i: int, d: Detailstats, k2: K)
    requires
        alist_keys_unique(s),
        0 <= i < s.len(),
    ensures
        alist_find(s.update(i, (s[i].0, d)), k2) == if k2 == s[i].0 {
            Some(d)
        } else {
            alist_find(s, k2)
        },
        alist_keys_unique(s.update(i, (s[i].0, d))),
    decreases i,
{
    let u = s.update(i, (s[i].0, d));
    assert(alist_keys_unique(u)) by {
        assert(forall|m: int| 0 <= m < s.len() ==> u[m].0 == (#[trigger] s[m]).0);
    }
    if i == 0 {
        assert(u.drop_first() =~= s.drop_first());
    } else {
        assert(u[0] == s[0]);
        assert(s[0].0 != s[i].0);
        if k2 == s[0].0 {
        } else {
            assert(u.drop_first() =~= s.drop_first().update(i - 1, (s.drop_first()[i - 1].0, d)));
            assert(alist_keys_unique(s.drop_first())) by {
                assert(forall|m: int, n: int|
                    0 <= m < n < s.drop_first().len() ==> (#[trigger] s.drop_first()[m], #[trigger] s.drop_first()[n])
                        == (s[m + 1], s[n + 1]));
            }
            lemma_alist_update(s.drop_first(), i - 1, d, k2);
        }
    }
}

/// Appending a fresh key binds it and leaves every other key alone.
pub proof fn lemma_alist_push<K>(s: Seq<(K, Detailstats)>, k: K, d: Detailstats, k2: K)
    requires
        alist_find(s, k) == None::<Detailstats>,
    ensures
        alist_find(s.push((k, d)), k2) == if k2 == k {
            Some(d)
        } else {
            alist_find(s, k2)
        },
        alist_keys_unique(s) ==> alist_keys_unique(s.push((k, d))),
    decreases s.len(),
{
    lemma_alist_find_is_some(s, k);
    let u = s.push((k, d));
    if s.len() == 0 {
        assert(u.len() == 1 && u[0] == (k, d));
        if k2 == k {
            assert(alist_find(u, k2) == Some(d));
        } else {
            assert(u.drop_first() =~= Seq::<(K, Detailstats)>::empty());
            assert(alist_find(u, k2) == None::<Detailstats>);
            assert(alist_find(s, k2) == None::<Detailstats>);
        }
    } else {
        assert(u[0] == s[0]);
        assert(s[0].0 != k);
        if k2 == s[0].0 {
            assert(alist_find(u, k2) == Some(s[0].1));
            assert(alist_find(s, k2) == Some(s[0].1));
            assert(k2 != k);
        } else {
            assert(u.drop_first() =~= s.drop_first().push((k, d)));
            assert(alist_find(s.drop_first(), k) == None::<Detailstats>);
            lemma_alist_push(s.drop_first(), k, d, k2);
            assert(alist_find(u, k2) == alist_find(u.drop_first(), k2));
            assert(alist_find(s, k2) == alist_find(s.drop_first(), k2));
            if k2 == k {
                assert(alist_find(u, k2) == Some(d));
            } else {
                assert(alist_find(u, k2) == alist_find(s, k2));
            }
        }
    }
    if alist_keys_unique(s) {
        assert forall|m: int, n: int| 0 <= m < n < u.len() implies u[m].0 != u[n].0 by {
            if n < s.len() {
                assert(u[m].0 == s[m].0 && u[n].0 == s[n].0);
            } else {
                assert(u[n].0 == k && u[m].0 == s[m].0);
            }
        }
    }
}

/// The scalar the original's per-key lookup produces for one month and an
/// optional account and category filter: the right record (global,
/// by-category, by-account, or by the pair) read through the purpose, zero
/// when the key is absent.
pub open spec fn filter_value_spec(
    s: Monthstats,
    accountid: Option<AccountId>,
    category: Option<CategoryId>,
    p: Purpose,
) -> int {
    match (accountid, category) {
        (Option::None, Option::None) => month_get(s, p),
        (Option::None, Option::Some(cat)) => detail_get(
            alist_get_or0(s.category@, Some(cat)),
            p,
        ),
        (Option::Some(acc), Option::None) => detail_get(alist_get_or0(s.account@, acc), p),
        (Option::Some(acc), Option::Some(cat)) => detail_get(
            alist_get_or0(s.account_category@, (acc, Some(cat))),
            p,
        ),
    }
}

fn cat_key_eq(a: Option<CategoryId>, b: Option<CategoryId>) -> (r: bool)
    ensures
        r == (a == b),
{
    match (a, b) {
        (None, None) => true,
        (Some(x), Some(y)) => x == y,
        _ => false,
    }
}

/// Absorb one posting into the by-category list under key `key`.
#[verifier::loop_isolation(false)]
pub fn cat_upsert(list: &mut Vec<(Option<CategoryId>, Detailstats)>, key: Option<CategoryId>, amount: Money)
    requires
        -AMOUNT_LIMIT <= amount <= AMOUNT_LIMIT,
        alist_keys_unique(old(list)@),
        alist_bounded(old(list)@),
    ensures
        alist_keys_unique(final(list)@),
        forall|k2: Option<CategoryId>|
            k2 != key ==> #[trigger] alist_find(final(list)@, k2) == alist_find(old(list)@, k2),
        alist_find(final(list)@, key) == Some(detail_after(alist_get_or0(old(list)@, key), amount)),
{
    let n = list.len();
    let mut i: usize = 0;
    while i < n
        invariant
            n == list@.len(),
            i <= n,
            list@ == old(list)@,
            forall|j: int| 0 <= j < i ==> (#[trigger] list@[j]).0 != key,
        decreases n - i,
    {
        if cat_key_eq(list[i].0, key) {
            proof {
                lemma_alist_find_at(list@, i as int);
            }
            let d = list[i].1;
            let nd = detail_step(d, amount);
            list[i] = (key, nd);
            proof {
                assert((key, nd) == (old(list)@[i as int].0, nd));
                lemma_alist_find_at(old(list)@, i as int);
                assert forall|k2: Option<CategoryId>| true implies #[trigger] alist_find(
                    list@,
                    k2,
                ) == if k2 == key {
                    Some(nd)
                } else {
                    alist_find(old(list)@, k2)
                } by {
                    lemma_alist_update(old(list)@, i as int, nd, k2);
                }
            }
            return ;
        }
        i = i + 1;
    }
    proof {
        lemma_alist_find_none(list@, key);
    }
    let nd = detail_step(Detailstats { income: 0, outcome: 0, summary: 0 }, amount);
    list.push((key, nd));
    proof {
        assert forall|k2: Option<CategoryId>| true implies #[trigger] alist_find(list@, k2) == if k2
            == key {
            Some(nd)
        } else {
            alist_find(old(list)@, k2)
        } by {
            lemma_alist_push(old(list)@, key, nd, k2);
        }
    }
}

fn acc_key_eq(a: AccountId, b: AccountId) -> (r: bool)
    ensures
        r == (a == b),
{
    a == b
}

/// Absorb one posting into the by-account list under key `key`.
#[verifier::loop_isolation(false)]
pub fn acc_upsert(list: &mut Vec<(AccountId, Detailstats)>, key: AccountId, amount: Money)
    requires
        -AMOUNT_LIMIT <= amount <= AMOUNT_LIMIT,
        alist_keys_unique(old(list)@),
        alist_bounded(old(list)@),
    ensures
        alist_keys_unique(final(list)@),
        forall|k2: AccountId|
            k2 != key ==> #[trigger] alist_find(final(list)@, k2) == alist_find(old(list)@, k2),
        alist_find(final(list)@, key) == Some(detail_after(alist_get_or0(old(list)@, key), amount)),
{
    let n = list.len();
    let mut i: usize = 0;
    while i < n
        invariant
            n == list@.len(),
            i <= n,
            list@ == old(list)@,
            forall|j: int| 0 <= j < i ==> (#[trigger] list@[j]).0 != key,
        decreases n - i,
    {
        if acc_key_eq(list[i].0, key) {
            proof {
                lemma_alist_find_at(list@, i as int);
            }
            let d = list[i].1;
            let nd = detail_step(d, amount);
            list[i] = (key, nd);
            proof {
                lemma_alist_find_at(old(list)@, i as int);
                assert forall|k2: AccountId| true implies #[trigger] alist_find(list@, k2) == if k2
                    == key {
                    Some(nd)
                } else {
                    alist_find(old(list)@, k2)
                } by {
                    lemma_alist_update(old(list)@, i as int, nd, k2);
                }
            }
            return ;
        }
        i = i + 1;
    }
    proof {
        lemma_alist_find_none(list@, key);
    }
    let nd = detail_step(Detailstats { income: 0, outcome: 0, summary: 0 }, amount);
    list.push((key, nd));
    proof {
        assert forall|k2: AccountId| true implies #[trigger] alist_find(list@, k2) == if k2
            == key {
            Some(nd)
        } else {
            alist_find(old(list)@, k2)
        } by {
            lemma_alist_push(old(list)@, key, nd, k2);
        }
    }
}

fn pair_key_eq(a: (AccountId, Option<CategoryId>), b: (AccountId, Option<CategoryId>)) -> (r: bool)
    ensures
        r == (a == b),
{
    a.0 == b.0 && cat_key_eq(a.1, b.1)
}

/// Absorb one posting into the by-(account, category) list under `key`.
#[verifier::loop_isolation(false)]
pub fn pair_upsert(
    list: &mut Vec<((AccountId, Option<CategoryId>), Detailstats)>,
    key: (AccountId, Option<CategoryId>),
    amount: Money,
)
    requires
        -AMOUNT_LIMIT <= amount <= AMOUNT_LIMIT,
        alist_keys_unique(old(list)@),
        alist_bounded(old(list)@),
    ensures
        alist_keys_unique(final(list)@),
        forall|k2: (AccountId, Option<CategoryId>)|
            k2 != key ==> #[trigger] alist_find(final(list)@, k2) == alist_find(old(list)@, k2),
        alist_find(final(list)@, key) == Some(detail_after(alist_get_or0(old(list)@, key), amount)),
{
    let n = list.len();
    let mut i: usize = 0;
    while i < n
        invariant
            n == list@.len(),
            i <= n,
            list@ == old(list)@,
            forall|j: int| 0 <= j < i ==> (#[trigger] list@[j]).0 != key,
        decreases n - i,
    {
        if pair_key_eq(list[i].0, key) {
            proof {
                lemma_alist_find_at(list@, i as int);
            }
            let d = list[i].1;
            let nd = detail_step(d, amount);
            list[i] = (key, nd);
            proof {
                lemma_alist_find_at(old(list)@, i as int);
                assert forall|k2: (AccountId, Option<CategoryId>)| true implies #[trigger] alist_find(
                    list@,
                    k2,
                ) == if k2 == key {
                    Some(nd)
                } else {
                    alist_find(old(list)@, k2)
                } by {
                    lemma_alist_update(old(list)@, i as int, nd, k2);
                }
            }
            return ;
        }
        i = i + 1;
    }
    proof {
        lemma_alist_find_none(list@, key);
    }
    let nd = detail_step(Detailstats { income: 0, outcome: 0, summary: 0 }, amount);
    list.push((key, nd));
    proof {
        assert forall|k2: (AccountId, Option<CategoryId>)| true implies #[trigger] alist_find(
            list@,
            k2,
        ) == if k2 == key {
            Some(nd)
        } else {
            alist_find(old(list)@, k2)
        } by {
            lemma_alist_push(old(list)@, key, nd, k2);
        }
    }
}

/// One posting applied to one record, by sign.
fn detail_step(d: Detailstats, amount: Money) -> (r: Detailstats)
    requires
        -AMOUNT_LIMIT <= amount <= AMOUNT_LIMIT,
        detail_bounded(d),
    ensures
        r == detail_after(d, amount),
{
    let income: Money = if amount >= 0 {
        d.income + amount
    } else {
        d.income
    };
    let outcome: Money = if amount < 0 {
        d.outcome + amount
    } else {
        d.outcome
    };
    Detailstats { income, outcome, summary: income + outcome }
}

/// Look a category key up in a month's by-category list.
#[verifier::loop_isolation(false)]
pub fn cat_find(list: &Vec<(Option<CategoryId>, Detailstats)>, key: Option<CategoryId>) -> (r: Option<
    Detailstats,
>)
    ensures
        r == alist_find(list@, key),
{
    let n = list.len();
    let mut i: usize = 0;
    while i < n
        invariant
            n == list@.len(),
            i <= n,
            forall|j: int| 0 <= j < i ==> (#[trigger] list@[j]).0 != key,
        decreases n - i,
    {
        if cat_key_eq(list[i].0, key) {
            proof {
                lemma_alist_find_at(list@, i as int);
            }
            return Some(list[i].1);
        }
        i = i + 1;
    }
    proof {
        lemma_alist_find_none(list@, key);
    }
    None
}

/// Look an account key up in a month's by-account list.
#[verifier::loop_isolation(false)]
pub fn acc_find(list: &Vec<(AccountId, Detailstats)>, key: AccountId) -> (r: Option<Detailstats>)
    ensures
        r == alist_find(list@, key),
{
    let n = list.len();
    let mut i: usize = 0;
    while i < n
        invariant
            n == list@.len(),
            i <= n,
            forall|j: int| 0 <= j < i ==> (#[trigger] list@[j]).0 != key,
        decreases n - i,
    {
        if acc_key_eq(list[i].0, key) {
            proof {
                lemma_alist_find_at(list@, i as int);
            }
            return Some(list[i].1);
        }
        i = i + 1;
    }
    proof {
        lemma_alist_find_none(list@, key);
    }
    None
}

/// Look a pair key up in a month's by-(account, category) list.
#[verifier::loop_isolation(false)]
pub fn pair_find(
    list: &Vec<((AccountId, Option<CategoryId>), Detailstats)>,
    key: (AccountId, Option<CategoryId>),
) -> (r: Option<Detailstats>)
    ensures
        r == alist_find(list@, key),
{
    let n = list.len();
    let mut i: usize = 0;
    while i < n
        invariant
            n == list@.len(),
            i <= n,
            forall|j: int| 0 <= j < i ==> (#[trigger] list@[j]).0 != key,
        decreases n - i,
    {
        if pair_key_eq(list[i].0, key) {
            proof {
                lemma_alist_find_at(list@, i as int);
            }
            return Some(list[i].1);
        }
        i = i + 1;
    }
    proof {
        lemma_alist_find_none(list@, key);
    }
    None
}

} // verus!
