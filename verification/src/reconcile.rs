//! Reconciliation: comparing the window's computed balance against an
//! externally reported one, and on mismatch ranking the entries whose
//! amounts come closest to explaining the whole gap.

use vstd::prelude::*;

use crate::datatype::{AccountId, Entry, Money, Transaction, TransactionId, UserId, AMOUNT_LIMIT, SUM_CAP};
use crate::ledger::{acc_match, entry_sel, scope_sum, tx_user_month, ym_le_exec, Ledger};
use crate::months::{in_phase, phase_wf, Phase, YearMonth};
use crate::stats::Purpose;
use crate::sums::count;

verus! {

/// Largest discrepancy (in cents) still reconciled as clean: the
/// two-decimal-currency tolerance.
pub const RECONCILE_TOLERANCE: i128 = 1;

/// The outcome of a reconciliation: whether the external balance agrees
/// with the computed one within tolerance, both balances, their
/// difference, and (on mismatch) the entries that best explain the gap.
#[derive(Debug)]
pub struct ReconcileResult {
    pub good: bool,
    pub internal_balance: Money,
    pub external_balance: Money,
    pub difference: Money,
    pub suspicous_entry: Vec<Entry>,
}

/// A reconciliation candidate: an entry the window selects for the user
/// (the same resolution rule as the aggregator's), passing the optional
/// account filter.
pub open spec fn suspect_pred(
    l: Ledger,
    uid: UserId,
    accf: Option<AccountId>,
    ph: Phase,
) -> spec_fn(Entry) -> bool {
    |e: Entry| entry_sel(l, uid, ph, e) && acc_match(accf, e)
}

/// How badly an entry alone explains the gap: its distance from the
/// difference; the best candidate minimizes it.
pub open spec fn suspect_score(diff: int, e: Entry) -> int {
    crate::trend::abs_of(diff - e.amount as int)
}

/// The order suspicious entries are reported in: smaller score first,
/// ties to the entry appearing earlier in the store.
pub open spec fn suspect_before(es: Seq<Entry>, diff: int, a: int, b: int) -> bool {
    ||| suspect_score(diff, es[a]) < suspect_score(diff, es[b])
    ||| (suspect_score(diff, es[a]) == suspect_score(diff, es[b]) && a < b)
}

/// `ord` lists the positions (in the entry store) of the top `k`
/// reconciliation candidates: as many as exist but at most `k`, best
/// first, and every listed candidate scores no worse than any unlisted
/// one. The order is strict and total, so exactly one such list exists.
pub open spec fn suspect_selection(
    l: Ledger,
    uid: UserId,
    accf: Option<AccountId>,
    ph: Phase,
    diff: int,
    k: int,
    ord: Seq<int>,
) -> bool {
    let es = l.entry@;
    let p = suspect_pred(l, uid, accf, ph);
    let total = count(es, p);
    &&& ord.len() == if k < total {
        k
    } else {
        total
    }
    &&& forall|i: int| 0 <= i < ord.len() ==> 0 <= #[trigger] ord[i] < es.len() && p(es[ord[i]])
    &&& forall|i: int, j: int|
        0 <= i < j < ord.len() ==> suspect_before(es, diff, #[trigger] ord[i], #[trigger] ord[j])
    &&& forall|i: int, v: int|
        0 <= i < ord.len() && 0 <= v < es.len() && p(es[v]) && !(#[trigger] ord.contains(v))
            ==> suspect_before(es, diff, #[trigger] ord[i], v)
}

/// A list shorter than a duplicate-free one misses one of its elements.
proof fn lemma_unchosen_in_list(cand: Seq<usize>, chosen: Seq<usize>)
    requires
        cand.no_duplicates(),
        chosen.len() < cand.len(),
    ensures
        exists|t: int| 0 <= t < cand.len() && !chosen.contains(#[trigger] cand[t]),
{
    broadcast use vstd::seq_lib::seq_to_set_is_finite;

    if forall|t: int| 0 <= t < cand.len() ==> chosen.contains(#[trigger] cand[t]) {
        assert(cand.to_set().subset_of(chosen.to_set())) by {
            assert forall|x: usize| cand.to_set().contains(x) implies chosen.to_set().contains(
                x,
            ) by {
                let t = choose|t: int| 0 <= t < cand.len() && cand[t] == x;
                assert(chosen.contains(cand[t]));
            }
        }
        vstd::set_lib::lemma_len_subset(cand.to_set(), chosen.to_set());
        cand.unique_seq_to_set();
        chosen.lemma_cardinality_of_set();
        assert(false);
    }
}

fn contains_idx(v: &Vec<usize>, x: usize) -> (r: bool)
    ensures
        r == v@.contains(x),
{
    let n = v.len();
    let mut i: usize = 0;
    while i < n
        invariant
            i <= n,
            n == v@.len(),
            forall|j: int| 0 <= j < i ==> v@[j] != x,
        decreases n - i,
    {
        if v[i] == x {
            return true;
        }
        i = i + 1;
    }
    false
}

/// The magnitude of a difference between two bounded amounts.
fn score_exec(difference: Money, amount: Money) -> (r: Money)
    requires
        -(4 * SUM_CAP) <= difference <= 4 * SUM_CAP,
        -AMOUNT_LIMIT <= amount <= AMOUNT_LIMIT,
    ensures
        r as int == crate::trend::abs_of(difference as int - amount as int),
{
    let d = difference - amount;
    if d < 0 {
        -d
    } else {
        d
    }
}

impl Ledger {
    /// The reconciliation candidates ranked by how well each alone would
    /// explain the gap: every entry of the user in the window (optionally
    /// restricted to one account), best score first, cut to `top_k`.
    #[verifier::loop_isolation(false)]
    fn reconcile_supicous_entry(
        &self,
        userid: UserId,
        accountid: Option<AccountId>,
        timephase: Phase,
        difference: Money,
        top_k: usize,
    ) -> (r: Vec<Entry>)
        requires
            self.wf(),
            phase_wf(timephase),
            -(4 * SUM_CAP) <= difference <= 4 * SUM_CAP,
        ensures
            top_k == 0 ==> r@.len() == 0,
            top_k > 0 ==> exists|ord: Seq<int>|
                suspect_selection(
                    *self,
                    userid,
                    accountid,
                    timephase,
                    difference as int,
                    top_k as int,
                    ord,
                ) && r@.len() == ord.len() && (forall|i: int|
                    0 <= i < ord.len() ==> #[trigger] r@[i] == self.entry@[ord[i]]),
    {
        if top_k == 0 {
            return Vec::new();
        }
        let ghost es = self.entry@;
        let ghost p = suspect_pred(*self, userid, accountid, timephase);
        let en = self.entry.len();
        let mut cand: Vec<usize> = Vec::new();
        let mut j: usize = 0;
        while j < en
            invariant
                j <= en,
                forall|t1: int, t2: int|
                    0 <= t1 < t2 < cand@.len() ==> (#[trigger] cand@[t1]) < (#[trigger] cand@[t2]),
                forall|t: int|
                    0 <= t < cand@.len() ==> ((#[trigger] cand@[t]) as int) < j && p(
                        es[cand@[t] as int],
                    ),
                forall|u: int| 0 <= u < j && p(es[u]) ==> cand@.contains(#[trigger] (u as usize)),
                cand@.len() == count(es.take(j as int), p),
            decreases en - j,
        {
            let e = &self.entry[j];
            let accok = match accountid {
                Some(a) => e.accountid == a,
                None => true,
            };
            let mut is_cand = false;
            if e.userid == userid && accok {
                match tx_user_month(&self.transaction, e.tranid) {
                    Some((tu, ym)) => {
                        if tu == userid && 1 <= ym.1 && ym.1 <= 12 && ym_le_exec(timephase.0, ym)
                            && ym_le_exec(ym, timephase.1) {
                            is_cand = true;
                        }
                    },
                    None => {},
                }
            }
            proof {
                assert(is_cand == p(es[j as int]));
                crate::sums::lemma_wsum_take_step(es, p, crate::sums::one_w::<Entry>(), j as int);
            }
            let ghost old_cand = cand@;
            if is_cand {
                cand.push(j);
                proof {
                    assert forall|u: int|
                        0 <= u < j + 1 && p(es[u]) implies cand@.contains(
                        #[trigger] (u as usize),
                    ) by {
                        if u < j {
                            assert(old_cand.contains(u as usize));
                            let t = choose|t: int|
                                0 <= t < old_cand.len() && old_cand[t] == u as usize;
                            assert(cand@[t] == u as usize);
                        } else {
                            assert(cand@[cand@.len() - 1] == j);
                        }
                    }
                }
            }
            j = j + 1;
        }
        proof {
            assert(es.take(en as int) =~= es);
            assert(cand@.no_duplicates());
        }
        let cn = cand.len();
        let kk = if top_k > cn {
            cn
        } else {
            top_k
        };
        let ghost diffi = difference as int;
        let mut ordv: Vec<usize> = Vec::new();
        let mut step: usize = 0;
        while step < kk
            invariant
                step <= kk,
                kk <= cn,
                cn == cand@.len(),
                ordv@.len() == step,
                forall|i: int| 0 <= i < ordv@.len() ==> cand@.contains(#[trigger] ordv@[i]),
                forall|i: int, j2: int|
                    0 <= i < j2 < ordv@.len() ==> suspect_before(
                        es,
                        diffi,
                        #[trigger] ordv@[i] as int,
                        #[trigger] ordv@[j2] as int,
                    ),
                forall|i: int, v: int|
                    0 <= i < ordv@.len() && 0 <= v <= usize::MAX && cand@.contains(v as usize)
                        && !(#[trigger] ordv@.contains(
                        v as usize,
                    )) ==> suspect_before(es, diffi, #[trigger] ordv@[i] as int, v),
            decreases kk - step,
        {
            let best = self.pick_best_suspect(
                &cand,
                &ordv,
                difference,
                Ghost(userid),
                Ghost(accountid),
                Ghost(timephase),
            );
            let ghost old_ord = ordv@;
            ordv.push(best);
            proof {
                assert forall|i: int, j2: int| 0 <= i < j2 < ordv@.len() implies suspect_before(
                    es,
                    diffi,
                    #[trigger] ordv@[i] as int,
                    #[trigger] ordv@[j2] as int,
                ) by {
                    if j2 == ordv@.len() - 1 {
                        assert(ordv@[i] == old_ord[i]);
                        assert(!old_ord.contains(best));
                        assert(((best as int) as usize) == best);
                        assert(suspect_before(es, diffi, old_ord[i] as int, best as int));
                    }
                }
                assert forall|i: int, v: int|
                    0 <= i < ordv@.len() && 0 <= v <= usize::MAX && cand@.contains(v as usize)
                        && !(#[trigger] ordv@.contains(
                        v as usize,
                    )) implies suspect_before(es, diffi, #[trigger] ordv@[i] as int, v) by {
                    assert(!old_ord.contains(v as usize)) by {
                        if old_ord.contains(v as usize) {
                            let t = choose|t: int|
                                0 <= t < old_ord.len() && old_ord[t] == v as usize;
                            assert(ordv@[t] == v as usize);
                        }
                    }
                    if i < ordv@.len() - 1 {
                        assert(ordv@[i] == old_ord[i]);
                    } else {
                        assert(ordv@[i] == best);
                        assert(v != best as int);
                    }
                }
            }
            step = step + 1;
        }
        let mut result: Vec<Entry> = Vec::new();
        let mut t: usize = 0;
        while t < kk
            invariant
                t <= kk,
                kk == ordv@.len(),
                forall|i: int| 0 <= i < ordv@.len() ==> cand@.contains(#[trigger] ordv@[i]),
                forall|i: int|
                    0 <= i < cand@.len() ==> ((#[trigger] cand@[i]) as int) < es.len(),
                result@.len() == t,
                forall|i: int| 0 <= i < t ==> #[trigger] result@[i] == es[ordv@[i] as int],
            decreases kk - t,
        {
            let o = ordv[t];
            proof {
                assert(cand@.contains(o));
                let c = choose|c: int| 0 <= c < cand@.len() && cand@[c] == o;
                assert((o as int) < es.len());
            }
            result.push(crate::datatype::dup_entry(&self.entry[o]));
            t = t + 1;
        }
        proof {
            let ordi = ordv@.map_values(|u: usize| u as int);
            assert(forall|i: int| 0 <= i < ordi.len() ==> #[trigger] ordi[i] == ordv@[i] as int);
            assert forall|i: int|
                0 <= i < ordi.len() implies 0 <= #[trigger] ordi[i] < es.len() && p(
                es[ordi[i]],
            ) by {
                assert(cand@.contains(ordv@[i]));
                let c = choose|c: int| 0 <= c < cand@.len() && cand@[c] == ordv@[i];
                assert(p(es[cand@[c] as int]));
            }
            assert forall|i: int, v: int|
                0 <= i < ordi.len() && 0 <= v < es.len() && p(es[v]) && !(#[trigger] ordi.contains(
                    v,
                )) implies suspect_before(es, diffi, #[trigger] ordi[i], v) by {
                assert(cand@.contains(v as usize));
                assert(!ordv@.contains(v as usize)) by {
                    if ordv@.contains(v as usize) {
                        let t2 = choose|t2: int| 0 <= t2 < ordv@.len() && ordv@[t2] == v as usize;
                        assert(ordi[t2] == v);
                    }
                }
            }
            assert(count(es, p) == cand@.len());
            assert(suspect_selection(
                *self,
                userid,
                accountid,
                timephase,
                diffi,
                top_k as int,
                ordi,
            ));
        }
        result
    }

    /// The best-scored candidate not yet chosen; some candidate must
    /// remain.
    #[verifier::loop_isolation(false)]
    fn pick_best_suspect(
        &self,
        cand: &Vec<usize>,
        chosen: &Vec<usize>,
        difference: Money,
        Ghost(userid): Ghost<UserId>,
        Ghost(accountid): Ghost<Option<AccountId>>,
        Ghost(timephase): Ghost<Phase>,
    ) -> (best: usize)
        requires
            self.wf(),
            -(4 * SUM_CAP) <= difference <= 4 * SUM_CAP,
            chosen@.len() < cand@.len(),
            forall|t1: int, t2: int|
                0 <= t1 < t2 < cand@.len() ==> (#[trigger] cand@[t1]) < (#[trigger] cand@[t2]),
            forall|t: int|
                0 <= t < cand@.len() ==> ((#[trigger] cand@[t]) as int) < self.entry@.len(),
        ensures
            cand@.contains(best),
            !chosen@.contains(best),
            forall|v: int|
                0 <= v <= usize::MAX && cand@.contains(v as usize) && !(#[trigger] chosen@.contains(
                    v as usize,
                )) ==> (v == best as int || suspect_before(
                    self.entry@,
                    difference as int,
                    best as int,
                    v,
                )),
    {
        let ghost es = self.entry@;
        let ghost diffi = difference as int;
        let cn = cand.len();
        let mut best: usize = 0;
        let mut found = false;
        let mut ci: usize = 0;
        while ci < cn
            invariant
                ci <= cn,
                found ==> cand@.contains(best) && !chosen@.contains(best),
                found ==> exists|cb: int| 0 <= cb < ci && (#[trigger] cand@[cb]) == best,
                found ==> forall|t: int|
                    0 <= t < ci && !chosen@.contains(#[trigger] cand@[t]) ==> (cand@[t] == best
                        || suspect_before(es, diffi, best as int, cand@[t] as int)),
                !found ==> forall|t: int| 0 <= t < ci ==> chosen@.contains(#[trigger] cand@[t]),
            decreases cn - ci,
        {
            let v = cand[ci];
            if !contains_idx(chosen, v) {
                if !found {
                    best = v;
                    found = true;
                } else {
                    let kv = score_exec(difference, self.entry[v].amount);
                    let kb = score_exec(difference, self.entry[best].amount);
                    let replace_best: bool = if kv < kb {
                        true
                    } else if kv == kb {
                        v < best
                    } else {
                        false
                    };
                    if replace_best {
                        best = v;
                    }
                }
            }
            ci = ci + 1;
        }
        proof {
            if !found {
                assert(cand@.no_duplicates());
                lemma_unchosen_in_list(cand@, chosen@);
                assert(false);
            }
            assert forall|v: int|
                0 <= v <= usize::MAX && cand@.contains(v as usize) && !(#[trigger] chosen@.contains(
                    v as usize,
                )) implies (v == best as int || suspect_before(es, diffi, best as int, v)) by {
                let t = choose|t: int| 0 <= t < cand@.len() && cand@[t] == v as usize;
                assert(!chosen@.contains(cand@[t]));
                assert(cand@[t] as int == v);
            }
        }
        best
    }

    /// Compare the window's computed net balance for the user (optionally
    /// one account) against an externally reported balance. Within one
    /// cent of each other the books are good and no candidates are
    /// returned; otherwise the `top_k` entries whose amounts are closest
    /// to the whole gap are returned as human-reviewable candidates.
    pub fn reconcile(
        &self,
        userid: UserId,
        accountid: Option<AccountId>,
        external_balance: Money,
        timephase: Phase,
        top_k: usize,
    ) -> (r: ReconcileResult)
        requires
            self.wf(),
            phase_wf(timephase),
            -SUM_CAP <= external_balance <= SUM_CAP,
        ensures
            r.internal_balance as int == scope_sum(
                *self,
                userid,
                timephase,
                accountid,
                None,
                Purpose::All,
            ),
            r.external_balance == external_balance,
            r.difference as int == external_balance as int - r.internal_balance as int,
            r.good <==> crate::trend::abs_of(r.difference as int) <= RECONCILE_TOLERANCE,
            external_balance == r.internal_balance ==> r.good,
            r.good ==> r.suspicous_entry@.len() == 0,
            !r.good && top_k == 0 ==> r.suspicous_entry@.len() == 0,
            !r.good && top_k > 0 ==> exists|ord: Seq<int>|
                suspect_selection(
                    *self,
                    userid,
                    accountid,
                    timephase,
                    r.difference as int,
                    top_k as int,
                    ord,
                ) && r.suspicous_entry@.len() == ord.len() && (forall|i: int|
                    0 <= i < ord.len() ==> #[trigger] r.suspicous_entry@[i] == self.entry@[ord[i]]),
    {
        let internal_ban = self.month_summary(
            userid,
            timephase.0.0,
            timephase.0.1,
            accountid,
            None,
            None,
            Some(timephase),
        );
        let diff = external_balance - internal_ban;
        let ad = if diff < 0 {
            -diff
        } else {
            diff
        };
        if ad <= RECONCILE_TOLERANCE {
            ReconcileResult {
                good: true,
                internal_balance: internal_ban,
                external_balance,
                difference: diff,
                suspicous_entry: Vec::new(),
            }
        } else {
            let cad = self.reconcile_supicous_entry(userid, accountid, timephase, diff, top_k);
            ReconcileResult {
                good: false,
                internal_balance: internal_ban,
                external_balance,
                difference: diff,
                suspicous_entry: cad,
            }
        }
    }
}

} // verus!
