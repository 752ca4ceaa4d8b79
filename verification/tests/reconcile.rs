use ledgerstat::datatype::{Date, Entry, Transaction, User};
use ledgerstat::ledger::Ledger;

fn entry(id: i64, userid: u128, tranid: u128, accountid: i64, amount: i128) -> Entry {
    Entry { id, userid, tranid, accountid, categoryid: None, amount, desc: None }
}

fn tx(id: u128, userid: u128, year: i32, month: u32, day: u32) -> Transaction {
    Transaction {
        id,
        userid,
        occur_date: Date { year, month, day },
        receiver: None,
        desc: None,
    }
}

fn small_ledger() -> Ledger {
    let uid: u128 = 3;
    Ledger {
        user: vec![User { id: uid, email: String::from("u@example.com") }],
        account: vec![],
        category: vec![],
        transaction: vec![tx(1, uid, 2025, 12, 1), tx(2, uid, 2025, 12, 2), tx(3, uid, 2025, 12, 3)],
        entry: vec![
            entry(1, uid, 1, 1, -5000),
            entry(2, uid, 2, 1, -70000),
            entry(3, uid, 3, 2, -1000),
        ],
    }
}

#[test]
fn reconcile_exact_match_is_good() {
    // with the external balance exactly the internal one, the books are
    // good and no candidates are reported
    let l = small_ledger();
    let internal = l.month_summary(3, 0, 1, None, None, None, Some(((2025, 12), (2025, 12))));
    let r = l.reconcile(3, None, internal, ((2025, 12), (2025, 12)), 10);
    assert!(r.good);
    assert_eq!(r.difference, 0);
    assert_eq!(r.internal_balance, internal);
    assert_eq!(r.external_balance, internal);
    assert!(r.suspicous_entry.is_empty());
}

#[test]
fn reconcile_within_one_cent_is_good() {
    let l = small_ledger();
    let internal = -76000;
    let r = l.reconcile(3, None, internal + 1, ((2025, 12), (2025, 12)), 10);
    assert!(r.good);
    let r2 = l.reconcile(3, None, internal - 1, ((2025, 12), (2025, 12)), 10);
    assert!(r2.good);
    let r3 = l.reconcile(3, None, internal + 2, ((2025, 12), (2025, 12)), 10);
    assert!(!r3.good);
}

#[test]
fn reconcile_mismatch_ranks_by_distance_from_gap() {
    // external 100.00 above internal: the difference is +10000 cents and
    // each entry scores |difference - amount|; the -10.00 latte is the
    // closest single explanation among the three expenses
    let l = small_ledger();
    let internal = l.month_summary(3, 0, 1, None, None, None, Some(((2025, 12), (2025, 12))));
    assert_eq!(internal, -76000);
    let r = l.reconcile(3, None, internal + 10000, ((2025, 12), (2025, 12)), 10);
    assert!(!r.good);
    assert_eq!(r.difference, 10000);
    assert_eq!(r.suspicous_entry.len(), 3);
    assert_eq!(r.suspicous_entry[0].id, 3);
    assert_eq!(r.suspicous_entry[1].id, 1);
    assert_eq!(r.suspicous_entry[2].id, 2);
}

#[test]
fn reconcile_perfect_single_explanation_wins() {
    let mut l = small_ledger();
    l.transaction.push(tx(4, 3, 2025, 12, 9));
    l.entry.push(entry(4, 3, 4, 1, -12345));
    let internal = l.month_summary(3, 0, 1, None, None, None, Some(((2025, 12), (2025, 12))));
    // the gap equals one entry's amount exactly: that entry scores zero
    let r = l.reconcile(3, None, internal + -12345, ((2025, 12), (2025, 12)), 1);
    assert!(!r.good);
    assert_eq!(r.suspicous_entry.len(), 1);
    assert_eq!(r.suspicous_entry[0].id, 4);
}

#[test]
fn reconcile_top_k_cuts_and_zero_returns_none() {
    let l = small_ledger();
    let r = l.reconcile(3, None, 0, ((2025, 12), (2025, 12)), 2);
    assert!(!r.good);
    assert_eq!(r.suspicous_entry.len(), 2);
    let r0 = l.reconcile(3, None, 0, ((2025, 12), (2025, 12)), 0);
    assert!(r0.suspicous_entry.is_empty());
}

#[test]
fn reconcile_account_filter_limits_candidates() {
    let l = small_ledger();
    let r = l.reconcile(3, Some(2), 50000, ((2025, 12), (2025, 12)), 10);
    assert!(!r.good);
    assert_eq!(r.internal_balance, -1000);
    assert_eq!(r.suspicous_entry.len(), 1);
    assert_eq!(r.suspicous_entry[0].id, 3);
}

#[test]
fn reconcile_score_ties_go_to_earlier_entry() {
    let uid: u128 = 5;
    let l = Ledger {
        user: vec![User { id: uid, email: String::from("t@example.com") }],
        account: vec![],
        category: vec![],
        transaction: vec![tx(1, uid, 2025, 7, 1), tx(2, uid, 2025, 7, 2)],
        // both entries sit 500 cents from the gap, one on each side
        entry: vec![entry(1, uid, 1, 1, 1500), entry(2, uid, 2, 1, 2500)],
    };
    let internal = 4000;
    let r = l.reconcile(uid, None, internal + 2000, ((2025, 7), (2025, 7)), 2);
    assert!(!r.good);
    assert_eq!(r.suspicous_entry[0].id, 1);
    assert_eq!(r.suspicous_entry[1].id, 2);
}
