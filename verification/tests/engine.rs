use ledgerstat::datatype::{Account, AccountType, Category, Currency, Date, Entry, Transaction, User};
use ledgerstat::ledger::Ledger;
use ledgerstat::stats::{Detailstats, Purpose};

fn entry(
    id: i64,
    userid: u128,
    tranid: u128,
    accountid: i64,
    categoryid: Option<i64>,
    amount: i128,
) -> Entry {
    Entry { id, userid, tranid, accountid, categoryid, amount, desc: None }
}

fn tx(id: u128, userid: u128, year: i32, month: u32, day: u32) -> Transaction {
    Transaction {
        id,
        userid,
        occur_date: Date { year, month, day },
        receiver: None,
        desc: None,
    }
}

fn account(id: i64, userid: u128, name: &str, balance: i128) -> Account {
    Account {
        id,
        userid,
        name: String::from(name),
        account_type: AccountType::Checking,
        currency: Currency(String::from("CAD")),
        balance,
    }
}

/// Three December 2025 expenses for one user: groceries and rent from
/// chequing, a coffee on credit. Amounts in cents.
fn december_ledger() -> Ledger {
    let uid: u128 = 7;
    Ledger {
        user: vec![User { id: uid, email: String::from("demo@example.com") }],
        account: vec![account(1, uid, "Chequing", 100000), account(2, uid, "Credit", 0)],
        category: vec![
            Category { id: 1, userid: uid, name: String::from("Food"), parentid: None },
            Category { id: 2, userid: uid, name: String::from("Rent"), parentid: None },
        ],
        transaction: vec![tx(101, uid, 2025, 12, 1), tx(102, uid, 2025, 12, 2), tx(103, uid, 2025, 12, 3)],
        entry: vec![
            entry(1, uid, 101, 1, Some(1), -5000),
            entry(2, uid, 102, 1, Some(2), -70000),
            entry(3, uid, 103, 2, Some(1), -1000),
        ],
    }
}

#[test]
fn three_entry_month_total_spend() {
    // the December scenario: total spending must be exactly -760.00
    let l = december_ledger();
    let spend = l.month_summary(7, 2025, 12, None, None, Some(true), None);
    assert_eq!(spend, -76000);
}

#[test]
fn three_entry_top_category_is_rent() {
    // per-category ranking by outcome magnitude: Rent (-700.00) outranks
    // the combined Food postings (-60.00)
    let l = december_ledger();
    let top = l.top_category(7, ((2025, 12), (2025, 12)), None, 1, Some(true));
    assert_eq!(top.axis.len(), 1);
    assert_eq!(top.axis[0], 2);
    assert_eq!(top.outcome[0], -70000);
}

#[test]
fn month_summary_income_and_net() {
    let mut l = december_ledger();
    l.transaction.push(tx(104, 7, 2025, 12, 15));
    l.entry.push(entry(4, 7, 104, 1, None, 250000));
    let income = l.month_summary(7, 2025, 12, None, None, Some(false), None);
    assert_eq!(income, 250000);
    let net = l.month_summary(7, 2025, 12, None, None, None, None);
    assert_eq!(net, 250000 - 76000);
    let outcome = l.month_summary(7, 2025, 12, None, None, Some(true), None);
    assert_eq!(net, income + outcome);
}

#[test]
fn month_summary_filters() {
    let l = december_ledger();
    // only the chequing account
    let chequing = l.month_summary(7, 2025, 12, Some(1), None, Some(true), None);
    assert_eq!(chequing, -75000);
    // only the Food category
    let food = l.month_summary(7, 2025, 12, None, Some(1), Some(true), None);
    assert_eq!(food, -6000);
    // both at once
    let food_on_credit = l.month_summary(7, 2025, 12, Some(2), Some(1), Some(true), None);
    assert_eq!(food_on_credit, -1000);
    // a category with no postings
    let none = l.month_summary(7, 2025, 12, None, Some(99), Some(true), None);
    assert_eq!(none, 0);
}

#[test]
fn monthstats_contains_every_month_of_range() {
    // completeness: every month of the window appears, even empty ones
    let l = december_ledger();
    let stats = l.monthstats(7, ((2025, 11), (2026, 1)));
    assert_eq!(stats.len(), 3);
    assert_eq!(stats[0].0, (2025, 11));
    assert_eq!(stats[1].0, (2025, 12));
    assert_eq!(stats[2].0, (2026, 1));
    assert_eq!(stats[0].1.summary, 0);
    assert_eq!(stats[1].1.summary, -76000);
    assert_eq!(stats[2].1.income, 0);
}

#[test]
fn monthstats_skips_other_users_and_orphans() {
    let mut l = december_ledger();
    // another user's entry on a shared transaction id space
    l.transaction.push(tx(201, 8, 2025, 12, 5));
    l.entry.push(entry(5, 8, 201, 1, Some(1), -99999));
    // an orphaned entry whose transaction does not exist
    l.entry.push(entry(6, 7, 999, 1, Some(1), -11111));
    let spend = l.month_summary(7, 2025, 12, None, None, Some(true), None);
    assert_eq!(spend, -76000);
}

#[test]
fn entry_on_another_users_transaction_is_an_orphan() {
    // a user-7 entry pointing at a user-8 transaction dated inside the
    // window must not resolve: it is excluded like any other orphan
    let mut l = december_ledger();
    l.transaction.push(tx(202, 8, 2025, 12, 6));
    l.entry.push(entry(5, 7, 202, 1, Some(1), -40000));
    let spend = l.month_summary(7, 2025, 12, None, None, Some(true), None);
    assert_eq!(spend, -76000);
    // and it never shows up among reconciliation candidates either
    let r = l.reconcile(7, None, 0, ((2025, 12), (2025, 12)), 10);
    assert_eq!(r.suspicous_entry.len(), 3);
    assert!(r.suspicous_entry.iter().all(|e| e.id != 5));
}

#[test]
fn linetrend_is_chronological() {
    let mut l = december_ledger();
    l.transaction.push(tx(105, 7, 2026, 1, 10));
    l.entry.push(entry(4, 7, 105, 1, Some(1), 4000));
    let t = l.data_linetrend(7, ((2025, 11), (2026, 1)), None, None);
    assert_eq!(t.axis, vec![(2025, 11), (2025, 12), (2026, 1)]);
    assert_eq!(t.income, vec![0, 0, 4000]);
    assert_eq!(t.outcome, vec![0, -76000, 0]);
    assert_eq!(t.summary, vec![0, -76000, 4000]);
}

#[test]
fn category_pietrend_collects_all_categories() {
    let l = december_ledger();
    let t = l.category_pietrend(7, ((2025, 12), (2025, 12)), None);
    assert_eq!(t.axis, vec![1, 2]);
    assert_eq!(t.outcome, vec![-6000, -70000]);
    // filtering by account keeps the axis but restricts the values
    let t2 = l.category_pietrend(7, ((2025, 12), (2025, 12)), Some(2));
    assert_eq!(t2.axis, vec![1, 2]);
    assert_eq!(t2.outcome, vec![-1000, 0]);
}

#[test]
fn account_pietrend_collects_all_accounts() {
    let l = december_ledger();
    let t = l.account_pietrend(7, ((2025, 12), (2025, 12)), None);
    assert_eq!(t.axis, vec![1, 2]);
    assert_eq!(t.outcome, vec![-75000, -1000]);
    let t2 = l.account_pietrend(7, ((2025, 12), (2025, 12)), Some(2));
    assert_eq!(t2.axis, vec![1, 2]);
    assert_eq!(t2.outcome, vec![-70000, 0]);
}

#[test]
fn top_k_bound() {
    // the ranked axis holds min(k, distinct categories) data points
    let l = december_ledger();
    for k in 1..4usize {
        let t = l.top_category(7, ((2025, 12), (2025, 12)), None, k, Some(true));
        assert_eq!(t.axis.len(), k.min(2));
    }
}

#[test]
fn top_k_zero_is_a_no_op() {
    let l = december_ledger();
    let t = l.top_category(7, ((2025, 12), (2025, 12)), None, 0, Some(true));
    assert_eq!(t.axis.len(), 2);
    assert_eq!(t.axis, vec![1, 2]);
}

#[test]
fn rank_breaks_ties_by_smaller_id() {
    let mut l = december_ledger();
    // give Food another posting so Food and Rent both total -700.00
    l.transaction.push(tx(106, 7, 2025, 12, 20));
    l.entry.push(entry(4, 7, 106, 1, Some(1), -64000));
    let t = l.top_category(7, ((2025, 12), (2025, 12)), None, 2, Some(true));
    assert_eq!(t.outcome, vec![-70000, -70000]);
    assert_eq!(t.axis, vec![1, 2]);
}

#[test]
fn top_account_ranks_by_income() {
    let mut l = december_ledger();
    l.transaction.push(tx(107, 7, 2025, 12, 21));
    l.entry.push(entry(4, 7, 107, 2, None, 300000));
    let t = l.top_account(7, ((2025, 12), (2025, 12)), None, 1, Some(false));
    assert_eq!(t.axis, vec![2]);
    assert_eq!(t.income, vec![300000]);
}

#[test]
fn cal_balance_adds_postings_to_opening() {
    let l = december_ledger();
    assert_eq!(l.cal_balance(1), 100000 - 75000);
    assert_eq!(l.cal_balance(2), -1000);
    // an unknown account has no opening balance and no postings
    assert_eq!(l.cal_balance(77), 0);
}

#[test]
fn all_account_summary_rows() {
    let l = december_ledger();
    let rows = l.all_account_summary();
    assert_eq!(rows.len(), 2);
    assert_eq!(rows[0].accountid, 1);
    assert_eq!(rows[0].name, "Chequing");
    assert_eq!(rows[0].balance, 25000);
    assert_eq!(rows[1].accountid, 2);
    assert_eq!(rows[1].balance, -1000);
}

#[test]
fn demo_ledger_is_consistent() {
    let l = Ledger::build_demo_ledger();
    assert_eq!(l.user.len(), 1);
    let uid = l.user[0].id;
    let spend = l.month_summary(uid, 2025, 12, None, None, Some(true), None);
    assert_eq!(spend, -76000);
    let rows = l.all_account_summary();
    assert_eq!(rows.len(), 2);
    assert_eq!(rows[0].balance, 100000 - 75000);
}

#[test]
fn demo_ledger_top_category_is_rent() {
    let l = Ledger::build_demo_ledger();
    let uid = l.user[0].id;
    let t = l.top_category(uid, ((2025, 12), (2025, 12)), None, 1, Some(true));
    assert_eq!(t.axis, vec![2]);
    assert_eq!(t.outcome, vec![-70000]);
}

#[test]
fn demo_ledger_reconciles() {
    let l = Ledger::build_demo_ledger();
    let uid = l.user[0].id;
    let window = ((2025, 12), (2025, 12));
    let exact = l.reconcile(uid, None, -76000, window, 1);
    assert!(exact.good);
    assert!(exact.suspicous_entry.is_empty());
    // 100.00 above the internal balance: the entry scoring closest to the
    // +10000-cent gap is the -10.00 latte
    let off = l.reconcile(uid, None, -66000, window, 1);
    assert!(!off.good);
    assert_eq!(off.difference, 10000);
    assert_eq!(off.suspicous_entry.len(), 1);
    assert_eq!(off.suspicous_entry[0].id, 3);
    assert_eq!(off.suspicous_entry[0].amount, -1000);
}

#[test]
fn reversed_window_is_empty() {
    let l = december_ledger();
    let stats = l.monthstats(7, ((2026, 1), (2025, 11)));
    assert_eq!(stats.len(), 0);
    let total = l.month_summary(7, 0, 1, None, None, None, Some(((2026, 1), (2025, 11))));
    assert_eq!(total, 0);
}

#[test]
fn year_rollover_in_expansion() {
    let months = ledgerstat::months::expand_month_range(2025, 11, 2026, 1);
    assert_eq!(months, vec![(2025, 11), (2025, 12), (2026, 1)]);
}

#[test]
fn single_month_expansion() {
    let months = ledgerstat::months::expand_month_range(2024, 2, 2024, 2);
    assert_eq!(months, vec![(2024, 2)]);
}

#[test]
fn reversed_expansion_is_empty() {
    let months = ledgerstat::months::expand_month_range(2026, 1, 2025, 11);
    assert!(months.is_empty());
}

#[test]
fn purpose_selects_the_right_scalar() {
    let d = Detailstats { income: 300, outcome: -100, summary: 200 };
    assert_eq!(d.get(Purpose::trans(None)), 200);
    assert_eq!(d.get(Purpose::trans(Some(false))), 300);
    assert_eq!(d.get(Purpose::trans(Some(true))), -100);
}

#[test]
fn empty_ledger_yields_zeros() {
    let l = Ledger::default();
    assert_eq!(l.month_summary(1, 2025, 6, None, None, None, None), 0);
    let stats = l.monthstats(1, ((2025, 5), (2025, 7)));
    assert_eq!(stats.len(), 3);
    assert_eq!(stats[1].1.income, 0);
    let t = l.category_pietrend(1, ((2025, 5), (2025, 7)), None);
    assert!(t.axis.is_empty());
}

#[test]
fn uncategorized_entries_count_in_totals_but_not_in_the_category_axis() {
    let mut l = december_ledger();
    l.transaction.push(tx(108, 7, 2025, 12, 28));
    l.entry.push(entry(4, 7, 108, 1, None, -900));
    let spend = l.month_summary(7, 2025, 12, None, None, Some(true), None);
    assert_eq!(spend, -76900);
    let t = l.category_pietrend(7, ((2025, 12), (2025, 12)), None);
    assert_eq!(t.axis, vec![1, 2]);
    assert_eq!(t.outcome.iter().sum::<i128>(), -76000);
}

#[test]
fn window_spans_multiple_months() {
    let mut l = december_ledger();
    l.transaction.push(tx(109, 7, 2026, 2, 1));
    l.entry.push(entry(4, 7, 109, 1, Some(2), -70000));
    // the window picks up both rent payments
    let rent = l.month_summary(
        7,
        0,
        1,
        None,
        Some(2),
        Some(true),
        Some(((2025, 12), (2026, 2))),
    );
    assert_eq!(rent, -140000);
    // a narrower window sees only the first
    let rent_dec = l.month_summary(7, 2025, 12, None, Some(2), Some(true), None);
    assert_eq!(rent_dec, -70000);
}

#[test]
fn add_months_shifts_and_clamps() {
    assert_eq!(ledgerstat::months::add_months((2025, 1), -1), (2024, 12));
    assert_eq!(ledgerstat::months::add_months((2025, 12), 1), (2026, 1));
    assert_eq!(ledgerstat::months::add_months((2025, 6), -18), (2023, 12));
    // walking past the calendar origin clamps at year zero, January
    assert_eq!(ledgerstat::months::add_months((0, 2), -5), (0, 1));
}
