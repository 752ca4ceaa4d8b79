use ledgerstat::trend::{Trend, SCALE_UNIT};

fn trend(income: Vec<i128>, outcome: Vec<i128>, summary: Vec<i128>) -> Trend<i64> {
    let axis: Vec<i64> = (0..income.len() as i64).collect();
    Trend { axis, income, outcome, summary }
}

#[test]
fn normalize_turns_values_into_shares() {
    let t = trend(vec![2, 1, 1], vec![-3, 0, -1], vec![-1, 1, 0]);
    let n = t.normalize();
    assert_eq!(n.axis, t.axis);
    // incomes divide by their total 4
    assert_eq!(n.income, vec![500_000, 250_000, 250_000]);
    // outcomes divide by their total -4 and are reported non-negative
    assert_eq!(n.outcome, vec![750_000, 0, 250_000]);
    // the summary total is exactly zero, so that series zeroes out
    assert_eq!(n.summary, vec![0, 0, 0]);
}

#[test]
fn normalize_zero_series_stays_zero() {
    let t = trend(vec![0, 0], vec![0, 0], vec![0, 0]);
    let n = t.normalize();
    assert_eq!(n.income, vec![0, 0]);
    assert_eq!(n.outcome, vec![0, 0]);
    assert_eq!(n.summary, vec![0, 0]);
}

#[test]
fn normalize_truncates_toward_zero() {
    let t = trend(vec![1, 2], vec![-1, -2], vec![1, 2]);
    let n = t.normalize();
    // 1/3 and 2/3 of the unit, truncated
    assert_eq!(n.income, vec![333_333, 666_666]);
    assert_eq!(n.outcome, vec![333_333, 666_666]);
}

#[test]
fn normalize_is_idempotent_on_percentages() {
    // a trend already in shares: every series totals one unit or zero
    let t = trend(
        vec![600_000, 400_000],
        vec![SCALE_UNIT / 2, SCALE_UNIT / 2],
        vec![0, 0],
    );
    let once = t.normalize();
    let twice = once.normalize();
    assert_eq!(once.income, twice.income);
    assert_eq!(once.outcome, twice.outcome);
    assert_eq!(once.summary, twice.summary);
    // and the first application already left the unit-total series alone
    assert_eq!(once.income, vec![600_000, 400_000]);
    assert_eq!(once.outcome, vec![SCALE_UNIT / 2, SCALE_UNIT / 2]);
    assert_eq!(once.summary, vec![0, 0]);
}

#[test]
fn normalize_single_negative_total() {
    // a negative value against a negative total is a positive share
    let t = trend(vec![0], vec![-7], vec![-7]);
    let n = t.normalize();
    assert_eq!(n.income, vec![0]);
    assert_eq!(n.outcome, vec![SCALE_UNIT]);
    assert_eq!(n.summary, vec![SCALE_UNIT]);
}
