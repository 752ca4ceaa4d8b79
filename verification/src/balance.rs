//! The all-time account balances: for display only, independent of the
//! windowed aggregation. The displayed balance of an account is its
//! opening balance plus every posting on it, unbounded in time.

use vstd::prelude::*;

use crate::datatype::{
    Account, AccountId, AccountType, Currency, Entry, Money, AMOUNT_LIMIT, SUM_CAP,
};
use crate::ledger::{w_amount, Ledger};
use crate::sums::wsum;

verus! {

/// One row of the all-accounts display: the account's identity and its
/// all-time balance.
#[derive(Debug)]
pub struct AccountSummary {
    pub accountid: AccountId,
    pub name: String,
    pub account_type: AccountType,
    pub balance: Money,
    pub currency: Currency,
}

/// The first account in the list carrying the given id, if any.
pub open spec fn acct_first(accounts: Seq<Account>, aid: AccountId) -> Option<Account>
    decreases accounts.len(),
{
    if accounts.len() == 0 {
        None
    } else if accounts[0].id == aid {
        Some(accounts[0])
    } else {
        acct_first(accounts.drop_first(), aid)
    }
}

proof fn lemma_acct_first_at(accounts: Seq<Account>, i: int)
    requires
        0 <= i < accounts.len(),
        forall|j: int| 0 <= j < i ==> (#[trigger] accounts[j]).id != accounts[i].id,
    ensures
        acct_first(accounts, accounts[i].id) == Some(accounts[i]),
    decreases i,
{
    if i > 0 {
        lemma_acct_first_at(accounts.drop_first(), i - 1);
    }
}

proof fn lemma_acct_first_none(accounts: Seq<Account>, aid: AccountId)
    requires
        forall|j: int| 0 <= j < accounts.len() ==> (#[trigger] accounts[j]).id != aid,
    ensures
        acct_first(accounts, aid) == None::<Account>,
    decreases accounts.len(),
{
    if accounts.len() > 0 {
        lemma_acct_first_none(accounts.drop_first(), aid);
    }
}

/// The entry is posted on the given account (any user, any time).
pub open spec fn on_account(aid: AccountId) -> spec_fn(Entry) -> bool {
    |e: Entry| e.accountid == aid
}

/// The displayed all-time balance of an account: its opening balance
/// (zero when the account is unknown) plus every posting on it, unbounded
/// in time and user.
pub open spec fn balance_spec(l: Ledger, aid: AccountId) -> int {
    let opening = match acct_first(l.account@, aid) {
        Some(a) => a.balance as int,
        None => 0,
    };
    opening + wsum(l.entry@, on_account(aid), w_amount())
}

impl Ledger {
    /// The current displayed balance of an account: its opening balance
    /// plus the sum of all postings on it, across all time.
    #[verifier::loop_isolation(false)]
    pub fn cal_balance(&self, accountid: AccountId) -> (r: Money)
        requires
            self.wf(),
        ensures
            r as int == balance_spec(*self, accountid),
            -(2 * SUM_CAP) <= r <= 2 * SUM_CAP,
    {
        let an = self.account.len();
        let mut current: Money = 0;
        let mut i: usize = 0;
        let mut found = false;
        while i < an && !found
            invariant
                i <= an,
                !found ==> current == 0 && forall|j: int|
                    0 <= j < i ==> (#[trigger] self.account@[j]).id != accountid,
                found ==> exists|j: int|
                    0 <= j < i && (#[trigger] self.account@[j]).id == accountid && (forall|j2: int|
                        0 <= j2 < j ==> (#[trigger] self.account@[j2]).id != accountid)
                        && current == self.account@[j].balance,
            decreases an - i,
        {
            if self.account[i].id == accountid {
                current = self.account[i].balance;
                found = true;
            }
            i = i + 1;
        }
        proof {
            if found {
                let j = choose|j: int|
                    0 <= j < i && (#[trigger] self.account@[j]).id == accountid && (forall|j2: int|
                        0 <= j2 < j ==> (#[trigger] self.account@[j2]).id != accountid)
                        && current == self.account@[j].balance;
                lemma_acct_first_at(self.account@, j);
            } else {
                lemma_acct_first_none(self.account@, accountid);
            }
            assert(-AMOUNT_LIMIT <= current <= AMOUNT_LIMIT);
        }
        let en = self.entry.len();
        let ghost p = on_account(accountid);
        let mut temp: Money = 0;
        let mut j: usize = 0;
        proof {
            vstd::arithmetic::mul::lemma_mul_inequality(
                en as int,
                usize::MAX as int,
                AMOUNT_LIMIT as int,
            );
        }
        while j < en
            invariant
                j <= en,
                temp as int == wsum(self.entry@.take(j as int), p, w_amount()),
                -(j as int) * AMOUNT_LIMIT <= temp as int <= (j as int) * AMOUNT_LIMIT,
            decreases en - j,
        {
            let e = &self.entry[j];
            proof {
                crate::sums::lemma_wsum_take_step(self.entry@, p, w_amount(), j as int);
            }
            if e.accountid == accountid {
                temp = temp + e.amount;
            }
            j = j + 1;
        }
        proof {
            assert(self.entry@.take(en as int) =~= self.entry@);
            vstd::arithmetic::mul::lemma_mul_inequality(
                en as int,
                usize::MAX as int,
                AMOUNT_LIMIT as int,
            );
            assert(usize::MAX as int * (AMOUNT_LIMIT as int) <= SUM_CAP);
        }
        current + temp
    }

    /// One display row per stored account, in store order, each carrying
    /// the account's identity and its all-time balance.
    #[verifier::loop_isolation(false)]
    pub fn all_account_summary(&self) -> (r: Vec<AccountSummary>)
        requires
            self.wf(),
        ensures
            r@.len() == self.account@.len(),
            forall|i: int|
                0 <= i < r@.len() ==> {
                    let a = self.account@[i];
                    (#[trigger] r@[i]).accountid == a.id && r@[i].name == a.name && r@[i].account_type
                        == a.account_type && r@[i].currency == a.currency && r@[i].balance as int
                        == balance_spec(*self, a.id)
                },
    {
        let an = self.account.len();
        let mut result: Vec<AccountSummary> = Vec::new();
        let mut i: usize = 0;
        while i < an
            invariant
                i <= an,
                result@.len() == i,
                forall|t: int|
                    0 <= t < i ==> {
                        let a = self.account@[t];
                        (#[trigger] result@[t]).accountid == a.id && result@[t].name == a.name
                            && result@[t].account_type == a.account_type && result@[t].currency
                            == a.currency && result@[t].balance as int == balance_spec(*self, a.id)
                    },
            decreases an - i,
        {
            let a = &self.account[i];
            let balance = self.cal_balance(a.id);
            result.push(
                AccountSummary {
                    accountid: a.id,
                    name: a.name.clone(),
                    account_type: dup_account_type(&a.account_type),
                    balance,
                    currency: Currency(a.currency.0.clone()),
                },
            );
            i = i + 1;
        }
        result
    }
}

/// An exact copy of an account type, field for field.
fn dup_account_type(a: &AccountType) -> (r: AccountType)
    ensures
        r == *a,
{
    match a {
        AccountType::Checking => AccountType::Checking,
        AccountType::Credit => AccountType::Credit,
        AccountType::Cash => AccountType::Cash,
        AccountType::Other(s) => AccountType::Other(s.clone()),
    }
}

} // verus!
