//! The data model of the ledger: identifiers, money, dates, and the five
//! entity kinds (user, account, category, transaction, entry).
//!
//! Money is a fixed-point integer count of minor currency units (cents).
//! Dates carry plain year/month/day fields; the engine only ever reads the
//! year and the month. Identifiers are externally assigned: numeric ids for
//! accounts, categories and entries, and 128-bit ids (UUID values) for users
//! and transactions.

use vstd::prelude::*;

verus! {

pub type UserId = u128;

pub type AccountId = i64;

pub type CategoryId = i64;

pub type TransactionId = u128;

pub type EntryId = i64;

/// An amount of money in minor currency units (cents).
pub type Money = i128;

/// Largest magnitude a single posting or opening balance may have
/// (10^12 cents). With postings capped this way, no aggregate the engine
/// forms can overflow its 128-bit arithmetic.
pub const AMOUNT_LIMIT: i128 = 1_000_000_000_000;

/// Largest magnitude any aggregated sum can reach: no more than
/// `usize::MAX` postings of at most `AMOUNT_LIMIT` each stay below this.
pub const SUM_CAP: i128 = 30_000_000_000_000_000_000_000_000_000_000;

/// Largest calendar year magnitude the engine accepts in a date or a
/// query window; keeps all month arithmetic far from machine bounds.
pub const YEAR_LIMIT: i32 = 100_000;

/// A calendar date as plain fields. The aggregation engine reads only the
/// year and the month; the day tags along for display.
#[derive(Clone, Copy, Debug, PartialEq, Eq, Structural)]
pub struct Date {
    pub year: i32,
    pub month: u32,
    pub day: u32,
}

impl Date {
    /// A well-formed date: a real month, a day in range, a sane year.
    pub open spec fn wf(self) -> bool {
        &&& 1 <= self.month <= 12
        &&& 1 <= self.day <= 31
        &&& -YEAR_LIMIT <= self.year <= YEAR_LIMIT
    }

    pub fn new(year: i32, month: u32, day: u32) -> (r: Date)
        ensures
            r == (Date { year, month, day }),
    {
        Date { year, month, day }
    }
}

/// What uppercasing by the standard library yields for a given character
/// sequence; the result depends on the characters alone.
pub uninterp spec fn upper_of(s: Seq<char>) -> Seq<char>;

/// What lowercasing by the standard library yields for a given character
/// sequence; the result depends on the characters alone.
pub uninterp spec fn lower_of(s: Seq<char>) -> Seq<char>;

/// Relies on str::to_uppercase of std: returns the uppercase equivalent of
/// the input, a pure function of the characters; an empty input stays empty.
#[verifier::external_body]
fn uppercase(s: &str) -> (r: String)
    ensures
        r@ == upper_of(s@),
        s@.len() == 0 ==> r@.len() == 0,
{
    s.to_uppercase()
}

/// Relies on str::to_lowercase of std: returns the lowercase equivalent of
/// the input, a pure function of the characters; an empty input stays empty.
#[verifier::external_body]
fn lowercase(s: &str) -> (r: String)
    ensures
        r@ == lower_of(s@),
        s@.len() == 0 ==> r@.len() == 0,
{
    s.to_lowercase()
}

#[derive(Clone, Debug)]
pub enum AccountType {
    Checking,
    Cash,
    Credit,
    Other(String),
}

/// The account type that a free-form name denotes once lowercased:
/// the three well-known names map to their variants, anything else is
/// `Other` carrying the original text.
pub open spec fn account_type_of(low: Seq<char>, original: String) -> AccountType {
    if low == "checking"@ {
        AccountType::Checking
    } else if low == "credit"@ {
        AccountType::Credit
    } else if low == "cash"@ {
        AccountType::Cash
    } else {
        AccountType::Other(original)
    }
}

impl AccountType {
    /// Classify an already-lowercased type name; `original` is what `Other`
    /// keeps when the name is not one of the well-known three.
    pub fn from_lowered(low: String, original: String) -> (r: AccountType)
        ensures
            r == account_type_of(low@, original),
    {
        if low == String::from_str("checking") {
            AccountType::Checking
        } else if low == String::from_str("credit") {
            AccountType::Credit
        } else if low == String::from_str("cash") {
            AccountType::Cash
        } else {
            AccountType::Other(original)
        }
    }

    /// The wire name of this account type.
    pub fn to_cloud(&self) -> (r: &'static str)
        ensures
            r@ == self.to_cloud_spec(),
    {
        match self {
            AccountType::Checking => "checking",
            AccountType::Credit => "credit",
            AccountType::Cash => "cash",
            AccountType::Other(_) => "other",
        }
    }

    pub open spec fn to_cloud_spec(&self) -> Seq<char> {
        match self {
            AccountType::Checking => "checking"@,
            AccountType::Credit => "credit"@,
            AccountType::Cash => "cash"@,
            AccountType::Other(_) => "other"@,
        }
    }
}

impl From<String> for AccountType {
    /// Case-insensitive classification of a free-form account type name.
    fn from(input: String) -> (r: AccountType) {
        let low = lowercase(input.as_str());
        AccountType::from_lowered(low, input)
    }
}

impl vstd::std_specs::convert::FromSpecImpl<String> for AccountType {
    open spec fn obeys_from_spec() -> bool {
        true
    }

    open spec fn from_spec(input: String) -> AccountType {
        account_type_of(lower_of(input@), input)
    }
}

/// A currency code, stored uppercase.
#[derive(Clone, Debug)]
pub struct Currency(pub String);

impl Currency {
    /// Build a currency from a free-form code, uppercasing it.
    pub fn new(input: &str) -> (r: Self)
        ensures
            r.0@ == upper_of(input@),
    {
        Currency(uppercase(input))
    }
}

#[derive(Debug)]
pub struct User {
    pub id: UserId,
    pub email: String,
}

#[derive(Debug)]
pub struct Account {
    pub id: AccountId,
    pub userid: UserId,
    pub name: String,
    pub account_type: AccountType,
    pub currency: Currency,
    /// The opening balance; the displayed balance is derived by adding all
    /// postings on the account.
    pub balance: Money,
}

#[derive(Debug)]
pub struct Category {
    pub id: CategoryId,
    pub userid: UserId,
    pub name: String,
    pub parentid: Option<CategoryId>,
}

#[derive(Debug)]
pub struct Transaction {
    pub id: TransactionId,
    pub userid: UserId,
    pub occur_date: Date,
    pub receiver: Option<String>,
    pub desc: Option<String>,
}

/// The single monetary fact of the model: a signed posting against one
/// account and an optional category, inside one transaction. A negative
/// amount is an outflow (spending), a non-negative one an inflow.
#[derive(Debug)]
pub struct Entry {
    pub id: EntryId,
    pub userid: UserId,
    pub tranid: TransactionId,
    pub accountid: AccountId,
    pub categoryid: Option<CategoryId>,
    pub amount: Money,
    pub desc: Option<String>,
}

fn dup_opt_string(s: &Option<String>) -> (r: Option<String>)
    ensures
        r == *s,
{
    match s {
        Some(x) => Some(x.clone()),
        None => None,
    }
}

/// An exact copy of an entry, field for field.
pub fn dup_entry(e: &Entry) -> (r: Entry)
    ensures
        r == *e,
{
    Entry {
        id: e.id,
        userid: e.userid,
        tranid: e.tranid,
        accountid: e.accountid,
        categoryid: e.categoryid,
        amount: e.amount,
        desc: dup_opt_string(&e.desc),
    }
}

} // verus!
