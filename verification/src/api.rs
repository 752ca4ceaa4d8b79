//! The wire shapes the ledger travels in: authentication payloads, query
//! parameters and row shapes of the HTTP service, and the cloud forms of
//! categories. Plain data; serialization and transport live outside the
//! library.

use vstd::prelude::*;

use crate::datatype::CategoryId;

verus! {

/// The claims carried by an access token: expiry, issue time, and the
/// subject (a user id rendered as text).
#[derive(Debug)]
pub struct Claims {
    pub exp: usize,
    pub iat: usize,
    pub sub: String,
}

/// A registration request: the credentials a new user signs up with.
#[derive(Debug)]
pub struct RegisterReq {
    pub email: String,
    pub password: String,
}

/// A login request: the credentials an existing user signs in with.
#[derive(Debug)]
pub struct LoginReq {
    pub email: String,
    pub password: String,
}

/// The query parameters of the account listing: paging, filters on type
/// and currency, a name search, ordering, and whether balances should be
/// included.
#[derive(Debug)]
pub struct AccountQuery {
    pub limit: Option<i64>,
    pub offset: Option<i64>,
    pub account_type: Option<String>,
    pub currency: Option<String>,
    pub query: Option<String>,
    pub sort: Option<String>,
    pub order: Option<String>,
    pub include_balance: Option<bool>,
}

/// The query parameters of the category listing; same shape as the
/// account listing's.
#[derive(Debug)]
pub struct CategoryQuery {
    pub limit: Option<i64>,
    pub offset: Option<i64>,
    pub account_type: Option<String>,
    pub currency: Option<String>,
    pub query: Option<String>,
    pub sort: Option<String>,
    pub order: Option<String>,
    pub include_balance: Option<bool>,
}

/// The paging parameters of the transaction listing.
#[derive(Debug)]
pub struct ListTxQuery {
    pub limit: Option<i64>,
    pub offset: Option<i64>,
}

/// A request to create one category.
#[derive(Debug)]
pub struct CreateCategoriesReq {
    pub parent_id: Option<CategoryId>,
    pub name: String,
}

/// A category as the service returns it.
#[derive(Debug)]
pub struct CategoriesDto {
    pub id: CategoryId,
    pub parent_id: Option<CategoryId>,
    pub name: String,
}

/// A category as the cloud stores it (the user is implied by the
/// session).
#[derive(Debug)]
pub struct Cloudcategory {
    pub id: CategoryId,
    pub name: String,
    pub parentid: Option<CategoryId>,
}

/// The body of a category creation call to the cloud.
#[derive(Debug)]
pub struct Catreq {
    pub parent_id: Option<CategoryId>,
    pub name: String,
}

} // verus!
