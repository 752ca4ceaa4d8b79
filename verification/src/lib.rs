//! A personal ledger analytics engine.
//!
//! The library owns a flat, append-only collection of monetary postings
//! (entries grouped into dated transactions against accounts and optional
//! categories) and computes derived views over it: per-month rollups keyed
//! by category, account and their pair; windowed scalar summaries; per-month
//! time series; cross-month per-entity breakdowns; top-K rankings; percentage
//! normalization; and a reconciliation of the computed balance against an
//! externally reported one, with a ranked list of entries that best explain
//! any gap.
//!
//! All amounts are fixed-point integers in minor currency units (cents), so
//! every aggregate is exact; the reconciliation tolerance is one cent.

pub mod advisor;
pub mod api;
pub mod balance;
pub mod datatype;
pub mod ledger;
pub mod months;
pub mod query;
pub mod reconcile;
pub mod stats;
pub mod sums;
pub mod trend;
pub mod tui;
