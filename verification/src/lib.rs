//! A ledger of customer accounts, driven by deposits, withdrawals,
//! disputes, resolves and chargebacks.
//!
//! - [`amount`]: amounts of money, with at most four fractional digits;
//!   [`decimal`] does their arithmetic.
//! - [`transaction_request`]: the requests and the dispute state of a
//!   transaction.
//! - [`customer_account_provider`] and [`transaction_history_provider`]:
//!   the two stores, each a trait with a store in memory.
//! - [`ledger`]: what the stores hold and what each request makes of it,
//!   as mathematics.
//! - [`transactions_manager`]: the processor, which carries requests out
//!   on the stores as [`ledger`] says.
//! - [`theorems`] and [`soundness`]: what holds of the ledger whatever the
//!   requests are.
//! - [`transaction_requests_reader`]: what prepares records for the ledger.

pub mod amount;
pub mod common_types;
pub mod customer_account_provider;
pub mod decimal;
pub mod ledger;
pub mod soundness;
pub mod theorems;
pub mod transaction_history_provider;
pub mod transaction_request;
pub mod transaction_requests_reader;
pub mod transactions_manager;
