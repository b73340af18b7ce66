//! Order lifecycle and loyalty-ledger engine for a storefront backend.
//!
//! The library covers the parts of the backend with real invariants:
//! minting compact, sortable, unique identifiers under a shared counter;
//! resolving a loyalty tier from a points balance and configured thresholds;
//! reserving inventory so that stock never goes negative; and executing
//! order creation and status transitions as all-or-nothing updates of an
//! in-memory model of the relational store. The HTTP handlers, database
//! driver and mail transport stay outside; they hand the engine plain
//! values and apply the effects it returns.

pub mod auth;
pub mod cart;
pub mod catalog;
pub mod codec;
pub mod contact;
pub mod lifecycle;
pub mod money;
pub mod orders;
pub mod reviews;
pub mod settings;
pub mod store;
pub mod suid;
pub mod tier;

pub use tier::Tier;
