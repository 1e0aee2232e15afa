//! An in-memory accounting store: general ledgers, ledger accounts, journals,
//! journal transactions and their posting to the ledgers, accounting periods,
//! and the repository interfaces that storage back ends implement.
pub mod calendar;
pub mod domain;
pub mod entity;
pub mod error;
pub mod ids;
pub mod laws;
pub mod memory_store;
pub mod orm;
pub mod posting;
pub mod search_domain;
pub mod table;
pub mod text;

pub use error::OrmError;
