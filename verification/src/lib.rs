//! Settlement accounting for pooled-entry gaming: the data model of pools,
//! pool types, teams and fees, an in-memory snapshot of the record store, and
//! the read-side queries that say what each gamer is still owed.
//!
//! Every query is a function of a store snapshot and its arguments. Nothing
//! here writes to a store or moves funds.
//!
//! - `state`: the records and their views;
//! - `keys`, `table`, `store`: the order of keys, a table sorted by key, and
//!   the snapshot with one table for each kind of record;
//! - `amount`, `fees`: checked arithmetic on amounts and the fee engine;
//! - `series`, `settlement`: sums over sequences, and what a gamer is owed;
//! - `query`: the queries;
//! - `laws`: what holds of the queries on every snapshot;
//! - `error`: the failures.

pub mod amount;
pub mod error;
pub mod fees;
pub mod keys;
pub mod laws;
pub mod query;
pub mod series;
pub mod settlement;
pub mod state;
pub mod store;
pub mod table;
