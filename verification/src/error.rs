//! The failures a query can report.

use vstd::prelude::*;

verus! {

/// The kind of record that a lookup expected to find.
#[derive(Clone, Copy, Debug, PartialEq, Eq, Structural)]
pub enum Entity {
    Config,
    FeeWallet,
    PoolType,
    Pool,
    TeamList,
    Team,
    Game,
    GameResultTemplate,
    SwapBalance,
}

/// Why a query failed.
#[derive(Clone, Copy, Debug, PartialEq, Eq, Structural)]
pub enum QueryError {
    /// A record that the query needs is absent from the store.
    NotFound(Entity),
    /// The host rejected the address that was handed to the query.
    InvalidAddress,
    /// An amount or a count left the range of its integer type.
    Overflow,
}

/// What a query answered, read through the view of the record it returned.
/// Contracts state answers in this form, as a function of the snapshot's view
/// and the arguments' views.
pub open spec fn answer<T: DeepView>(r: Result<T, QueryError>) -> Result<T::V, QueryError> {
    match r {
        Ok(value) => Ok(value.deep_view()),
        Err(e) => Err(e),
    }
}

} // verus!
