//! The errors that the store reports.

use vstd::prelude::*;

verus! {

/// Why a store could not be made.
#[derive(Clone, Copy, Debug, PartialEq, Eq, Structural)]
pub enum ConstructError {
    /// The embedding provider could not be initialised.
    ProviderInit,
    /// There is no file at the path to load from.
    NotFound,
    /// The file to load from could not be parsed.
    Malformed,
}

/// Why a search gave no result.
#[derive(Clone, Copy, Debug, PartialEq, Eq, Structural)]
pub enum SearchError {
    /// The provider could not embed the query.
    Provider,
    /// The scores do not number the stored documents.
    ScoreCount,
}

} // verus!
