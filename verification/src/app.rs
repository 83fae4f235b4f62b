//! The closed set of actions: the only channel through which work requests
//! and asynchronous fetch results enter the single-threaded state.

use vstd::prelude::*;
use crate::error::AppError;
use crate::models::Match;
use crate::models::TopMatch;

verus! {

/// A tagged message for the dispatch loop. `Search` and `FetchTopMatches`
/// request a fetch (they are the only variants that may trigger a spawned
/// task); the others are pure state transitions carrying a fetch outcome.
#[derive(Debug, Clone, PartialEq)]
pub enum Action {
    Search(String),
    MatchesFound(Vec<Match>),
    Error(AppError),
    FetchTopMatches,
    TopMatchesFound(Vec<TopMatch>),
}

} // verus!
