//! Interactive fixture-lookup engine: an action-driven state machine for a
//! terminal tool that searches televised football fixtures and browses a
//! day-grouped list of marquee upcoming fixtures.
//!
//! The library holds the verified core: the application state and its
//! invariants, the closed set of actions and how each mutates the state, the
//! screen-aware key router, the pluggable-provider registry, and the
//! two-dimensional date-grouped navigation over the top-fixture list.
//! Terminal rendering, network fetching and the per-site scrapers live
//! outside the library, behind the interfaces defined here.

pub mod app;
pub mod config;
pub mod error;
pub mod french;
pub mod grid;
pub mod handlers;
pub mod models;
pub mod providers;
pub mod state;
pub mod text;
pub mod ui_state;

use vstd::prelude::*;

verus! {

} // verus!
