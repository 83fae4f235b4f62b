//! The persisted user configuration: at most one favorite team. Loading and
//! saving the backing file is the job of an outside collaborator; the library
//! only owns the value and its defaults.

use vstd::prelude::*;

verus! {

/// The user's configuration. A fresh one has no favorite team.
#[derive(Debug, Clone, PartialEq)]
pub struct Config {
    pub favorite_team: Option<String>,
}

impl Default for Config {
    /// The configuration used when nothing was persisted: no favorite team.
    fn default() -> (r: Config)
        ensures
            r.favorite_team is None,
    {
        Config { favorite_team: None }
    }
}

} // verus!
