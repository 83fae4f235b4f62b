//! What the results area of each screen shows, derived from the application
//! state: a loading notice, an error, the fetched list, or nothing. The
//! precedence is fixed: loading beats error beats results beats empty.

use vstd::prelude::*;
use crate::models::Match;
use crate::models::TopMatch;
use crate::state::AppState;

verus! {

/// The state of the results area on the Search screen.
pub enum ResultsState<'a> {
    Loading,
    Error(&'a str),
    Matches(&'a [Match]),
    Empty,
}

/// The state of the results area on the TopMatches screen.
pub enum TopMatchesState<'a> {
    Loading,
    Error(&'a str),
    Matches { matches: &'a [TopMatch], selected_index: usize },
    Empty,
}

/// Picks what the Search results area shows: the loading notice while a
/// fetch is in flight, else the error if one is set, else the fetched
/// matches if any, else nothing.
pub fn results_state<'a>(app: &'a AppState) -> (r: ResultsState<'a>)
    ensures
        match r {
            ResultsState::Loading => app.is_loading,
            ResultsState::Error(e) => !app.is_loading && (app.error_message matches Some(m)
                && e@ == m@),
            ResultsState::Matches(ms) => !app.is_loading && app.error_message is None && ms@
                == app.matches@ && ms@.len() > 0,
            ResultsState::Empty => !app.is_loading && app.error_message is None
                && app.matches@.len() == 0,
        },
{
    if app.is_loading {
        ResultsState::Loading
    } else if let Some(err) = &app.error_message {
        ResultsState::Error(err.as_str())
    } else if app.matches.len() > 0 {
        ResultsState::Matches(app.matches.as_slice())
    } else {
        ResultsState::Empty
    }
}

/// Picks what the TopMatches results area shows, with the same precedence;
/// a non-empty list comes with the cursor position to highlight.
pub fn top_matches_state<'a>(app: &'a AppState) -> (r: TopMatchesState<'a>)
    ensures
        match r {
            TopMatchesState::Loading => app.is_loading,
            TopMatchesState::Error(e) => !app.is_loading && (app.error_message matches Some(
                m,
            ) && e@ == m@),
            TopMatchesState::Matches { matches: ms, selected_index: sel } => !app.is_loading
                && app.error_message is None && ms@ == app.top_matches@ && ms@.len() > 0 && sel
                == app.selected_top_match_index,
            TopMatchesState::Empty => !app.is_loading && app.error_message is None
                && app.top_matches@.len() == 0,
        },
{
    if app.is_loading {
        TopMatchesState::Loading
    } else if let Some(err) = &app.error_message {
        TopMatchesState::Error(err.as_str())
    } else if app.top_matches.len() > 0 {
        TopMatchesState::Matches {
            matches: app.top_matches.as_slice(),
            selected_index: app.selected_top_match_index,
        }
    } else {
        TopMatchesState::Empty
    }
}

} // verus!
