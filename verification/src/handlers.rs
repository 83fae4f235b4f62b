//! The key router and the action dispatcher.
//!
//! `handle_key_event` translates one key press into an in-place state
//! mutation plus at most one emitted `Action` and at most one requested
//! persist of the favorite team; `handle_action` applies one queued `Action`
//! to the state and says whether a fetch task must be spawned. Both preserve
//! the state invariant, and their contracts pin every field of the state
//! after the call.

use vstd::prelude::*;
use crate::app::Action;
use crate::grid::NavDir;
use crate::grid::navigate;
use crate::grid::navigate_spec;
use crate::models::KeyCode;
use crate::models::KeyEvent;
use crate::models::ViewMode;
use crate::providers::ProviderId;
use crate::state::AppState;
use crate::text::dec_str;
use crate::text::first_team_of;
use crate::text::first_team_spec;
use crate::text::pop_char;
use crate::text::push_char;
use crate::text::usize_to_string;

verus! {

/// What one key press produced besides the state mutation: at most one
/// action to enqueue, and whether the favorite team must be persisted (the
/// caller performs the persist and reports its outcome through
/// `apply_save_result`).
pub struct KeyOutcome {
    pub action: Option<Action>,
    pub save_favorite: bool,
}

/// The status line announcing a provider switch.
pub open spec fn switched_message(p: ProviderId) -> Seq<char> {
    "Switched to: "@ + p.country_spec().label_spec() + " ("@ + p.name_spec() + ")"@
}

/// The status line announcing a loaded favorite.
pub open spec fn loaded_message(team: Seq<char>) -> Seq<char> {
    "Loaded favorite: "@ + team
}

/// The status line announcing a saved favorite.
pub open spec fn saved_message(team: Seq<char>) -> Seq<char> {
    "Saved favorite: "@ + team
}

/// The error line surfaced when persisting the favorite fails.
pub open spec fn save_failed_message(e: Seq<char>) -> Seq<char> {
    "Failed to save config: "@ + e
}

/// The status line announcing how many top fixtures arrived.
pub open spec fn found_message(n: int) -> Seq<char> {
    "Found "@ + dec_str(n) + " upcoming matches"@
}

/// The fields no key press ever touches.
pub open spec fn router_frame(a: AppState, b: AppState) -> bool {
    &&& b.matches == a.matches
    &&& b.is_loading == a.is_loading
    &&& b.providers == a.providers
}

/// The whole routing table: given the state before the press and the key,
/// what the state after the press, the emitted action and the persist
/// request must be. Global shortcuts come first; everything else depends on
/// the screen.
pub open spec fn router_spec(
    a: AppState,
    key: KeyEvent,
    b: AppState,
    act: Option<Action>,
    save: bool,
) -> bool {
    if key.ctrl && key.code == KeyCode::Char('c') {
        cycle_provider_spec(a, b, act, save)
    } else {
        match a.view_mode {
            ViewMode::Search => search_router_spec(a, key, b, act, save),
            ViewMode::TopMatches => top_router_spec(a, key, b, act, save),
        }
    }
}

/// The global shortcut: advance the active provider with wraparound and
/// announce the new one.
pub open spec fn cycle_provider_spec(a: AppState, b: AppState, act: Option<Action>, save: bool) -> bool {
    &&& b.current_provider_index == (a.current_provider_index + 1) as int % (
    a.providers.len() as int)
    &&& b.status_message matches Some(m) && m@ == switched_message(
        a.providers[b.current_provider_index as int],
    )
    &&& b.search_input == a.search_input
    &&& b.error_message == a.error_message
    &&& b.exit == a.exit
    &&& b.config == a.config
    &&& b.view_mode == a.view_mode
    &&& b.top_matches == a.top_matches
    &&& b.selected_top_match_index == a.selected_top_match_index
    &&& act is None
    &&& !save
}

/// Everything the Search screen does with a key.
pub open spec fn search_router_spec(
    a: AppState,
    key: KeyEvent,
    b: AppState,
    act: Option<Action>,
    save: bool,
) -> bool {
    match key.code {
        KeyCode::Esc => {
            &&& b == AppState { exit: true, ..a }
            &&& act is None
            &&& !save
        },
        KeyCode::Enter => if a.search_input@.len() > 0 {
            &&& b == AppState { status_message: None, ..a }
            &&& act matches Some(Action::Search(t)) && t@ == a.search_input@
            &&& !save
        } else {
            &&& b == a
            &&& act is None
            &&& !save
        },
        KeyCode::Char(c) => if key.ctrl && c == 't' {
            &&& b.view_mode == ViewMode::TopMatches
            &&& b.error_message is None
            &&& b.status_message matches Some(m) && m@ == "Fetching upcoming top matches..."@
            &&& b.search_input == a.search_input
            &&& b.exit == a.exit
            &&& b.config == a.config
            &&& b.current_provider_index == a.current_provider_index
            &&& b.selected_top_match_index == a.selected_top_match_index
            &&& b.top_matches == a.top_matches
            &&& act matches Some(Action::FetchTopMatches)
            &&& !save
        } else if key.ctrl && c == 's' {
            if a.search_input@.len() > 0 {
                &&& b.config.favorite_team matches Some(t) && t@ == a.search_input@
                &&& b.search_input == a.search_input
                &&& b.error_message == a.error_message
                &&& b.status_message == a.status_message
                &&& b.exit == a.exit
                &&& b.current_provider_index == a.current_provider_index
                &&& b.view_mode == a.view_mode
                &&& b.top_matches == a.top_matches
                &&& b.selected_top_match_index == a.selected_top_match_index
                &&& act is None
                &&& save
            } else {
                &&& b == a
                &&& act is None
                &&& !save
            }
        } else if key.ctrl && c == 'f' {
            match a.config.favorite_team {
                Some(team) => {
                    &&& b.search_input@ == team@
                    &&& b.status_message matches Some(m) && m@ == loaded_message(team@)
                    &&& b.error_message == a.error_message
                    &&& b.exit == a.exit
                    &&& b.config == a.config
                    &&& b.current_provider_index == a.current_provider_index
                    &&& b.view_mode == a.view_mode
                    &&& b.top_matches == a.top_matches
                    &&& b.selected_top_match_index == a.selected_top_match_index
                    &&& act matches Some(Action::Search(t)) && t@ == team@
                    &&& !save
                },
                None => {
                    &&& b.status_message matches Some(m) && m@ == "No favorite team saved."@
                    &&& b.search_input == a.search_input
                    &&& b.error_message == a.error_message
                    &&& b.exit == a.exit
                    &&& b.config == a.config
                    &&& b.current_provider_index == a.current_provider_index
                    &&& b.view_mode == a.view_mode
                    &&& b.top_matches == a.top_matches
                    &&& b.selected_top_match_index == a.selected_top_match_index
                    &&& act is None
                    &&& !save
                },
            }
        } else {
            // a printable character, with or without other modifiers,
            // appends to the input
            &&& b.search_input@ == a.search_input@.push(c)
            &&& b.error_message == a.error_message
            &&& b.status_message == a.status_message
            &&& b.exit == a.exit
            &&& b.config == a.config
            &&& b.current_provider_index == a.current_provider_index
            &&& b.view_mode == a.view_mode
            &&& b.top_matches == a.top_matches
            &&& b.selected_top_match_index == a.selected_top_match_index
            &&& act is None
            &&& !save
        },
        KeyCode::Backspace => {
            &&& b.search_input@ == if a.search_input@.len() > 0 {
                a.search_input@.drop_last()
            } else {
                a.search_input@
            }
            &&& b.error_message == a.error_message
            &&& b.status_message == a.status_message
            &&& b.exit == a.exit
            &&& b.config == a.config
            &&& b.current_provider_index == a.current_provider_index
            &&& b.view_mode == a.view_mode
            &&& b.top_matches == a.top_matches
            &&& b.selected_top_match_index == a.selected_top_match_index
            &&& act is None
            &&& !save
        },
        _ => {
            &&& b == a
            &&& act is None
            &&& !save
        },
    }
}

/// Everything the TopMatches screen does with a key.
pub open spec fn top_router_spec(
    a: AppState,
    key: KeyEvent,
    b: AppState,
    act: Option<Action>,
    save: bool,
) -> bool {
    match key.code {
        KeyCode::Esc => {
            &&& b == AppState { view_mode: ViewMode::Search, status_message: None, error_message: None, ..a }
            &&& act is None
            &&& !save
        },
        KeyCode::Char(c) => if key.ctrl && c == 't' {
            &&& b == AppState { view_mode: ViewMode::Search, status_message: None, error_message: None, ..a }
            &&& act is None
            &&& !save
        } else {
            &&& b == a
            &&& act is None
            &&& !save
        },
        KeyCode::Up => nav_case(a, b, act, save, NavDir::Up),
        KeyCode::Down => nav_case(a, b, act, save, NavDir::Down),
        KeyCode::Left => nav_case(a, b, act, save, NavDir::Left),
        KeyCode::Right => nav_case(a, b, act, save, NavDir::Right),
        KeyCode::Enter => if a.top_matches@.len() > 0 {
            let team = first_team_spec(
                a.top_matches@[a.selected_top_match_index as int].teams@,
            );
            &&& b.search_input@ == team
            &&& b.view_mode == ViewMode::Search
            &&& b.status_message is None
            &&& b.error_message == a.error_message
            &&& b.exit == a.exit
            &&& b.config == a.config
            &&& b.current_provider_index == a.current_provider_index
            &&& b.top_matches == a.top_matches
            &&& b.selected_top_match_index == a.selected_top_match_index
            &&& act matches Some(Action::Search(t)) && t@ == team
            &&& !save
        } else {
            &&& b == a
            &&& act is None
            &&& !save
        },
        _ => {
            &&& b == a
            &&& act is None
            &&& !save
        },
    }
}

/// One arrow key: the cursor moves per the date-grouped grid, everything
/// else stays.
pub open spec fn nav_case(a: AppState, b: AppState, act: Option<Action>, save: bool, dir: NavDir) -> bool {
    &&& b.selected_top_match_index as int == navigate_spec(
        a.top_matches@,
        a.selected_top_match_index as int,
        dir,
    )
    &&& b.search_input == a.search_input
    &&& b.error_message == a.error_message
    &&& b.status_message == a.status_message
    &&& b.exit == a.exit
    &&& b.config == a.config
    &&& b.current_provider_index == a.current_provider_index
    &&& b.view_mode == a.view_mode
    &&& b.top_matches == a.top_matches
    &&& act is None
    &&& !save
}

/// Routes one key press: mutates the state in place and returns the emitted
/// action and persist request, exactly as `router_spec` prescribes.
pub fn handle_key_event(state: &mut AppState, key: KeyEvent) -> (r: KeyOutcome)
    requires
        old(state).wf(),
    ensures
        final(state).wf(),
        router_frame(*old(state), *final(state)),
        router_spec(*old(state), key, *final(state), r.action, r.save_favorite),
{
    if key.ctrl {
        if let KeyCode::Char(c) = key.code {
            if c == 'c' {
                let next = (state.current_provider_index + 1) % state.providers.len();
                state.current_provider_index = next;
                let provider = state.get_current_provider();
                let mut msg = "Switched to: ".to_owned();
                msg.append(provider.country().label().as_str());
                msg.append(" (");
                msg.append(provider.name().as_str());
                msg.append(")");
                proof {
                    assert(msg@ =~= switched_message(provider));
                }
                state.status_message = Some(msg);
                return KeyOutcome { action: None, save_favorite: false };
            }
        }
    }
    match state.view_mode {
        ViewMode::Search => handle_search_key(state, key),
        ViewMode::TopMatches => handle_top_matches_key(state, key),
    }
}

/// The Search screen's share of the routing table.
fn handle_search_key(state: &mut AppState, key: KeyEvent) -> (r: KeyOutcome)
    requires
        old(state).wf(),
        old(state).view_mode == ViewMode::Search,
        !(key.ctrl && key.code == KeyCode::Char('c')),
    ensures
        final(state).wf(),
        router_frame(*old(state), *final(state)),
        search_router_spec(*old(state), key, *final(state), r.action, r.save_favorite),
{
    match key.code {
        KeyCode::Esc => {
            state.exit = true;
            KeyOutcome { action: None, save_favorite: false }
        },
        KeyCode::Enter => {
            if !state.search_input.as_str().is_empty() {
                state.status_message = None;
                let team = state.search_input.clone();
                KeyOutcome { action: Some(Action::Search(team)), save_favorite: false }
            } else {
                KeyOutcome { action: None, save_favorite: false }
            }
        },
        KeyCode::Char(c) => {
            if key.ctrl && c == 't' {
                state.view_mode = ViewMode::TopMatches;
                state.error_message = None;
                state.status_message = Some("Fetching upcoming top matches...".to_owned());
                KeyOutcome { action: Some(Action::FetchTopMatches), save_favorite: false }
            } else if key.ctrl && c == 's' {
                if !state.search_input.as_str().is_empty() {
                    state.config.favorite_team = Some(state.search_input.clone());
                    KeyOutcome { action: None, save_favorite: true }
                } else {
                    KeyOutcome { action: None, save_favorite: false }
                }
            } else if key.ctrl && c == 'f' {
                match &state.config.favorite_team {
                    Some(team) => {
                        let team = team.clone();
                        state.search_input = team.clone();
                        let mut msg = "Loaded favorite: ".to_owned();
                        msg.append(team.as_str());
                        state.status_message = Some(msg);
                        KeyOutcome { action: Some(Action::Search(team)), save_favorite: false }
                    },
                    None => {
                        state.status_message = Some("No favorite team saved.".to_owned());
                        KeyOutcome { action: None, save_favorite: false }
                    },
                }
            } else {
                push_char(&mut state.search_input, c);
                KeyOutcome { action: None, save_favorite: false }
            }
        },
        KeyCode::Backspace => {
            pop_char(&mut state.search_input);
            KeyOutcome { action: None, save_favorite: false }
        },
        _ => KeyOutcome { action: None, save_favorite: false },
    }
}

/// The TopMatches screen's share of the routing table.
fn handle_top_matches_key(state: &mut AppState, key: KeyEvent) -> (r: KeyOutcome)
    requires
        old(state).wf(),
        old(state).view_mode == ViewMode::TopMatches,
        !(key.ctrl && key.code == KeyCode::Char('c')),
    ensures
        final(state).wf(),
        router_frame(*old(state), *final(state)),
        top_router_spec(*old(state), key, *final(state), r.action, r.save_favorite),
{
    match key.code {
        KeyCode::Esc => {
            state.view_mode = ViewMode::Search;
            state.status_message = None;
            state.error_message = None;
            KeyOutcome { action: None, save_favorite: false }
        },
        KeyCode::Char(c) => {
            if key.ctrl && c == 't' {
                state.view_mode = ViewMode::Search;
                state.status_message = None;
                state.error_message = None;
                KeyOutcome { action: None, save_favorite: false }
            } else {
                KeyOutcome { action: None, save_favorite: false }
            }
        },
        KeyCode::Up => {
            nav_step(state, NavDir::Up);
            KeyOutcome { action: None, save_favorite: false }
        },
        KeyCode::Down => {
            nav_step(state, NavDir::Down);
            KeyOutcome { action: None, save_favorite: false }
        },
        KeyCode::Left => {
            nav_step(state, NavDir::Left);
            KeyOutcome { action: None, save_favorite: false }
        },
        KeyCode::Right => {
            nav_step(state, NavDir::Right);
            KeyOutcome { action: None, save_favorite: false }
        },
        KeyCode::Enter => {
            if state.top_matches.len() > 0 {
                let team = first_team_of(state.top_matches[state.selected_top_match_index].teams.as_str());
                state.search_input = team.clone();
                state.view_mode = ViewMode::Search;
                state.status_message = None;
                KeyOutcome { action: Some(Action::Search(team)), save_favorite: false }
            } else {
                KeyOutcome { action: None, save_favorite: false }
            }
        },
        _ => KeyOutcome { action: None, save_favorite: false },
    }
}

/// Recomputes the date grid and moves the cursor one step.
fn nav_step(state: &mut AppState, dir: NavDir)
    requires
        old(state).wf(),
    ensures
        final(state).wf(),
        router_frame(*old(state), *final(state)),
        nav_case(*old(state), *final(state), None, false, dir),
{
    let next = navigate(&state.top_matches, state.selected_top_match_index, dir);
    state.selected_top_match_index = next;
}

/// Reports the outcome of persisting the favorite team, after a key press
/// requested it: on success the status line announces the saved favorite;
/// on failure the error line carries the failure text and the status line
/// stays as it was.
pub fn apply_save_result(state: &mut AppState, error: Option<String>)
    requires
        old(state).wf(),
    ensures
        final(state).wf(),
        match error {
            None => {
                &&& final(state).status_message matches Some(m) && m@ == saved_message(
                    old(state).search_input@,
                )
                &&& final(state).error_message == old(state).error_message
            },
            Some(e) => {
                &&& final(state).error_message matches Some(m) && m@ == save_failed_message(e@)
                &&& final(state).status_message == old(state).status_message
            },
        },
        final(state).search_input == old(state).search_input,
        final(state).matches == old(state).matches,
        final(state).is_loading == old(state).is_loading,
        final(state).exit == old(state).exit,
        final(state).config == old(state).config,
        final(state).providers == old(state).providers,
        final(state).current_provider_index == old(state).current_provider_index,
        final(state).view_mode == old(state).view_mode,
        final(state).top_matches == old(state).top_matches,
        final(state).selected_top_match_index == old(state).selected_top_match_index,
{
    match error {
        None => {
            let mut msg = "Saved favorite: ".to_owned();
            msg.append(state.search_input.as_str());
            state.status_message = Some(msg);
        },
        Some(e) => {
            let mut msg = "Failed to save config: ".to_owned();
            msg.append(e.as_str());
            state.error_message = Some(msg);
        },
    }
}

/// Applies one queued action to the state and says whether the caller must
/// spawn a fetch task for it. `Search` and `FetchTopMatches` flip the
/// loading flag, clear the error and empty the respective results before
/// the spawn is requested; the three completion actions clear the loading
/// flag and store what arrived.
pub fn handle_action(state: &mut AppState, action: Action) -> (spawn: bool)
    requires
        old(state).wf(),
    ensures
        final(state).wf(),
        final(state).search_input == old(state).search_input,
        final(state).exit == old(state).exit,
        final(state).config == old(state).config,
        final(state).providers == old(state).providers,
        final(state).current_provider_index == old(state).current_provider_index,
        final(state).view_mode == old(state).view_mode,
        match action {
            Action::Search(_) => {
                &&& final(state).is_loading
                &&& final(state).error_message is None
                &&& final(state).matches@.len() == 0
                &&& final(state).status_message == old(state).status_message
                &&& final(state).top_matches == old(state).top_matches
                &&& final(state).selected_top_match_index == old(
                    state,
                ).selected_top_match_index
                &&& spawn
            },
            Action::MatchesFound(ms) => {
                &&& !final(state).is_loading
                &&& final(state).matches == ms
                &&& final(state).error_message == old(state).error_message
                &&& final(state).status_message == old(state).status_message
                &&& final(state).top_matches == old(state).top_matches
                &&& final(state).selected_top_match_index == old(
                    state,
                ).selected_top_match_index
                &&& !spawn
            },
            Action::Error(e) => {
                &&& !final(state).is_loading
                &&& final(state).error_message matches Some(m) && m@ == e.message_spec()
                &&& final(state).matches == old(state).matches
                &&& final(state).status_message == old(state).status_message
                &&& final(state).top_matches == old(state).top_matches
                &&& final(state).selected_top_match_index == old(
                    state,
                ).selected_top_match_index
                &&& !spawn
            },
            Action::FetchTopMatches => {
                &&& final(state).is_loading
                &&& final(state).error_message is None
                &&& final(state).top_matches@.len() == 0
                &&& final(state).selected_top_match_index == 0
                &&& final(state).matches == old(state).matches
                &&& final(state).status_message == old(state).status_message
                &&& spawn
            },
            Action::TopMatchesFound(ts) => {
                &&& !final(state).is_loading
                &&& final(state).top_matches == ts
                &&& final(state).selected_top_match_index == 0
                &&& final(state).status_message matches Some(m) && m@ == found_message(
                    ts@.len() as int,
                )
                &&& final(state).matches == old(state).matches
                &&& final(state).error_message == old(state).error_message
                &&& !spawn
            },
        },
{
    match action {
        Action::Search(_team) => {
            state.is_loading = true;
            state.error_message = None;
            state.matches = Vec::new();
            true
        },
        Action::MatchesFound(ms) => {
            state.is_loading = false;
            state.matches = ms;
            false
        },
        Action::Error(e) => {
            state.is_loading = false;
            state.error_message = Some(e.message());
            false
        },
        Action::FetchTopMatches => {
            state.is_loading = true;
            state.error_message = None;
            state.top_matches = Vec::new();
            state.selected_top_match_index = 0;
            true
        },
        Action::TopMatchesFound(ts) => {
            state.is_loading = false;
            let n = ts.len();
            state.top_matches = ts;
            state.selected_top_match_index = 0;
            let mut msg = "Found ".to_owned();
            let num = usize_to_string(n);
            msg.append(num.as_str());
            msg.append(" upcoming matches");
            proof {
                assert(msg@ =~= found_message(n as int));
            }
            state.status_message = Some(msg);
            false
        },
    }
}

} // verus!
