//! End-to-end scenarios over the router and dispatcher: a navigation
//! sequence over a two-column grid, selection into a search, favorite
//! handling, provider cycling with wraparound, and error surfacing.

use foot_info::app::Action;
use foot_info::error::AppError;
use foot_info::handlers::{handle_action, handle_key_event};
use foot_info::models::{KeyCode, KeyEvent, TopMatch, ViewMode};
use foot_info::state::AppState;

fn top(teams: &str, date: &str, time: &str, url: &str) -> TopMatch {
    TopMatch {
        teams: teams.to_string(),
        date: date.to_string(),
        time: time.to_string(),
        match_url: url.to_string(),
    }
}

#[test]
fn test_navigation_sequence_down_down_right_left() {
    // Four fixtures dated Mon, Mon, Tue, Tue at flat indices 0..3.
    let mut state = AppState::new();
    state.view_mode = ViewMode::TopMatches;
    state.top_matches = vec![
        top("A - B", "Mon", "10:00", "/m/0"),
        top("C - D", "Mon", "11:00", "/m/1"),
        top("E - F", "Tue", "10:00", "/m/2"),
        top("G - H", "Tue", "11:00", "/m/3"),
    ];
    state.selected_top_match_index = 0;

    handle_key_event(&mut state, KeyEvent::plain(KeyCode::Down));
    assert_eq!(state.selected_top_match_index, 1);

    // The Mon column has only two rows; Down again stays.
    handle_key_event(&mut state, KeyEvent::plain(KeyCode::Down));
    assert_eq!(state.selected_top_match_index, 1);

    // Right keeps row 1 in the Tue column: flat index 3.
    handle_key_event(&mut state, KeyEvent::plain(KeyCode::Right));
    assert_eq!(state.selected_top_match_index, 3);

    // Left returns to row 1 of the Mon column: flat index 1.
    handle_key_event(&mut state, KeyEvent::plain(KeyCode::Left));
    assert_eq!(state.selected_top_match_index, 1);
}

#[test]
fn test_enter_on_selection_extracts_first_team() {
    let mut state = AppState::new();
    state.view_mode = ViewMode::TopMatches;
    state.top_matches = vec![top("Arsenal - Chelsea", "Sat 22 Feb 2026", "15:00", "/m/9")];
    state.selected_top_match_index = 0;

    let out = handle_key_event(&mut state, KeyEvent::plain(KeyCode::Enter));
    assert_eq!(state.search_input, "Arsenal");
    assert_eq!(state.view_mode, ViewMode::Search);
    assert!(matches!(out.action, Some(Action::Search(ref t)) if t == "Arsenal"));
}

#[test]
fn test_enter_on_teams_label_without_separator_uses_whole_label() {
    let mut state = AppState::new();
    state.view_mode = ViewMode::TopMatches;
    state.top_matches = vec![top("Arsenal", "Sat", "15:00", "/m/1")];
    state.selected_top_match_index = 0;

    let out = handle_key_event(&mut state, KeyEvent::plain(KeyCode::Enter));
    assert_eq!(state.search_input, "Arsenal");
    assert!(matches!(out.action, Some(Action::Search(ref t)) if t == "Arsenal"));
}

#[test]
fn test_load_favorite_without_favorite_emits_no_action() {
    let mut state = AppState::new();
    state.config.favorite_team = None;
    let out = handle_key_event(&mut state, KeyEvent::ctrl_char('f'));
    assert!(out.action.is_none());
    assert!(state.status_message.as_ref().unwrap().contains("No favorite"));
}

#[test]
fn test_provider_cycle_wraps_from_last_to_first() {
    let mut state = AppState::new();
    assert_eq!(state.providers.len(), 3);
    state.current_provider_index = 2;
    let out = handle_key_event(&mut state, KeyEvent::ctrl_char('c'));
    assert!(out.action.is_none());
    assert_eq!(state.current_provider_index, 0);
}

#[test]
fn test_provider_cycle_status_names_provider() {
    let mut state = AppState::new();
    handle_key_event(&mut state, KeyEvent::ctrl_char('c'));
    assert_eq!(
        state.status_message.as_deref(),
        Some("Switched to: US (WorldSoccerTalk Scraper)")
    );
}

#[test]
fn test_failed_team_not_found_sets_error_with_team_name() {
    let mut state = AppState::new();
    state.is_loading = true;
    let spawn = handle_action(
        &mut state,
        Action::Error(AppError::TeamNotFound("Arsenal".into())),
    );
    assert!(!spawn);
    assert!(!state.is_loading);
    assert!(state.error_message.as_ref().unwrap().contains("Arsenal"));
}

#[test]
fn test_search_clears_results_and_error_before_spawn() {
    let mut state = AppState::new();
    state.error_message = Some("stale".into());
    state.is_loading = false;
    let spawn = handle_action(&mut state, Action::Search("Leeds".into()));
    assert!(spawn, "the spawn request comes only after the state mutation");
    assert!(state.is_loading);
    assert!(state.error_message.is_none());
    assert!(state.matches.is_empty());
}

#[test]
fn test_loading_flag_over_one_fetch_lifecycle() {
    let mut state = AppState::new();
    assert!(!state.is_loading);
    handle_action(&mut state, Action::Search("Leeds".into()));
    assert!(state.is_loading);
    handle_action(&mut state, Action::MatchesFound(vec![]));
    assert!(!state.is_loading);

    handle_action(&mut state, Action::FetchTopMatches);
    assert!(state.is_loading);
    handle_action(&mut state, Action::TopMatchesFound(vec![]));
    assert!(!state.is_loading);
}

#[test]
fn test_top_matches_found_status_counts_results() {
    let mut state = AppState::new();
    let found = vec![
        top("A - B", "Mon", "10:00", "/m/0"),
        top("C - D", "Tue", "11:00", "/m/1"),
    ];
    handle_action(&mut state, Action::TopMatchesFound(found));
    assert_eq!(
        state.status_message.as_deref(),
        Some("Found 2 upcoming matches")
    );
    assert_eq!(state.selected_top_match_index, 0);
}

#[test]
fn test_selection_stays_valid_over_navigation_sequences() {
    let mut state = AppState::new();
    state.view_mode = ViewMode::TopMatches;
    state.top_matches = vec![
        top("A - B", "Mon", "10:00", "/m/0"),
        top("C - D", "Tue", "11:00", "/m/1"),
        top("E - F", "Mon", "12:00", "/m/2"),
    ];
    state.selected_top_match_index = 2;

    let keys = [
        KeyCode::Left,
        KeyCode::Up,
        KeyCode::Right,
        KeyCode::Down,
        KeyCode::Right,
        KeyCode::Left,
        KeyCode::Up,
        KeyCode::Up,
        KeyCode::Down,
    ];
    for k in keys {
        handle_key_event(&mut state, KeyEvent::plain(k));
        assert!(state.selected_top_match_index < state.top_matches.len());
    }
}

#[test]
fn test_top_matches_switch_screen_shortcut_clears_error() {
    let mut state = AppState::new();
    state.view_mode = ViewMode::TopMatches;
    state.error_message = Some("stale error".into());
    state.status_message = Some("stale status".into());

    let out = handle_key_event(&mut state, KeyEvent::ctrl_char('t'));
    assert!(out.action.is_none());
    assert_eq!(state.view_mode, ViewMode::Search);
    assert!(state.status_message.is_none());
    assert!(state.error_message.is_none());
}

#[test]
fn test_top_matches_esc_clears_error() {
    let mut state = AppState::new();
    state.view_mode = ViewMode::TopMatches;
    state.error_message = Some("stale error".into());

    handle_key_event(&mut state, KeyEvent::plain(KeyCode::Esc));
    assert_eq!(state.view_mode, ViewMode::Search);
    assert!(state.error_message.is_none());
    assert!(state.status_message.is_none());
}
