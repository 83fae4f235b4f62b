//! Tests of the provider registry and the canned US source.

use foot_info::error::AppError;
use foot_info::models::Country;
use foot_info::providers::{
    MatchsTvProvider, MockUsProvider, ProviderId, WheresTheMatchProvider, WorldSoccerTalkProvider,
};
use foot_info::ui_state::{results_state, top_matches_state, ResultsState, TopMatchesState};
use foot_info::state::AppState;
use foot_info::models::{Match, TopMatch};

#[test]
fn test_provider_countries() {
    assert_eq!(WheresTheMatchProvider.country(), Country::UK);
    assert_eq!(WorldSoccerTalkProvider.country(), Country::US);
    assert_eq!(MatchsTvProvider.country(), Country::FR);
    assert_eq!(MockUsProvider.country(), Country::US);
}

#[test]
fn test_provider_names() {
    assert_eq!(WheresTheMatchProvider.name(), "WheresTheMatch Scraper");
    assert_eq!(WorldSoccerTalkProvider.name(), "WorldSoccerTalk Scraper");
    assert_eq!(MatchsTvProvider.name(), "Matchs.tv Scraper");
    assert_eq!(MockUsProvider.name(), "Mock US Provider");
}

#[test]
fn test_provider_ids_match_structs() {
    assert_eq!(WheresTheMatchProvider.id(), ProviderId::WheresTheMatch);
    assert_eq!(WorldSoccerTalkProvider.id(), ProviderId::WorldSoccerTalk);
    assert_eq!(MatchsTvProvider.id(), ProviderId::MatchsTv);
    assert_eq!(MockUsProvider.id(), ProviderId::MockUs);
}

#[test]
fn test_mock_us_returns_one_fixture() {
    let r = MockUsProvider.canned_matches("Austin FC").unwrap();
    assert_eq!(r.len(), 1);
    assert_eq!(r[0].teams, "Austin FC vs US Rival");
    assert_eq!(r[0].competition, "MLS");
    assert_eq!(r[0].date, "2026-07-04");
    assert_eq!(r[0].time, "20:00");
    assert_eq!(r[0].channels, vec!["ESPN".to_string(), "Fox Sports".to_string()]);
}

#[test]
fn test_mock_us_error_team_any_case_fails() {
    // case folding happens before the comparison: "Error" must fail too
    let r = MockUsProvider.canned_matches("Error");
    assert!(matches!(r, Err(AppError::TeamNotFound(ref t)) if t == "Error"));
    let r2 = MockUsProvider.canned_matches("ERROR");
    assert!(r2.is_err());
}

// ── Results-area selection ───────────────────────────────────────────────

#[test]
fn test_results_state_precedence() {
    let mut state = AppState::new();
    state.is_loading = true;
    state.error_message = Some("boom".into());
    assert!(matches!(results_state(&state), ResultsState::Loading));

    state.is_loading = false;
    assert!(matches!(results_state(&state), ResultsState::Error("boom")));

    state.error_message = None;
    assert!(matches!(results_state(&state), ResultsState::Empty));

    state.matches = vec![Match {
        teams: "A v B".into(),
        competition: "C".into(),
        date: "D".into(),
        time: "T".into(),
        channels: vec![],
    }];
    assert!(matches!(results_state(&state), ResultsState::Matches(ms) if ms.len() == 1));
}

#[test]
fn test_top_matches_state_precedence() {
    let mut state = AppState::new();
    state.is_loading = true;
    assert!(matches!(top_matches_state(&state), TopMatchesState::Loading));

    state.is_loading = false;
    state.error_message = Some("net down".into());
    assert!(matches!(top_matches_state(&state), TopMatchesState::Error("net down")));

    state.error_message = None;
    assert!(matches!(top_matches_state(&state), TopMatchesState::Empty));

    state.top_matches = vec![TopMatch {
        teams: "A - B".into(),
        date: "Mon".into(),
        time: "10:00".into(),
        match_url: "/m".into(),
    }];
    state.selected_top_match_index = 0;
    assert!(matches!(
        top_matches_state(&state),
        TopMatchesState::Matches { matches: ms, selected_index: 0 } if ms.len() == 1
    ));
}
