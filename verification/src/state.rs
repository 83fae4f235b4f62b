//! The authoritative application state: everything the terminal view needs
//! to render, mutated only by the key router and by applying actions.

use vstd::prelude::*;
use crate::config::Config;
use crate::models::Match;
use crate::models::TopMatch;
use crate::models::ViewMode;
use crate::providers::ProviderId;

verus! {

/// The single, synchronously-mutated snapshot of the application.
///
/// Well-formedness (`wf`) holds from construction on and is preserved by
/// every router and action transition: the provider registry is non-empty,
/// the active-provider index is in range, and the top-fixture cursor is a
/// valid index whenever the list is non-empty (and pinned to 0 otherwise).
#[derive(Debug)]
pub struct AppState {
    pub search_input: String,
    pub matches: Vec<Match>,
    pub error_message: Option<String>,
    pub status_message: Option<String>,
    pub is_loading: bool,
    pub exit: bool,
    pub config: Config,
    pub providers: Vec<ProviderId>,
    pub current_provider_index: usize,
    pub view_mode: ViewMode,
    pub top_matches: Vec<TopMatch>,
    pub selected_top_match_index: usize,
}

impl AppState {
    /// The state invariant every transition preserves.
    pub open spec fn wf(self) -> bool {
        &&& self.providers.len() > 0
        &&& self.current_provider_index < self.providers.len()
        &&& self.top_matches.len() == 0 ==> self.selected_top_match_index == 0
        &&& self.top_matches.len() > 0 ==> self.selected_top_match_index
            < self.top_matches.len()
    }

    /// A fresh state: empty input and results, no flags set, the three real
    /// scrapers registered with the UK one active, the Search screen shown,
    /// and no favorite team until the persisted configuration is handed in.
    pub fn new() -> (r: AppState)
        ensures
            r.wf(),
            r.search_input@.len() == 0,
            r.matches@.len() == 0,
            r.error_message is None,
            r.status_message is None,
            !r.is_loading,
            !r.exit,
            r.config.favorite_team is None,
            r.providers@ == seq![
                ProviderId::WheresTheMatch,
                ProviderId::WorldSoccerTalk,
                ProviderId::MatchsTv,
            ],
            r.current_provider_index == 0,
            r.view_mode == ViewMode::Search,
            r.top_matches@.len() == 0,
            r.selected_top_match_index == 0,
    {
        let r = AppState {
            search_input: String::new(),
            matches: Vec::new(),
            error_message: None,
            status_message: None,
            is_loading: false,
            exit: false,
            config: Config { favorite_team: None },
            providers: vec![
                ProviderId::WheresTheMatch,
                ProviderId::WorldSoccerTalk,
                ProviderId::MatchsTv,
            ],
            current_provider_index: 0,
            view_mode: ViewMode::Search,
            top_matches: Vec::new(),
            selected_top_match_index: 0,
        };
        proof {
            assert(r.providers@ =~= seq![
                ProviderId::WheresTheMatch,
                ProviderId::WorldSoccerTalk,
                ProviderId::MatchsTv,
            ]);
        }
        r
    }

    /// The provider the next search will use.
    pub fn get_current_provider(&self) -> (r: ProviderId)
        requires
            self.wf(),
        ensures
            r == self.providers@[self.current_provider_index as int],
    {
        self.providers[self.current_provider_index]
    }
}

} // verus!
