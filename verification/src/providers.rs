//! The pluggable-source registry. Every provider the engine can select is
//! listed here with its country tag and display name; the network fetch each
//! one performs lives outside the library, keyed by `ProviderId`.

use vstd::prelude::*;
use crate::error::AppError;
use crate::models::Country;
use crate::models::Match;
use crate::text::lower_of;
use crate::text::lowercase;
use crate::text::str_eq;

verus! {

/// A handle to one registered source provider. The engine treats providers
/// uniformly and identifies the active one by its index in the registry;
/// the fetch itself is performed outside the library against this id.
#[derive(Debug, Clone, Copy, PartialEq, Eq, Structural)]
pub enum ProviderId {
    WheresTheMatch,
    WorldSoccerTalk,
    MatchsTv,
    MockUs,
}

impl ProviderId {
    pub open spec fn country_spec(self) -> Country {
        match self {
            ProviderId::WheresTheMatch => Country::UK,
            ProviderId::WorldSoccerTalk => Country::US,
            ProviderId::MatchsTv => Country::FR,
            ProviderId::MockUs => Country::US,
        }
    }

    /// The country this provider serves.
    pub fn country(&self) -> (r: Country)
        ensures
            r == self.country_spec(),
    {
        match self {
            ProviderId::WheresTheMatch => Country::UK,
            ProviderId::WorldSoccerTalk => Country::US,
            ProviderId::MatchsTv => Country::FR,
            ProviderId::MockUs => Country::US,
        }
    }

    pub open spec fn name_spec(self) -> Seq<char> {
        match self {
            ProviderId::WheresTheMatch => "WheresTheMatch Scraper"@,
            ProviderId::WorldSoccerTalk => "WorldSoccerTalk Scraper"@,
            ProviderId::MatchsTv => "Matchs.tv Scraper"@,
            ProviderId::MockUs => "Mock US Provider"@,
        }
    }

    /// The display name announced when the provider becomes active.
    pub fn name(&self) -> (r: String)
        ensures
            r@ == self.name_spec(),
    {
        match self {
            ProviderId::WheresTheMatch => "WheresTheMatch Scraper".to_owned(),
            ProviderId::WorldSoccerTalk => "WorldSoccerTalk Scraper".to_owned(),
            ProviderId::MatchsTv => "Matchs.tv Scraper".to_owned(),
            ProviderId::MockUs => "Mock US Provider".to_owned(),
        }
    }
}

/// The UK source, scraping wheresthematch.com.
#[derive(Debug, Clone, Copy, PartialEq, Eq, Structural)]
pub struct WheresTheMatchProvider;

impl WheresTheMatchProvider {
    pub fn id(&self) -> (r: ProviderId)
        ensures
            r == ProviderId::WheresTheMatch,
    {
        ProviderId::WheresTheMatch
    }

    pub fn country(&self) -> (r: Country)
        ensures
            r == Country::UK,
    {
        Country::UK
    }

    pub fn name(&self) -> (r: String)
        ensures
            r@ == ProviderId::WheresTheMatch.name_spec(),
    {
        ProviderId::WheresTheMatch.name()
    }
}

/// The US source, scraping worldsoccertalk.com.
#[derive(Debug, Clone, Copy, PartialEq, Eq, Structural)]
pub struct WorldSoccerTalkProvider;

impl WorldSoccerTalkProvider {
    pub fn id(&self) -> (r: ProviderId)
        ensures
            r == ProviderId::WorldSoccerTalk,
    {
        ProviderId::WorldSoccerTalk
    }

    pub fn country(&self) -> (r: Country)
        ensures
            r == Country::US,
    {
        Country::US
    }

    pub fn name(&self) -> (r: String)
        ensures
            r@ == ProviderId::WorldSoccerTalk.name_spec(),
    {
        ProviderId::WorldSoccerTalk.name()
    }
}

/// The FR source, scraping matchs.tv.
#[derive(Debug, Clone, Copy, PartialEq, Eq, Structural)]
pub struct MatchsTvProvider;

impl MatchsTvProvider {
    pub fn id(&self) -> (r: ProviderId)
        ensures
            r == ProviderId::MatchsTv,
    {
        ProviderId::MatchsTv
    }

    pub fn country(&self) -> (r: Country)
        ensures
            r == Country::FR,
    {
        Country::FR
    }

    pub fn name(&self) -> (r: String)
        ensures
            r@ == ProviderId::MatchsTv.name_spec(),
    {
        ProviderId::MatchsTv.name()
    }
}

/// A canned US source used for demos: no network, fixed response.
#[derive(Debug, Clone, Copy, PartialEq, Eq, Structural)]
pub struct MockUsProvider;

impl MockUsProvider {
    pub fn id(&self) -> (r: ProviderId)
        ensures
            r == ProviderId::MockUs,
    {
        ProviderId::MockUs
    }

    pub fn country(&self) -> (r: Country)
        ensures
            r == Country::US,
    {
        Country::US
    }

    pub fn name(&self) -> (r: String)
        ensures
            r@ == ProviderId::MockUs.name_spec(),
    {
        ProviderId::MockUs.name()
    }

    /// The canned response: a team whose lowercased name is `"error"` is
    /// reported as not found; any other team gets exactly one fixture
    /// against "US Rival" in the MLS.
    pub fn canned_matches(&self, team: &str) -> (r: Result<Vec<Match>, AppError>)
        ensures
            lower_of(team@) == "error"@ ==> (r matches Err(e) && e matches AppError::TeamNotFound(
                t,
            ) && t@ == team@),
            lower_of(team@) != "error"@ ==> (r matches Ok(ms) && ms@.len() == 1 && {
                let m = ms@[0];
                &&& m.teams@ == team@ + " vs US Rival"@
                &&& m.competition@ == "MLS"@
                &&& m.date@ == "2026-07-04"@
                &&& m.time@ == "20:00"@
                &&& m.channels@.len() == 2
                &&& m.channels@[0]@ == "ESPN"@
                &&& m.channels@[1]@ == "Fox Sports"@
            }),
    {
        let lowered = lowercase(team);
        if str_eq(lowered.as_str(), "error") {
            return Err(AppError::TeamNotFound(team.to_owned()));
        }
        let mut teams = team.to_owned();
        teams.append(" vs US Rival");
        let m = Match {
            teams,
            competition: "MLS".to_owned(),
            date: "2026-07-04".to_owned(),
            time: "20:00".to_owned(),
            channels: vec!["ESPN".to_owned(), "Fox Sports".to_owned()],
        };
        Ok(vec![m])
    }
}

} // verus!
