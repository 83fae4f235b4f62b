//! Core data model: fixtures, the provider country tag, the screen mode, and
//! the library's view of a terminal key press.

use vstd::prelude::*;

verus! {

/// One scheduled match with teams, competition, date/time and channel list.
/// Immutable once constructed; produced only by a source provider.
#[derive(Debug, Clone, PartialEq)]
pub struct Match {
    pub teams: String,
    pub competition: String,
    pub date: String,
    pub time: String,
    pub channels: Vec<String>,
}

/// One marquee upcoming fixture: a raw "Home - Away" teams label, a display
/// date string (used as the grouping key), a display time string, and the
/// source URL of the match page.
#[derive(Debug, Clone, PartialEq)]
pub struct TopMatch {
    pub teams: String,
    pub date: String,
    pub time: String,
    pub match_url: String,
}

/// The country a provider serves.
#[derive(Debug, Clone, Copy, PartialEq, Eq, Structural)]
pub enum Country {
    UK,
    US,
    FR,
}

impl Country {
    /// The two-letter label shown in the title bar.
    pub fn label(&self) -> (r: String)
        ensures
            r@ == self.label_spec(),
    {
        match self {
            Country::UK => "UK".to_owned(),
            Country::US => "US".to_owned(),
            Country::FR => "FR".to_owned(),
        }
    }

    pub open spec fn label_spec(self) -> Seq<char> {
        match self {
            Country::UK => "UK"@,
            Country::US => "US"@,
            Country::FR => "FR"@,
        }
    }
}

/// The screen currently shown; input routing depends on it.
#[derive(Debug, Clone, Copy, PartialEq, Eq, Structural)]
pub enum ViewMode {
    Search,
    TopMatches,
}

/// The keys the router distinguishes. Anything else maps to `Other`.
#[derive(Debug, Clone, Copy, PartialEq, Eq, Structural)]
pub enum KeyCode {
    Esc,
    Enter,
    Backspace,
    Up,
    Down,
    Left,
    Right,
    Char(char),
    Other,
}

/// One key press as the router sees it: the key and whether the control
/// modifier was held.
#[derive(Debug, Clone, Copy, PartialEq, Eq, Structural)]
pub struct KeyEvent {
    pub code: KeyCode,
    pub ctrl: bool,
}

impl KeyEvent {
    /// A plain key press without modifiers.
    pub fn plain(code: KeyCode) -> (r: KeyEvent)
        ensures
            r.code == code,
            !r.ctrl,
    {
        KeyEvent { code, ctrl: false }
    }

    /// A character pressed together with the control modifier.
    pub fn ctrl_char(c: char) -> (r: KeyEvent)
        ensures
            r.code == KeyCode::Char(c),
            r.ctrl,
    {
        KeyEvent { code: KeyCode::Char(c), ctrl: true }
    }
}

} // verus!
