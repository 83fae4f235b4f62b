//! The closed error taxonomy for fetch failures, and the human-readable
//! message each kind resolves to. The dispatch loop never interprets the
//! kind itself; it only surfaces the message.

use vstd::prelude::*;

verus! {

/// Why a fetch failed.
///
/// `Network` carries the transport-level failure text (network, DNS or TLS
/// trouble reaching a source). `TeamNotFound` means the source confirmed the
/// queried team does not exist; `NoMatchesScheduled` means the team exists
/// but has no upcoming fixtures. `Other` is a source-internal failure not
/// otherwise classified.
#[derive(Debug, Clone, PartialEq)]
pub enum AppError {
    Network(String),
    TeamNotFound(String),
    NoMatchesScheduled(String),
    Other(String),
}

impl AppError {
    /// The message shown to the user for this error.
    pub open spec fn message_spec(self) -> Seq<char> {
        match self {
            AppError::Network(m) => "Network error: "@ + m@,
            AppError::TeamNotFound(t) => "Team '"@ + t@
                + "' not found. Please check the spelling and try again."@,
            AppError::NoMatchesScheduled(t) => "No upcoming matches found for '"@ + t@ + "'."@,
            AppError::Other(m) => "Unknown error: "@ + m@,
        }
    }

    /// Renders the human-readable message for this error.
    pub fn message(&self) -> (r: String)
        ensures
            r@ == self.message_spec(),
    {
        match self {
            AppError::Network(m) => {
                let mut s = "Network error: ".to_owned();
                s.append(m.as_str());
                s
            },
            AppError::TeamNotFound(t) => {
                let mut s = "Team '".to_owned();
                s.append(t.as_str());
                s.append("' not found. Please check the spelling and try again.");
                assert(s@ =~= self.message_spec());
                s
            },
            AppError::NoMatchesScheduled(t) => {
                let mut s = "No upcoming matches found for '".to_owned();
                s.append(t.as_str());
                s.append("'.");
                assert(s@ =~= self.message_spec());
                s
            },
            AppError::Other(m) => {
                let mut s = "Unknown error: ".to_owned();
                s.append(m.as_str());
                s
            },
        }
    }
}

} // verus!
