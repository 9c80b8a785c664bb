//! Failure payloads surfaced to the caller when a rally string is rejected.

use vstd::prelude::*;

verus! {

/// The kind of defect found while reading a rally string.
#[derive(Clone, Copy, PartialEq, Eq, Structural, Debug)]
pub enum ReasonKey {
    /// It cannot be decided which team the rally's point belongs to.
    WhoScored,
    /// A token does not begin with a recognized team prefix.
    MissingTeamPrefix,
    /// A team prefix character was expected and not found or not recognized.
    TeamPrefix,
    /// A player number was expected and not found.
    Player,
    /// An unrecognized action, zone, height or sub-zone code, or a malformed token.
    InvalidInput,
    /// The first token of a rally must be a serve.
    FirstActionNotServe,
    /// A serve may only stand as the first token of a rally.
    ServeNotFirstAction,
    /// The rally string holds no tokens at all.
    NoActions,
}

/// The operator-facing message that belongs to each defect kind.
pub open spec fn spec_message(key: ReasonKey) -> Seq<char> {
    match key {
        ReasonKey::WhoScored => "It's ambiguous which team scored, either fix your last action or place the team prefix after the last action."@,
        ReasonKey::MissingTeamPrefix => "You're missing a team prefix in one of the actions"@,
        ReasonKey::TeamPrefix => "Expected team prefix here."@,
        ReasonKey::Player => "Expected the players number here."@,
        ReasonKey::InvalidInput => "There's a mistake somewhere in your input"@,
        ReasonKey::FirstActionNotServe => "The first action must be a serve."@,
        ReasonKey::ServeNotFirstAction => "A serve can only be used for the first action"@,
        ReasonKey::NoActions => "At least 1 action required."@,
    }
}

/// A rejected rally: the kind of defect, a message for the operator, and the
/// zero-based index of the token at which the defect was detected.
#[derive(Clone, Copy, Debug)]
pub struct Reason {
    pub key: ReasonKey,
    pub error_msg: &'static str,
    pub location: usize,
}

impl Reason {
    /// The message always matches the defect kind.
    pub open spec fn wf(self) -> bool {
        self.error_msg@ == spec_message(self.key)
    }

    /// The same defect, re-anchored to the token at `location`.
    pub fn with_location(&self, location: usize) -> (r: Reason)
        ensures
            r.key == self.key,
            r.error_msg@ == self.error_msg@,
            r.location == location,
    {
        Reason { key: self.key, error_msg: self.error_msg, location }
    }

    pub fn who_scored() -> (r: Reason)
        ensures
            r.key == ReasonKey::WhoScored,
            r.location == 0,
            r.wf(),
    {
        Reason {
            key: ReasonKey::WhoScored,
            error_msg: "It's ambiguous which team scored, either fix your last action or place the team prefix after the last action.",
            location: 0,
        }
    }

    pub fn missing_team_prefix() -> (r: Reason)
        ensures
            r.key == ReasonKey::MissingTeamPrefix,
            r.location == 0,
            r.wf(),
    {
        Reason {
            key: ReasonKey::MissingTeamPrefix,
            error_msg: "You're missing a team prefix in one of the actions",
            location: 0,
        }
    }

    pub fn team_prefix() -> (r: Reason)
        ensures
            r.key == ReasonKey::TeamPrefix,
            r.location == 0,
            r.wf(),
    {
        Reason { key: ReasonKey::TeamPrefix, error_msg: "Expected team prefix here.", location: 0 }
    }

    pub fn player() -> (r: Reason)
        ensures
            r.key == ReasonKey::Player,
            r.location == 0,
            r.wf(),
    {
        Reason {
            key: ReasonKey::Player,
            error_msg: "Expected the players number here.",
            location: 0,
        }
    }

    pub fn invalid_input() -> (r: Reason)
        ensures
            r.key == ReasonKey::InvalidInput,
            r.location == 0,
            r.wf(),
    {
        Reason {
            key: ReasonKey::InvalidInput,
            error_msg: "There's a mistake somewhere in your input",
            location: 0,
        }
    }

    pub fn first_action_not_serve() -> (r: Reason)
        ensures
            r.key == ReasonKey::FirstActionNotServe,
            r.location == 0,
            r.wf(),
    {
        Reason {
            key: ReasonKey::FirstActionNotServe,
            error_msg: "The first action must be a serve.",
            location: 0,
        }
    }

    pub fn serve_not_first_action() -> (r: Reason)
        ensures
            r.key == ReasonKey::ServeNotFirstAction,
            r.location == 0,
            r.wf(),
    {
        Reason {
            key: ReasonKey::ServeNotFirstAction,
            error_msg: "A serve can only be used for the first action",
            location: 0,
        }
    }

    pub fn no_actions() -> (r: Reason)
        ensures
            r.key == ReasonKey::NoActions,
            r.location == 0,
            r.wf(),
    {
        Reason { key: ReasonKey::NoActions, error_msg: "At least 1 action required.", location: 0 }
    }
}

} // verus!
