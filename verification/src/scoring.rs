//! The scoring resolver: from the last action of a rally (and, where the
//! rule needs it, the second-to-last "related" action) to a verdict.

use vstd::prelude::*;

use crate::action::{Action, ActionType, Scored, WhoScored, Zone};
use crate::match_state::Team;

verus! {

/// Which of the two inspected actions a rally verdict credits and blames.
#[derive(Clone, Copy, PartialEq, Eq, Structural, Debug)]
pub enum Outcome {
    /// The last action scored; nobody is blamed.
    LastScored,
    /// The last action faulted; nobody is credited.
    LastFaulted,
    /// The related action scored and the last action faulted.
    RelatedScored,
    /// The last action scored and the related action faulted.
    RelatedFaulted,
}

/// Whether a recorded target zone ends the ball out of play.
pub open spec fn spec_out_or_net(z: Option<Zone>) -> bool {
    z == Some(Zone::OutOfBounds) || z == Some(Zone::Net)
}

/// Whether a block's recorded zone is in court or absent.
pub open spec fn spec_in_court_or_absent(z: Option<Zone>) -> bool {
    match z {
        None => true,
        Some(zone) => zone.spec_in_court(),
    }
}

/// The deterministic verdict table, evaluated on the last action's kind.
///
/// The outcomes naming the related action are only produced when a related
/// action is present.
pub open spec fn spec_outcome(last: Action, related: Option<Action>) -> Outcome {
    match last.action_type {
        ActionType::Serve(_, z) => if spec_out_or_net(z) {
            Outcome::LastFaulted
        } else {
            Outcome::LastScored
        },
        ActionType::Receive(_, z) => if z == Some(Zone::Overpass) {
            Outcome::LastScored
        } else if related is Some {
            Outcome::RelatedScored
        } else {
            Outcome::LastFaulted
        },
        ActionType::Pass(_, z) => if z == Some(Zone::Overpass) {
            Outcome::LastScored
        } else if related is Some {
            Outcome::RelatedScored
        } else {
            Outcome::LastFaulted
        },
        // A rally-ending set is always blamed on the setter, even though the
        // true cause may be an earlier over-set.
        ActionType::Setting => Outcome::LastFaulted,
        ActionType::Hit(z) => if spec_out_or_net(z) {
            Outcome::LastFaulted
        } else {
            Outcome::LastScored
        },
        ActionType::Block(block_team, z) => if block_team != last.team
            && spec_in_court_or_absent(z) {
            if related is Some {
                Outcome::RelatedFaulted
            } else {
                Outcome::LastScored
            }
        } else {
            if related is Some {
                Outcome::RelatedScored
            } else {
                Outcome::LastFaulted
            }
        },
        ActionType::Freeball(z) => if spec_out_or_net(z) {
            Outcome::LastFaulted
        } else {
            Outcome::LastScored
        },
    }
}

/// The action a verdict credits with the point, if any.
pub open spec fn spec_scoring_action(last: Action, related: Option<Action>) -> Option<Action> {
    match spec_outcome(last, related) {
        Outcome::LastScored => Some(last),
        Outcome::LastFaulted => None,
        Outcome::RelatedScored => related,
        Outcome::RelatedFaulted => Some(last),
    }
}

/// The action a verdict blames for the point, if any.
pub open spec fn spec_faulting_action(last: Action, related: Option<Action>) -> Option<Action> {
    match spec_outcome(last, related) {
        Outcome::LastScored => None,
        Outcome::LastFaulted => Some(last),
        Outcome::RelatedScored => Some(last),
        Outcome::RelatedFaulted => related,
    }
}

/// The team awarded the rally's point.
pub open spec fn spec_point_to(last: Action, related: Option<Action>) -> Team {
    match spec_outcome(last, related) {
        Outcome::LastScored => last.team,
        Outcome::LastFaulted => last.team.spec_opponent(),
        Outcome::RelatedScored => match related {
            Some(r) => r.team,
            None => last.team,
        },
        Outcome::RelatedFaulted => last.team,
    }
}

/// The full verdict as a value: credited and blamed action reduced to
/// player and action kind, plus the team the point goes to.
pub open spec fn spec_who_scored(last: Action, related: Option<Action>) -> WhoScored {
    WhoScored {
        scored: match spec_scoring_action(last, related) {
            Some(a) => Some(Scored { player: a.player, action_type: a.action_type }),
            None => None,
        },
        faulted: match spec_faulting_action(last, related) {
            Some(a) => Some(Scored { player: a.player, action_type: a.action_type }),
            None => None,
        },
        point_to: spec_point_to(last, related),
    }
}

impl ActionType {
    /// Decides the rally from its last action and, where the rule calls for
    /// one, the second-to-last action.
    pub fn who_scored_point(action: Action, related_action: Option<Action>) -> (r: WhoScored)
        ensures
            r == spec_who_scored(action, related_action),
    {
        match action.action_type {
            ActionType::Serve(_, z) => if out_or_net(z) {
                WhoScored::new_fault(action.player, action.action_type, action.team.get_opponent())
            } else {
                WhoScored::new_scored(action.player, action.action_type, action.team)
            },
            ActionType::Receive(_, z) => if is_overpass(z) {
                WhoScored::new_scored(action.player, action.action_type, action.team)
            } else {
                match related_action {
                    None => WhoScored::new_fault(
                        action.player,
                        action.action_type,
                        action.team.get_opponent(),
                    ),
                    Some(related) => WhoScored::new(
                        related.player,
                        related.action_type,
                        action.player,
                        action.action_type,
                        related.team,
                    ),
                }
            },
            ActionType::Pass(_, z) => if is_overpass(z) {
                WhoScored::new_scored(action.player, action.action_type, action.team)
            } else {
                match related_action {
                    None => WhoScored::new_fault(
                        action.player,
                        action.action_type,
                        action.team.get_opponent(),
                    ),
                    Some(related) => WhoScored::new(
                        related.player,
                        related.action_type,
                        action.player,
                        action.action_type,
                        related.team,
                    ),
                }
            },
            ActionType::Setting => WhoScored::new_fault(
                action.player,
                action.action_type,
                action.team.get_opponent(),
            ),
            ActionType::Hit(z) => if out_or_net(z) {
                WhoScored::new_fault(action.player, action.action_type, action.team.get_opponent())
            } else {
                WhoScored::new_scored(action.player, action.action_type, action.team)
            },
            ActionType::Block(block_team, z) => {
                let favourable = block_team != action.team && in_court_or_absent(z);
                if favourable {
                    match related_action {
                        Some(related) => WhoScored::new(
                            action.player,
                            action.action_type,
                            related.player,
                            related.action_type,
                            action.team,
                        ),
                        None => WhoScored::new_scored(
                            action.player,
                            action.action_type,
                            action.team,
                        ),
                    }
                } else {
                    match related_action {
                        Some(related) => WhoScored::new(
                            related.player,
                            related.action_type,
                            action.player,
                            action.action_type,
                            related.team,
                        ),
                        None => WhoScored::new_fault(
                            action.player,
                            action.action_type,
                            action.team.get_opponent(),
                        ),
                    }
                }
            },
            ActionType::Freeball(z) => if out_or_net(z) {
                WhoScored::new_fault(action.player, action.action_type, action.team.get_opponent())
            } else {
                WhoScored::new_scored(action.player, action.action_type, action.team)
            },
        }
    }
}

/// Evaluates the verdict table to the outcome alone.
pub fn outcome_of(last: Action, related: Option<Action>) -> (r: Outcome)
    ensures
        r == spec_outcome(last, related),
{
    match last.action_type {
        ActionType::Serve(_, z) => if out_or_net(z) {
            Outcome::LastFaulted
        } else {
            Outcome::LastScored
        },
        ActionType::Receive(_, z) => if is_overpass(z) {
            Outcome::LastScored
        } else if related.is_some() {
            Outcome::RelatedScored
        } else {
            Outcome::LastFaulted
        },
        ActionType::Pass(_, z) => if is_overpass(z) {
            Outcome::LastScored
        } else if related.is_some() {
            Outcome::RelatedScored
        } else {
            Outcome::LastFaulted
        },
        ActionType::Setting => Outcome::LastFaulted,
        ActionType::Hit(z) => if out_or_net(z) {
            Outcome::LastFaulted
        } else {
            Outcome::LastScored
        },
        ActionType::Block(block_team, z) => if block_team != last.team && in_court_or_absent(z) {
            if related.is_some() {
                Outcome::RelatedFaulted
            } else {
                Outcome::LastScored
            }
        } else {
            if related.is_some() {
                Outcome::RelatedScored
            } else {
                Outcome::LastFaulted
            }
        },
        ActionType::Freeball(z) => if out_or_net(z) {
            Outcome::LastFaulted
        } else {
            Outcome::LastScored
        },
    }
}

/// The action the verdict credits, carrying its team, for statistics.
pub fn scoring_action(last: Action, related: Option<Action>) -> (r: Option<Action>)
    ensures
        r == spec_scoring_action(last, related),
{
    match outcome_of(last, related) {
        Outcome::LastScored => Some(last),
        Outcome::LastFaulted => None,
        Outcome::RelatedScored => related,
        Outcome::RelatedFaulted => Some(last),
    }
}

/// The action the verdict blames, carrying its team, for statistics.
pub fn faulting_action(last: Action, related: Option<Action>) -> (r: Option<Action>)
    ensures
        r == spec_faulting_action(last, related),
{
    match outcome_of(last, related) {
        Outcome::LastScored => None,
        Outcome::LastFaulted => Some(last),
        Outcome::RelatedScored => Some(last),
        Outcome::RelatedFaulted => related,
    }
}

fn is_overpass(z: Option<Zone>) -> (r: bool)
    ensures
        r == (z == Some(Zone::Overpass)),
{
    match z {
        Some(Zone::Overpass) => true,
        _ => false,
    }
}

fn out_or_net(z: Option<Zone>) -> (r: bool)
    ensures
        r == spec_out_or_net(z),
{
    match z {
        Some(Zone::OutOfBounds) => true,
        Some(Zone::Net) => true,
        _ => false,
    }
}

fn in_court_or_absent(z: Option<Zone>) -> (r: bool)
    ensures
        r == spec_in_court_or_absent(z),
{
    match z {
        None => true,
        Some(zone) => zone.in_court(),
    }
}

} // verus!
