//! The typed vocabulary of the rally notation: court zones, action kinds,
//! and the verdict attached to a parsed rally.

use vstd::prelude::*;

use crate::error::{Reason, ReasonKey};
use crate::match_state::{Player, Team};

verus! {

/// The six symbolic serving positions, `A` through `F`.
#[derive(Clone, Copy, PartialEq, Eq, Structural, Debug)]
pub enum ServePosition {
    A,
    B,
    C,
    D,
    E,
    F,
}

impl ServePosition {
    /// Which serving position a letter stands for, if any.
    pub open spec fn spec_from_char(c: char) -> Option<ServePosition> {
        match c {
            'A' => Some(ServePosition::A),
            'B' => Some(ServePosition::B),
            'C' => Some(ServePosition::C),
            'D' => Some(ServePosition::D),
            'E' => Some(ServePosition::E),
            'F' => Some(ServePosition::F),
            _ => None,
        }
    }

    pub fn from_char(c: char) -> (r: Result<ServePosition, Reason>)
        ensures
            match ServePosition::spec_from_char(c) {
                Some(p) => r matches Ok(rp) && rp == p,
                None => r matches Err(re) && re.key == ReasonKey::InvalidInput && re.location == 0 && re.wf(),
            },
    {
        match c {
            'A' => Ok(ServePosition::A),
            'B' => Ok(ServePosition::B),
            'C' => Ok(ServePosition::C),
            'D' => Ok(ServePosition::D),
            'E' => Ok(ServePosition::E),
            'F' => Ok(ServePosition::F),
            _ => Err(Reason::invalid_input()),
        }
    }
}

/// The four symbolic sub-regions refining a numbered zone.
#[derive(Clone, Copy, PartialEq, Eq, Structural, Debug)]
pub enum SubZone {
    A,
    B,
    C,
    D,
}

impl SubZone {
    /// Which sub-zone a letter stands for, if any.
    pub open spec fn spec_from_char(c: char) -> Option<SubZone> {
        match c {
            'A' => Some(SubZone::A),
            'B' => Some(SubZone::B),
            'C' => Some(SubZone::C),
            'D' => Some(SubZone::D),
            _ => None,
        }
    }

    pub fn from_char(c: char) -> (r: Result<SubZone, Reason>)
        ensures
            match SubZone::spec_from_char(c) {
                Some(z) => r matches Ok(rz) && rz == z,
                None => r matches Err(re) && re.key == ReasonKey::InvalidInput && re.location == 0 && re.wf(),
            },
    {
        match c {
            'A' => Ok(SubZone::A),
            'B' => Ok(SubZone::B),
            'C' => Ok(SubZone::C),
            'D' => Ok(SubZone::D),
            _ => Err(Reason::invalid_input()),
        }
    }
}

/// A region of the court: one of the nine numbered zones, each optionally
/// refined by a sub-zone, or one of the three special outcome regions.
#[derive(Clone, Copy, PartialEq, Eq, Debug)]
pub enum Zone {
    One(Option<SubZone>),
    Two(Option<SubZone>),
    Three(Option<SubZone>),
    Four(Option<SubZone>),
    Five(Option<SubZone>),
    Six(Option<SubZone>),
    Seven(Option<SubZone>),
    Eight(Option<SubZone>),
    Nine(Option<SubZone>),
    Overpass,
    OutOfBounds,
    Net,
}

impl Zone {
    /// True exactly for the nine numbered zones.
    pub open spec fn spec_in_court(self) -> bool {
        match self {
            Zone::Overpass => false,
            Zone::OutOfBounds => false,
            Zone::Net => false,
            _ => true,
        }
    }

    pub fn in_court(self) -> (r: bool)
        ensures
            r == self.spec_in_court(),
    {
        match self {
            Zone::Overpass => false,
            Zone::OutOfBounds => false,
            Zone::Net => false,
            _ => true,
        }
    }

    /// The zone named by a zone character and an optional sub-zone
    /// character. A sub-zone letter is only valid on a numbered zone, and an
    /// unrecognized sub-zone letter is a defect even on a special zone.
    pub open spec fn spec_from_chars(zone: char, sub_zone: Option<char>) -> Result<Zone, ReasonKey> {
        let sz = match sub_zone {
            None => Ok(None),
            Some(c) => match SubZone::spec_from_char(c) {
                Some(s) => Ok(Some(s)),
                None => Err(ReasonKey::InvalidInput),
            },
        };
        match sz {
            Err(k) => Err(k),
            Ok(sz) => match zone {
                '1' => Ok(Zone::One(sz)),
                '2' => Ok(Zone::Two(sz)),
                '3' => Ok(Zone::Three(sz)),
                '4' => Ok(Zone::Four(sz)),
                '5' => Ok(Zone::Five(sz)),
                '6' => Ok(Zone::Six(sz)),
                '7' => Ok(Zone::Seven(sz)),
                '8' => Ok(Zone::Eight(sz)),
                '9' => Ok(Zone::Nine(sz)),
                '0' => if sz is None { Ok(Zone::OutOfBounds) } else { Err(ReasonKey::InvalidInput) },
                'N' => if sz is None { Ok(Zone::Net) } else { Err(ReasonKey::InvalidInput) },
                'V' => if sz is None { Ok(Zone::Overpass) } else { Err(ReasonKey::InvalidInput) },
                _ => Err(ReasonKey::InvalidInput),
            },
        }
    }

    pub fn from_chars(zone: char, sub_zone: Option<char>) -> (r: Result<Zone, Reason>)
        ensures
            match Zone::spec_from_chars(zone, sub_zone) {
                Ok(z) => r matches Ok(rz) && rz == z,
                Err(k) => r matches Err(re) && re.key == k && re.location == 0 && re.wf(),
            },
    {
        let sz: Option<SubZone> = match sub_zone {
            None => None,
            Some(c) => match SubZone::from_char(c) {
                Ok(s) => Some(s),
                Err(e) => {
                    return Err(e);
                },
            },
        };
        match zone {
            '1' => Ok(Zone::One(sz)),
            '2' => Ok(Zone::Two(sz)),
            '3' => Ok(Zone::Three(sz)),
            '4' => Ok(Zone::Four(sz)),
            '5' => Ok(Zone::Five(sz)),
            '6' => Ok(Zone::Six(sz)),
            '7' => Ok(Zone::Seven(sz)),
            '8' => Ok(Zone::Eight(sz)),
            '9' => Ok(Zone::Nine(sz)),
            '0' => if sz.is_none() { Ok(Zone::OutOfBounds) } else { Err(Reason::invalid_input()) },
            'N' => if sz.is_none() { Ok(Zone::Net) } else { Err(Reason::invalid_input()) },
            'V' => if sz.is_none() { Ok(Zone::Overpass) } else { Err(Reason::invalid_input()) },
            _ => Err(Reason::invalid_input()),
        }
    }
}

/// How high a receive or pass travels.
#[derive(Clone, Copy, PartialEq, Eq, Structural, Debug)]
pub enum Height {
    Low,
    Mid,
    High,
}

impl Height {
    /// Which height a letter stands for, if any.
    pub open spec fn spec_from_char(c: char) -> Option<Height> {
        match c {
            'L' => Some(Height::Low),
            'M' => Some(Height::Mid),
            'H' => Some(Height::High),
            _ => None,
        }
    }

    pub fn from_char(c: char) -> (r: Result<Height, Reason>)
        ensures
            match Height::spec_from_char(c) {
                Some(h) => r matches Ok(rh) && rh == h,
                None => r matches Err(re) && re.key == ReasonKey::InvalidInput && re.location == 0 && re.wf(),
            },
    {
        match c {
            'L' => Ok(Height::Low),
            'M' => Ok(Height::Mid),
            'H' => Ok(Height::High),
            _ => Err(Reason::invalid_input()),
        }
    }
}

/// One action kind together with the modifiers that kind supports.
///
/// A `Block` carries the team associated with the block attempt, which is
/// independent of the team prefix of the token it was read from.
#[derive(Clone, Copy, PartialEq, Eq, Debug)]
pub enum ActionType {
    Serve(Option<ServePosition>, Option<Zone>),
    Receive(Option<Height>, Option<Zone>),
    Pass(Option<Height>, Option<Zone>),
    /// The act of setting the ball for an attacker.
    Setting,
    Hit(Option<Zone>),
    Block(Team, Option<Zone>),
    Freeball(Option<Zone>),
}

/// One parsed token: who acted, and what the action was.
#[derive(Clone, Copy, PartialEq, Eq, Debug)]
pub struct Action {
    pub team: Team,
    pub player: Player,
    pub action_type: ActionType,
}

/// The player and action credited or blamed by a rally verdict.
#[derive(Clone, Copy, PartialEq, Eq, Debug)]
pub struct Scored {
    pub player: Player,
    pub action_type: ActionType,
}

/// The verdict for one rally: who scored, who faulted (at least one of the
/// two is present), and which team receives the point.
#[derive(Clone, Copy, PartialEq, Eq, Debug)]
pub struct WhoScored {
    pub scored: Option<Scored>,
    pub faulted: Option<Scored>,
    pub point_to: Team,
}

impl WhoScored {
    /// A rally lost by `player`'s own fault: the point goes to `point_to`.
    pub fn new_fault(player: Player, action_type: ActionType, point_to: Team) -> (r: WhoScored)
        ensures
            r == (WhoScored {
                scored: None,
                faulted: Some(Scored { player, action_type }),
                point_to,
            }),
    {
        WhoScored { scored: None, faulted: Some(Scored { player, action_type }), point_to }
    }

    /// A rally won outright by `player`: the point goes to `point_to`.
    pub fn new_scored(player: Player, action_type: ActionType, point_to: Team) -> (r: WhoScored)
        ensures
            r == (WhoScored {
                scored: Some(Scored { player, action_type }),
                faulted: None,
                point_to,
            }),
    {
        WhoScored { scored: Some(Scored { player, action_type }), faulted: None, point_to }
    }

    /// A rally with both a credited and a blamed action.
    pub fn new(
        scored_player: Player,
        scored_action_type: ActionType,
        faulted_player: Player,
        faulted_action_type: ActionType,
        point_to: Team,
    ) -> (r: WhoScored)
        ensures
            r == (WhoScored {
                scored: Some(Scored { player: scored_player, action_type: scored_action_type }),
                faulted: Some(Scored { player: faulted_player, action_type: faulted_action_type }),
                point_to,
            }),
    {
        WhoScored {
            scored: Some(Scored { player: scored_player, action_type: scored_action_type }),
            faulted: Some(Scored { player: faulted_player, action_type: faulted_action_type }),
            point_to,
        }
    }
}

/// The result of parsing one rally string: the actions in chronological
/// order, and the verdict drawn from them.
#[derive(Clone, PartialEq, Debug)]
pub struct Rally {
    pub actions: Vec<Action>,
    pub who: WhoScored,
}

} // verus!
