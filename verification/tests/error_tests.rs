use rallyscore::error::{Reason, ReasonKey};
use rallyscore::match_state::Team;
use rallyscore::parser::parse;
use rallyscore::Config;

#[test]
fn constructors_carry_their_kind() {
    assert_eq!(Reason::who_scored().key, ReasonKey::WhoScored);
    assert_eq!(Reason::missing_team_prefix().key, ReasonKey::MissingTeamPrefix);
    assert_eq!(Reason::team_prefix().key, ReasonKey::TeamPrefix);
    assert_eq!(Reason::player().key, ReasonKey::Player);
    assert_eq!(Reason::invalid_input().key, ReasonKey::InvalidInput);
    assert_eq!(Reason::first_action_not_serve().key, ReasonKey::FirstActionNotServe);
    assert_eq!(Reason::serve_not_first_action().key, ReasonKey::ServeNotFirstAction);
    assert_eq!(Reason::no_actions().key, ReasonKey::NoActions);
}

#[test]
fn constructors_start_at_location_zero() {
    assert_eq!(Reason::team_prefix().location, 0);
    assert_eq!(Reason::invalid_input().location, 0);
}

#[test]
fn with_location_moves_only_the_location() {
    let moved = Reason::player().with_location(3);
    assert_eq!(moved.key, ReasonKey::Player);
    assert_eq!(moved.location, 3);
    assert_eq!(moved.error_msg, Reason::player().error_msg);
}

#[test]
fn messages_read_as_written() {
    assert_eq!(Reason::team_prefix().error_msg, "Expected team prefix here.");
    assert_eq!(Reason::player().error_msg, "Expected the players number here.");
    assert_eq!(Reason::no_actions().error_msg, "At least 1 action required.");
    assert_eq!(Reason::first_action_not_serve().error_msg, "The first action must be a serve.");
}

#[test]
fn prefixes_beyond_ascii_work() {
    let cfg = Config { away_prefix: 'é', home_prefix: 'ß' };
    let rally = parse(cfg, "é1SA4 ß2H3").unwrap();
    assert_eq!(rally.actions[0].team, Team::Away);
    assert_eq!(rally.actions[1].team, Team::Home);
    assert_eq!(rally.who.point_to, Team::Home);
}
