use rallyscore::action::{ActionType, Height, ServePosition, SubZone, Zone};
use rallyscore::error::ReasonKey;
use rallyscore::match_state::{Player, Team};
use rallyscore::parser::parse;
use rallyscore::Config;

fn cfg() -> Config {
    Config { away_prefix: '@', home_prefix: '!' }
}

#[test]
fn serve_in_court_scores_for_server() {
    let rally = parse(cfg(), "@1SA4").unwrap();
    assert_eq!(rally.actions.len(), 1);
    let a = rally.actions[0];
    assert_eq!(a.team, Team::Away);
    assert_eq!(a.player, Player(1));
    assert!(matches!(
        a.action_type,
        ActionType::Serve(Some(ServePosition::A), Some(Zone::Four(None)))
    ));
    let who = rally.who;
    let scored = who.scored.unwrap();
    assert_eq!(scored.player, Player(1));
    assert!(who.faulted.is_none());
    assert_eq!(who.point_to, Team::Away);
}

#[test]
fn serve_out_of_bounds_faults_server() {
    let rally = parse(cfg(), "@1SA0").unwrap();
    let who = rally.who;
    assert!(who.scored.is_none());
    let faulted = who.faulted.unwrap();
    assert_eq!(faulted.player, Player(1));
    assert!(matches!(
        faulted.action_type,
        ActionType::Serve(Some(ServePosition::A), Some(Zone::OutOfBounds))
    ));
    assert_eq!(who.point_to, Team::Home);
}

#[test]
fn hit_out_of_bounds_faults_hitter() {
    let rally = parse(cfg(), "@1SA4 !2H0").unwrap();
    assert_eq!(rally.actions.len(), 2);
    let last = rally.actions[1];
    assert_eq!(last.team, Team::Home);
    assert_eq!(last.player, Player(2));
    assert!(matches!(last.action_type, ActionType::Hit(Some(Zone::OutOfBounds))));
    let who = rally.who;
    assert!(who.scored.is_none());
    let faulted = who.faulted.unwrap();
    assert_eq!(faulted.player, Player(2));
    assert_eq!(who.point_to, Team::Away);
}

#[test]
fn unknown_prefix_fails_at_token_zero() {
    let e = parse(cfg(), "X1SA4").unwrap_err();
    assert_eq!(e.key, ReasonKey::TeamPrefix);
    assert_eq!(e.location, 0);
}

#[test]
fn empty_rally_has_no_actions() {
    let e = parse(cfg(), "").unwrap_err();
    assert_eq!(e.key, ReasonKey::NoActions);
    assert_eq!(e.location, 0);
}

#[test]
fn missing_player_number_is_rejected() {
    let e = parse(cfg(), "@").unwrap_err();
    assert_eq!(e.key, ReasonKey::Player);
    assert_eq!(e.location, 0);

    let e = parse(cfg(), "@XSA4").unwrap_err();
    assert_eq!(e.key, ReasonKey::Player);
    assert_eq!(e.location, 0);
}

#[test]
fn token_ending_after_player_digits_is_malformed() {
    let e = parse(cfg(), "@1").unwrap_err();
    assert_eq!(e.key, ReasonKey::InvalidInput);
    assert_eq!(e.location, 0);

    let e = parse(cfg(), "@12").unwrap_err();
    assert_eq!(e.key, ReasonKey::InvalidInput);
    assert_eq!(e.location, 0);
}

#[test]
fn first_action_must_be_a_serve() {
    let e = parse(cfg(), "@1H4").unwrap_err();
    assert_eq!(e.key, ReasonKey::FirstActionNotServe);
    assert_eq!(e.location, 0);
}

#[test]
fn serve_is_only_legal_first() {
    let e = parse(cfg(), "@1SA4 !2SA4").unwrap_err();
    assert_eq!(e.key, ReasonKey::ServeNotFirstAction);
    assert_eq!(e.location, 1);
}

#[test]
fn unknown_action_code_is_rejected_at_its_token() {
    let e = parse(cfg(), "@1SA4 !2X").unwrap_err();
    assert_eq!(e.key, ReasonKey::InvalidInput);
    assert_eq!(e.location, 1);
}

#[test]
fn block_needs_a_team_prefix() {
    let e = parse(cfg(), "@1SA4 !2B").unwrap_err();
    assert_eq!(e.key, ReasonKey::TeamPrefix);
    assert_eq!(e.location, 1);

    let e = parse(cfg(), "@1SA4 !2BX4").unwrap_err();
    assert_eq!(e.key, ReasonKey::TeamPrefix);
    assert_eq!(e.location, 1);
}

#[test]
fn two_digit_player_numbers_compose() {
    let rally = parse(cfg(), "@12SA4").unwrap();
    assert_eq!(rally.actions[0].player, Player(12));

    let rally = parse(cfg(), "@99SA4").unwrap();
    assert_eq!(rally.actions[0].player, Player(99));
}

#[test]
fn serve_modifiers_are_optional() {
    let rally = parse(cfg(), "@1S").unwrap();
    assert!(matches!(rally.actions[0].action_type, ActionType::Serve(None, None)));

    let rally = parse(cfg(), "@1S4").unwrap();
    assert!(matches!(rally.actions[0].action_type, ActionType::Serve(None, Some(Zone::Four(None)))));

    let rally = parse(cfg(), "@1SV").unwrap();
    assert!(matches!(rally.actions[0].action_type, ActionType::Serve(None, Some(Zone::Overpass))));
}

#[test]
fn sub_zone_refines_a_numbered_zone() {
    let rally = parse(cfg(), "@1SA4B").unwrap();
    assert!(matches!(
        rally.actions[0].action_type,
        ActionType::Serve(Some(ServePosition::A), Some(Zone::Four(Some(SubZone::B))))
    ));

    let e = parse(cfg(), "@1SA0B").unwrap_err();
    assert_eq!(e.key, ReasonKey::InvalidInput);

    let e = parse(cfg(), "@1SA4X").unwrap_err();
    assert_eq!(e.key, ReasonKey::InvalidInput);
}

#[test]
fn characters_after_the_sub_zone_are_ignored() {
    let rally = parse(cfg(), "@1SA4BZZZ").unwrap();
    assert!(matches!(
        rally.actions[0].action_type,
        ActionType::Serve(Some(ServePosition::A), Some(Zone::Four(Some(SubZone::B))))
    ));
}

#[test]
fn receive_reads_height_then_zone() {
    let rally = parse(cfg(), "@1SA4 !2RM6").unwrap();
    assert!(matches!(
        rally.actions[1].action_type,
        ActionType::Receive(Some(Height::Mid), Some(Zone::Six(None)))
    ));

    let rally = parse(cfg(), "@1SA4 !2R6").unwrap();
    assert!(matches!(
        rally.actions[1].action_type,
        ActionType::Receive(None, Some(Zone::Six(None)))
    ));
}

#[test]
fn block_carries_its_own_team() {
    let rally = parse(cfg(), "@1SA4 !2B@4").unwrap();
    assert!(matches!(
        rally.actions[1].action_type,
        ActionType::Block(Team::Away, Some(Zone::Four(None)))
    ));
    assert_eq!(rally.actions[1].team, Team::Home);
}

#[test]
fn double_space_makes_an_empty_token() {
    let e = parse(cfg(), "@1SA4  !2H4").unwrap_err();
    assert_eq!(e.key, ReasonKey::TeamPrefix);
    assert_eq!(e.location, 1);
}

#[test]
fn parsing_is_deterministic_on_equal_input() {
    let a = parse(cfg(), "@1SA4 !2RM6 !3E").unwrap();
    let b = parse(cfg(), "@1SA4 !2RM6 !3E").unwrap();
    assert_eq!(a.actions, b.actions);
    assert_eq!(a.who, b.who);
}

#[test]
fn custom_prefixes_are_honoured() {
    let other = Config { away_prefix: 'a', home_prefix: 'h' };
    let rally = parse(other, "a1SA4 h2H4").unwrap();
    assert_eq!(rally.actions[0].team, Team::Away);
    assert_eq!(rally.actions[1].team, Team::Home);

    let e = parse(other, "@1SA4").unwrap_err();
    assert_eq!(e.key, ReasonKey::TeamPrefix);
}
