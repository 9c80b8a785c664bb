use rallyscore::action::{Action, ActionType, Height, Zone};
use rallyscore::match_state::{Player, Team};

fn act(team: Team, player: u8, action_type: ActionType) -> Action {
    Action { team, player: Player(player), action_type }
}

#[test]
fn numbered_zones_are_in_court_and_specials_are_not() {
    assert!(Zone::One(None).in_court());
    assert!(Zone::Nine(None).in_court());
    assert!(!Zone::Overpass.in_court());
    assert!(!Zone::OutOfBounds.in_court());
    assert!(!Zone::Net.in_court());
}

#[test]
fn receive_overpass_scores_directly() {
    let serve = act(Team::Away, 1, ActionType::Serve(None, Some(Zone::Four(None))));
    let receive = act(Team::Home, 5, ActionType::Receive(Some(Height::High), Some(Zone::Overpass)));
    let who = ActionType::who_scored_point(receive, Some(serve));
    assert_eq!(who.scored.unwrap().player, Player(5));
    assert!(who.faulted.is_none());
    assert_eq!(who.point_to, Team::Home);
}

#[test]
fn receive_with_related_credits_the_related_action() {
    let serve = act(Team::Away, 1, ActionType::Serve(None, Some(Zone::Four(None))));
    let receive = act(Team::Home, 5, ActionType::Receive(None, Some(Zone::Six(None))));
    let who = ActionType::who_scored_point(receive, Some(serve));
    assert_eq!(who.scored.unwrap().player, Player(1));
    assert_eq!(who.faulted.unwrap().player, Player(5));
    assert_eq!(who.point_to, Team::Away);
}

#[test]
fn lone_receive_faults_the_receiver() {
    let receive = act(Team::Home, 5, ActionType::Receive(None, None));
    let who = ActionType::who_scored_point(receive, None);
    assert!(who.scored.is_none());
    assert_eq!(who.faulted.unwrap().player, Player(5));
    assert_eq!(who.point_to, Team::Away);
}

#[test]
fn pass_follows_the_receive_rules() {
    let hit = act(Team::Away, 3, ActionType::Hit(Some(Zone::Six(None))));
    let pass = act(Team::Home, 5, ActionType::Pass(None, Some(Zone::Six(None))));
    let who = ActionType::who_scored_point(pass, Some(hit));
    assert_eq!(who.scored.unwrap().player, Player(3));
    assert_eq!(who.point_to, Team::Away);

    let overpass = act(Team::Home, 5, ActionType::Pass(None, Some(Zone::Overpass)));
    let who = ActionType::who_scored_point(overpass, Some(hit));
    assert_eq!(who.scored.unwrap().player, Player(5));
    assert_eq!(who.point_to, Team::Home);
}

#[test]
fn rally_ending_set_blames_the_setter() {
    let hit = act(Team::Away, 3, ActionType::Hit(Some(Zone::Six(None))));
    let setting = act(Team::Home, 7, ActionType::Setting);
    let who = ActionType::who_scored_point(setting, Some(hit));
    assert!(who.scored.is_none());
    assert_eq!(who.faulted.unwrap().player, Player(7));
    assert_eq!(who.point_to, Team::Away);
}

#[test]
fn hit_in_court_scores_for_hitter() {
    let hit = act(Team::Home, 9, ActionType::Hit(Some(Zone::One(None))));
    let who = ActionType::who_scored_point(hit, None);
    assert_eq!(who.scored.unwrap().player, Player(9));
    assert!(who.faulted.is_none());
    assert_eq!(who.point_to, Team::Home);
}

#[test]
fn hit_into_net_faults_the_hitter() {
    let hit = act(Team::Home, 9, ActionType::Hit(Some(Zone::Net)));
    let who = ActionType::who_scored_point(hit, None);
    assert!(who.scored.is_none());
    assert_eq!(who.faulted.unwrap().player, Player(9));
    assert_eq!(who.point_to, Team::Away);
}

#[test]
fn winning_block_blames_the_related_hitter() {
    let hit = act(Team::Away, 3, ActionType::Hit(Some(Zone::Two(None))));
    let block = act(Team::Home, 8, ActionType::Block(Team::Away, Some(Zone::Two(None))));
    let who = ActionType::who_scored_point(block, Some(hit));
    assert_eq!(who.scored.unwrap().player, Player(8));
    assert_eq!(who.faulted.unwrap().player, Player(3));
    assert_eq!(who.point_to, Team::Home);
}

#[test]
fn winning_block_without_related_scores_alone() {
    let block = act(Team::Home, 8, ActionType::Block(Team::Away, None));
    let who = ActionType::who_scored_point(block, None);
    assert_eq!(who.scored.unwrap().player, Player(8));
    assert!(who.faulted.is_none());
    assert_eq!(who.point_to, Team::Home);
}

#[test]
fn own_side_block_credits_the_related_action() {
    let hit = act(Team::Away, 3, ActionType::Hit(Some(Zone::Two(None))));
    let block = act(Team::Home, 8, ActionType::Block(Team::Home, Some(Zone::Two(None))));
    let who = ActionType::who_scored_point(block, Some(hit));
    assert_eq!(who.scored.unwrap().player, Player(3));
    assert_eq!(who.faulted.unwrap().player, Player(8));
    assert_eq!(who.point_to, Team::Away);
}

#[test]
fn block_out_of_court_without_related_faults_the_blocker() {
    let block = act(Team::Home, 8, ActionType::Block(Team::Away, Some(Zone::OutOfBounds)));
    let who = ActionType::who_scored_point(block, None);
    assert!(who.scored.is_none());
    assert_eq!(who.faulted.unwrap().player, Player(8));
    assert_eq!(who.point_to, Team::Away);
}

#[test]
fn freeball_follows_the_hit_rules() {
    let free = act(Team::Away, 2, ActionType::Freeball(Some(Zone::Five(None))));
    let who = ActionType::who_scored_point(free, None);
    assert_eq!(who.scored.unwrap().player, Player(2));
    assert_eq!(who.point_to, Team::Away);

    let free_out = act(Team::Away, 2, ActionType::Freeball(Some(Zone::OutOfBounds)));
    let who = ActionType::who_scored_point(free_out, None);
    assert_eq!(who.faulted.unwrap().player, Player(2));
    assert_eq!(who.point_to, Team::Home);
}
