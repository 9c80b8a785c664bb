use rallyscore::error::ReasonKey;
use rallyscore::match_state::{
    MatchState, MatchStatus, Player, PlayerScores, PlayerStats, StatsByPlayer, Team, TeamStats,
    UpdateMatchState,
};
use rallyscore::parser::parse;
use rallyscore::resolve_rally;
use rallyscore::Config;

fn cfg() -> Config {
    Config { away_prefix: '@', home_prefix: '!' }
}

#[test]
fn rally_deltas_count_serves() {
    let rally = parse(cfg(), "@1SA4").unwrap();
    let update = UpdateMatchState::new(&rally);
    assert_eq!(update.point_to, Team::Away);
    let one = update.away_player_stats.get(1).unwrap();
    assert_eq!(one.serves, PlayerScores { scored: 1, faults: 0, all: 1 });
    assert_eq!(one.hits, PlayerScores::new());
    assert_eq!(one.blocks, PlayerScores::new());
    assert!(update.home_player_stats.0.is_empty());
}

#[test]
fn rally_deltas_count_a_faulted_serve() {
    let rally = parse(cfg(), "@1SA0").unwrap();
    let update = UpdateMatchState::new(&rally);
    assert_eq!(update.point_to, Team::Home);
    let one = update.away_player_stats.get(1).unwrap();
    assert_eq!(one.serves, PlayerScores { scored: 0, faults: 1, all: 1 });
}

#[test]
fn rally_deltas_cover_both_sides() {
    let rally = parse(cfg(), "@1SA4 !2RM6 !3E").unwrap();
    let update = UpdateMatchState::new(&rally);
    // The rally ends on the home setter, who is blamed; the point goes away.
    assert_eq!(update.point_to, Team::Away);
    let server = update.away_player_stats.get(1).unwrap();
    assert_eq!(server.serves, PlayerScores { scored: 0, faults: 0, all: 1 });
    // Receives and sets carry no counted category.
    let receiver = update.home_player_stats.get(2).unwrap();
    assert_eq!(receiver, PlayerStats::new(Player(2)));
    let setter = update.home_player_stats.get(3).unwrap();
    assert_eq!(setter, PlayerStats::new(Player(3)));
}

#[test]
fn rally_deltas_attribute_a_winning_block() {
    let rally = parse(cfg(), "@1SA4 !2RM6 !3E !4H2 @5B!2").unwrap();
    let update = UpdateMatchState::new(&rally);
    assert_eq!(update.point_to, Team::Away);
    let blocker = update.away_player_stats.get(5).unwrap();
    assert_eq!(blocker.blocks, PlayerScores { scored: 1, faults: 0, all: 1 });
    let hitter = update.home_player_stats.get(4).unwrap();
    assert_eq!(hitter.hits, PlayerScores { scored: 0, faults: 1, all: 1 });
}

#[test]
fn resolve_awards_the_point() {
    let state = MatchState::new();
    let next = resolve_rally(cfg(), "@1SA4", state).unwrap();
    assert_eq!(next.away_team.points, 1);
    assert_eq!(next.home_team.points, 0);
    assert_eq!(next.status, MatchStatus::InProgress);
}

#[test]
fn resolve_reports_the_defect() {
    let state = MatchState::new();
    let e = resolve_rally(cfg(), "@1SA4 !2X", state).unwrap_err();
    assert_eq!(e.key, ReasonKey::InvalidInput);
    assert_eq!(e.location, 1);
}

#[test]
fn resolve_merges_stats_for_known_players() {
    let state = MatchState {
        away_team: TeamStats {
            sets: 0,
            points: 0,
            player_stats: StatsByPlayer(vec![PlayerStats::new(Player(1))]),
        },
        home_team: TeamStats { sets: 0, points: 0, player_stats: StatsByPlayer(Vec::new()) },
        status: MatchStatus::InProgress,
    };
    let next = resolve_rally(cfg(), "@1SA4", state).unwrap();
    let one = next.away_team.player_stats.get(1).unwrap();
    assert_eq!(one.serves, PlayerScores { scored: 1, faults: 0, all: 1 });

    let again = resolve_rally(cfg(), "@1SA0", next).unwrap();
    let one = again.away_team.player_stats.get(1).unwrap();
    assert_eq!(one.serves, PlayerScores { scored: 1, faults: 1, all: 2 });
    assert_eq!(again.away_team.points, 1);
    assert_eq!(again.home_team.points, 1);
}

#[test]
fn resolve_starts_tracking_new_players() {
    // A player first seen in this rally enters the cumulative table with
    // the rally's delta as their opening entry.
    let state = MatchState::new();
    let next = resolve_rally(cfg(), "@1SA4", state).unwrap();
    let one = next.away_team.player_stats.get(1).unwrap();
    assert_eq!(one.serves, PlayerScores { scored: 1, faults: 0, all: 1 });
    assert!(next.home_team.player_stats.0.is_empty());

    let again = resolve_rally(cfg(), "@1SA4 !2H0", next).unwrap();
    let one = again.away_team.player_stats.get(1).unwrap();
    assert_eq!(one.serves, PlayerScores { scored: 1, faults: 0, all: 2 });
    let two = again.home_team.player_stats.get(2).unwrap();
    assert_eq!(two.hits, PlayerScores { scored: 0, faults: 1, all: 1 });
    assert_eq!(again.away_team.points, 2);
}

#[test]
fn unit_discards_its_argument() {
    rallyscore::utils::unit(42usize);
    rallyscore::utils::unit("anything");
}
