use rallyscore::match_state::{
    MatchState, MatchStatus, Player, PlayerScores, PlayerStats, StatsByPlayer, Team, TeamStats,
    UpdateMatchState,
};
use rallyscore::Config;

fn board(away_sets: u8, away_points: u8, home_sets: u8, home_points: u8) -> MatchState {
    MatchState {
        away_team: TeamStats {
            sets: away_sets,
            points: away_points,
            player_stats: StatsByPlayer(Vec::new()),
        },
        home_team: TeamStats {
            sets: home_sets,
            points: home_points,
            player_stats: StatsByPlayer(Vec::new()),
        },
        status: MatchStatus::InProgress,
    }
}

fn point_to(team: Team) -> UpdateMatchState {
    UpdateMatchState {
        point_to: team,
        away_player_stats: StatsByPlayer(Vec::new()),
        home_player_stats: StatsByPlayer(Vec::new()),
    }
}

#[test]
fn merge_adds_element_wise() {
    let a = PlayerScores { scored: 1, faults: 2, all: 3 };
    let b = PlayerScores { scored: 10, faults: 20, all: 30 };
    assert_eq!(a.merge(b), PlayerScores { scored: 11, faults: 22, all: 33 });
}

#[test]
fn merge_is_commutative_on_values() {
    let a = PlayerScores { scored: 4, faults: 1, all: 9 };
    let b = PlayerScores { scored: 2, faults: 7, all: 5 };
    assert_eq!(a.merge(b), b.merge(a));
}

#[test]
fn merge_is_associative_on_values() {
    let a = PlayerScores { scored: 4, faults: 1, all: 9 };
    let b = PlayerScores { scored: 2, faults: 7, all: 5 };
    let c = PlayerScores { scored: 3, faults: 3, all: 3 };
    assert_eq!(a.merge(b).merge(c), a.merge(b.merge(c)));
}

#[test]
fn zero_is_the_merge_identity() {
    let a = PlayerScores { scored: 4, faults: 1, all: 9 };
    assert_eq!(a.merge(PlayerScores::new()), a);
    assert_eq!(PlayerScores::new().merge(a), a);
}

#[test]
fn deuce_point_does_not_win_the_set() {
    let state = board(0, 24, 0, 24);
    let next = state.update(point_to(Team::Away));
    assert_eq!(next.away_team.points, 25);
    assert_eq!(next.home_team.points, 24);
    assert_eq!(next.away_team.sets, 0);
    assert_eq!(next.home_team.sets, 0);
    assert_eq!(next.status, MatchStatus::InProgress);
}

#[test]
fn two_point_margin_at_the_ceiling_wins_the_set() {
    let state = board(0, 24, 0, 10);
    let next = state.update(point_to(Team::Away));
    assert_eq!(next.away_team.sets, 1);
    assert_eq!(next.away_team.points, 0);
    assert_eq!(next.home_team.points, 0);
    assert_eq!(next.status, MatchStatus::InProgress);
}

#[test]
fn fifth_set_points_do_not_win_at_the_regular_ceiling() {
    let state = board(2, 13, 2, 13);
    let mid = state.update(point_to(Team::Away));
    assert_eq!(mid.away_team.points, 14);
    assert_eq!(mid.away_team.sets, 2);
    assert_eq!(mid.status, MatchStatus::InProgress);
    let next = mid.update(point_to(Team::Away));
    assert_eq!(next.away_team.points, 15);
    assert_eq!(next.home_team.points, 13);
    assert_eq!(next.away_team.sets, 2);
    assert_eq!(next.status, MatchStatus::InProgress);
}

#[test]
fn deciding_set_ceiling_is_fifteen_when_sets_sum_to_five() {
    let state = board(2, 14, 3, 13);
    let next = state.update(point_to(Team::Away));
    assert_eq!(next.away_team.sets, 3);
    assert_eq!(next.away_team.points, 0);
    assert_eq!(next.home_team.points, 0);
    assert_eq!(next.status, MatchStatus::Finished);
}

#[test]
fn third_set_finishes_the_match() {
    let state = board(2, 24, 0, 0);
    let next = state.update(point_to(Team::Away));
    assert_eq!(next.away_team.sets, 3);
    assert_eq!(next.away_team.points, 0);
    assert_eq!(next.home_team.points, 0);
    assert_eq!(next.status, MatchStatus::Finished);
}

#[test]
fn points_reset_exactly_when_a_set_is_won() {
    let no_win = board(1, 5, 0, 3).update(point_to(Team::Home));
    assert_eq!(no_win.home_team.points, 4);
    assert_eq!(no_win.away_team.points, 5);
    assert_eq!(no_win.away_team.sets + no_win.home_team.sets, 1);

    let win = board(1, 5, 0, 24).update(point_to(Team::Home));
    assert_eq!(win.home_team.points, 0);
    assert_eq!(win.away_team.points, 0);
    assert_eq!(win.home_team.sets, 1);
    assert_eq!(win.away_team.sets, 1);
}

#[test]
fn status_never_reverts_after_finish() {
    let done = board(2, 24, 0, 0).update(point_to(Team::Away));
    assert_eq!(done.status, MatchStatus::Finished);
    let after = done.update(point_to(Team::Home));
    assert_eq!(after.status, MatchStatus::Finished);
}

#[test]
fn stats_merge_keys_the_union_of_both_tables() {
    let base = StatsByPlayer(vec![
        PlayerStats {
            player: Player(1),
            hits: PlayerScores { scored: 1, faults: 0, all: 2 },
            blocks: PlayerScores::new(),
            serves: PlayerScores { scored: 3, faults: 1, all: 5 },
        },
        PlayerStats::new(Player(2)),
    ]);
    let delta = StatsByPlayer(vec![
        PlayerStats {
            player: Player(1),
            hits: PlayerScores { scored: 0, faults: 1, all: 1 },
            blocks: PlayerScores::new(),
            serves: PlayerScores { scored: 1, faults: 0, all: 1 },
        },
        PlayerStats {
            player: Player(9),
            hits: PlayerScores { scored: 7, faults: 7, all: 7 },
            blocks: PlayerScores::new(),
            serves: PlayerScores::new(),
        },
    ]);
    let merged = base.merge(delta);
    assert_eq!(merged.0.len(), 3);
    let one = merged.get(1).unwrap();
    assert_eq!(one.hits, PlayerScores { scored: 1, faults: 1, all: 3 });
    assert_eq!(one.serves, PlayerScores { scored: 4, faults: 1, all: 6 });
    let two = merged.get(2).unwrap();
    assert_eq!(two, PlayerStats::new(Player(2)));
    // A delta for a player the table did not yet track joins it at the end.
    let nine = merged.get(9).unwrap();
    assert_eq!(nine.hits, PlayerScores { scored: 7, faults: 7, all: 7 });
    assert_eq!(merged.0[2].player, Player(9));
}

#[test]
fn team_prefix_lookup_matches_configuration() {
    let cfg = Config { away_prefix: '@', home_prefix: '!' };
    assert_eq!(Team::from_prefix(cfg, '@'), Some(Team::Away));
    assert_eq!(Team::from_prefix(cfg, '!'), Some(Team::Home));
    assert_eq!(Team::from_prefix(cfg, '?'), None);
    assert!(Team::from_char(cfg, '?').is_err());
    assert_eq!(Team::from_char(cfg, '@').unwrap(), Team::Away);
}

#[test]
fn opponent_swaps_the_sides() {
    assert_eq!(Team::Away.get_opponent(), Team::Home);
    assert_eq!(Team::Home.get_opponent(), Team::Away);
}
