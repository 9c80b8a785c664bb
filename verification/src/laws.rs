//! The library's general laws, stated once over the spec functions that the
//! executable contracts use, and proved by Verus.

use vstd::prelude::*;

use crate::match_state::{
    spec_board_point, spec_board_update, spec_set_ceiling, spec_set_winner, MatchStatus,
    PlayerScores, ScoreBoard, Team,
};
use crate::action::Action;
use crate::parser::{spec_parse_player, spec_parse_rally};
use crate::scoring::spec_who_scored;
use crate::Config;

verus! {

/// Parsing is deterministic: the same configuration and the same rally text
/// always yield the same actions and the same verdict.
pub proof fn lemma_parse_deterministic(config: Config, s1: Seq<char>, s2: Seq<char>)
    requires
        s1 == s2,
    ensures
        spec_parse_rally(config, s1) == spec_parse_rally(config, s2),
{
}

/// Merging player scores is commutative.
pub proof fn lemma_merge_commutative(a: PlayerScores, b: PlayerScores)
    ensures
        a.spec_merge(b) == b.spec_merge(a),
{
}

/// Merging player scores is associative, for score triples whose counters
/// are non-negative and whose per-field totals fit in the counter type.
pub proof fn lemma_merge_associative(a: PlayerScores, b: PlayerScores, c: PlayerScores)
    requires
        a.wf(),
        b.wf(),
        c.wf(),
        a.scored + b.scored + c.scored <= i16::MAX,
        a.faults + b.faults + c.faults <= i16::MAX,
        a.all + b.all + c.all <= i16::MAX,
    ensures
        a.spec_merge(b).spec_merge(c) == a.spec_merge(b.spec_merge(c)),
        a.merge_fits(b),
        b.merge_fits(c),
        a.spec_merge(b).merge_fits(c),
        a.merge_fits(b.spec_merge(c)),
{
}

/// The all-zero value is a two-sided identity of merging.
pub proof fn lemma_merge_identity(a: PlayerScores)
    ensures
        a.spec_merge(PlayerScores::spec_zero()) == a,
        PlayerScores::spec_zero().spec_merge(a) == a,
        a.merge_fits(PlayerScores::spec_zero()),
        PlayerScores::spec_zero().merge_fits(a),
{
}

/// The set-win ceiling is 15 exactly when the sets so far sum to 5 (the
/// deciding set), and 25 otherwise.
pub proof fn lemma_set_ceiling_value(winner_sets: u8, loser_sets: u8)
    ensures
        winner_sets + loser_sets == 5 ==> spec_set_ceiling(winner_sets, loser_sets) == 15,
        winner_sets + loser_sets != 5 ==> spec_set_ceiling(winner_sets, loser_sets) == 25,
{
}

/// The set winner, characterised completely: a side wins the set exactly
/// when it holds strictly more points than the other side, at least this
/// set's ceiling, and a lead of strictly more than one point; in every
/// other position nobody wins.
pub proof fn lemma_set_winner_characterisation(b: ScoreBoard)
    ensures
        spec_set_winner(b) == Some(Team::Away) <==> (b.away_points > b.home_points
            && b.away_points >= spec_set_ceiling(b.away_sets, b.home_sets) && b.away_points
            - b.home_points > 1),
        spec_set_winner(b) == Some(Team::Home) <==> (b.home_points > b.away_points
            && b.home_points >= spec_set_ceiling(b.home_sets, b.away_sets) && b.home_points
            - b.away_points > 1),
        spec_set_winner(b) is None <==> !(spec_set_winner(b) == Some(Team::Away)
            || spec_set_winner(b) == Some(Team::Home)),
{
}

/// A set is only ever won at or above the ceiling and with a lead of
/// strictly more than one point.
pub proof fn lemma_set_win_margin(b: ScoreBoard)
    ensures
        spec_set_winner(b) == Some(Team::Away) ==> b.away_points >= spec_set_ceiling(
            b.away_sets,
            b.home_sets,
        ) && b.away_points - b.home_points > 1,
        spec_set_winner(b) == Some(Team::Home) ==> b.home_points >= spec_set_ceiling(
            b.home_sets,
            b.away_sets,
        ) && b.home_points - b.away_points > 1,
{
}

/// An update awards exactly one point and at most one set, and both sides'
/// points reset to zero in exactly the updates that raise a side's set
/// count; when no set is won, the points stand as awarded. The bounds on
/// the incoming board are the machine limits under which its counters
/// cannot wrap.
pub proof fn lemma_points_reset_iff_set_won(b: ScoreBoard, point_to: Team)
    requires
        match point_to {
            Team::Away => b.away_points < u8::MAX,
            Team::Home => b.home_points < u8::MAX,
        },
        b.away_sets + b.home_sets <= 254,
    ensures
        ({
            let nb = spec_board_update(b, point_to);
            (nb.away_sets + nb.home_sets == b.away_sets + b.home_sets + 1) <==> (nb.away_points == 0
                && nb.home_points == 0)
        }),
        ({
            let nb = spec_board_update(b, point_to);
            nb.away_sets + nb.home_sets == b.away_sets + b.home_sets || nb.away_sets + nb.home_sets
                == b.away_sets + b.home_sets + 1
        }),
        ({
            let nb = spec_board_update(b, point_to);
            let pointed = spec_board_point(b, point_to);
            spec_set_winner(pointed) is None ==> (nb.away_points == pointed.away_points
                && nb.home_points == pointed.home_points && nb.away_sets == b.away_sets
                && nb.home_sets == b.home_sets)
        }),
{
}

/// After an update the match is finished exactly when it already was, or a
/// side's set count has just reached three.
pub proof fn lemma_finished_iff_three_sets(b: ScoreBoard, point_to: Team)
    ensures
        ({
            let nb = spec_board_update(b, point_to);
            nb.status == MatchStatus::Finished <==> (b.status == MatchStatus::Finished
                || nb.away_sets == 3 || nb.home_sets == 3)
        }),
{
}

/// A verdict always names at least one of a credited and a blamed action,
/// and never neither.
pub proof fn lemma_verdict_names_someone(last: Action, related: Option<Action>)
    ensures
        spec_who_scored(last, related).scored is Some || spec_who_scored(last, related).faulted
            is Some,
{
}

/// A parsed player number always fits one or two decimal digits.
pub proof fn lemma_player_number_in_range(t: Seq<char>, i: int)
    ensures
        spec_parse_player(t, i) matches Ok(pj) ==> pj.0.0 <= 99,
{
}

/// A finished match never reverts to being in progress.
pub proof fn lemma_status_monotonic(b: ScoreBoard, point_to: Team)
    ensures
        b.status == MatchStatus::Finished ==> spec_board_update(b, point_to).status
            == MatchStatus::Finished,
{
}

} // verus!
