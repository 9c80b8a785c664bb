//! A verified core for live volleyball scorekeeping.
//!
//! A rally is typed as one compact, space-delimited string of action tokens
//! (for example `"@1SA4 !2H0"`). The library parses such a string into a
//! sequence of typed actions, decides which player scored or faulted and
//! which team receives the point, and folds the outcome into the running
//! match state (sets, points, per-player statistics).

use vstd::prelude::*;

use crate::action::Action;
use crate::error::Reason;
use crate::match_state::{
    spec_board_update, spec_merge_stats, spec_stats_merge_fits, MatchState, PlayerScores,
    PlayerStats, Team,
};
use crate::parser::{
    lemma_parse_actions_len, lemma_split_count, lemma_split_nonempty, spec_parse_rally, spec_split,
};
use crate::stats::{lemma_count_le, spec_delta_table, StatCategory};

pub mod action;
pub mod error;
pub mod laws;
pub mod match_state;
pub mod parser;
pub mod scoring;
pub mod stats;
pub mod utils;

verus! {

/// Which character marks each side's tokens in the rally notation.
///
/// The two prefixes must be distinct characters; the customary choice is
/// `@` for the away side and `!` for the home side.
#[derive(Clone, Copy, PartialEq, Eq, Structural, Debug)]
pub struct Config {
    pub away_prefix: char,
    pub home_prefix: char,
}

impl Config {
    /// A configuration is well formed when the two prefixes differ.
    pub open spec fn wf(self) -> bool {
        self.away_prefix != self.home_prefix
    }
}

/// All three counters of one category are non-negative and leave `budget`
/// headroom below the counter type's maximum.
pub open spec fn spec_scores_within(ps: PlayerScores, budget: int) -> bool {
    &&& 0 <= ps.scored && ps.scored + budget <= i16::MAX
    &&& 0 <= ps.faults && ps.faults + budget <= i16::MAX
    &&& 0 <= ps.all && ps.all + budget <= i16::MAX
}

/// Every counter of the entry leaves `budget` headroom.
pub open spec fn spec_entry_within(e: PlayerStats, budget: int) -> bool {
    spec_scores_within(e.hits, budget) && spec_scores_within(e.blocks, budget)
        && spec_scores_within(e.serves, budget)
}

/// Every counter of every entry leaves `budget` headroom.
pub open spec fn spec_stats_within(s: Seq<PlayerStats>, budget: int) -> bool {
    forall|i: int| 0 <= i < s.len() ==> spec_entry_within(#[trigger] s[i], budget)
}

/// The machine limits under which a rally of `len` characters can be folded
/// into `state` without any counter overflowing: the points and set counts
/// have room for this rally, and every statistic counter has room for the
/// at most `len + 1` increments one rally can contribute.
pub open spec fn spec_accepts_rally(state: MatchState, len: nat) -> bool {
    &&& state.away_team.points < u8::MAX
    &&& state.home_team.points < u8::MAX
    &&& state.away_team.sets + state.home_team.sets <= 254
    &&& len + 2 <= i16::MAX
    &&& spec_stats_within(state.away_team.player_stats.0@, len as int + 1)
    &&& spec_stats_within(state.home_team.player_stats.0@, len as int + 1)
}

/// One side's statistics after a rally: the cumulative table with the
/// rally's delta table folded in. An entry whose player acted takes the
/// element-wise sums with the delta entry; the other entries are unchanged;
/// acting players that the table did not yet track join it at the end.
pub open spec fn spec_apply_rally_stats(
    base: Seq<PlayerStats>,
    actions: Seq<Action>,
    t: Team,
) -> Seq<PlayerStats> {
    spec_merge_stats(base, spec_delta_table(actions, t))
}

/// The single entry point for one rally: parse the text, derive the verdict
/// and the per-player deltas, and fold them into the match state. On a
/// malformed rally the state is left behind and the defect is returned with
/// the index of the offending token.
pub fn resolve_rally(config: Config, rally: &str, current_state: MatchState) -> (r: Result<
    MatchState,
    Reason,
>)
    requires
        config.wf(),
        spec_accepts_rally(current_state, rally@.len()),
    ensures
        match spec_parse_rally(config, rally@) {
            Err(e) => r matches Err(re) && re.key == e.0 && re.location as int == e.1 && re.wf(),
            Ok(aw) => r matches Ok(ns) && ns.spec_board() == spec_board_update(
                current_state.spec_board(),
                aw.1.point_to,
            ) && ns.away_team.player_stats.0@ == spec_apply_rally_stats(
                current_state.away_team.player_stats.0@,
                aw.0,
                Team::Away,
            ) && ns.home_team.player_stats.0@ == spec_apply_rally_stats(
                current_state.home_team.player_stats.0@,
                aw.0,
                Team::Home,
            ),
        },
{
    let parsed = match crate::parser::parse(config, rally) {
        Err(e) => {
            return Err(e);
        },
        Ok(p) => p,
    };
    let ghost actions = parsed.actions@;
    proof {
        lemma_split_nonempty(rally@);
        lemma_split_count(rally@);
        lemma_parse_actions_len(config, spec_split(rally@), 0);
        assert(1 <= actions.len() <= rally@.len() + 1);
    }
    let update = match_state::UpdateMatchState::new(&parsed);
    proof {
        let away0 = current_state.away_team.player_stats.0@;
        let home0 = current_state.home_team.player_stats.0@;
        assert forall|i: int| 0 <= i < away0.len() implies (#[trigger] away0[i]).entry_merge_fits(
            update.away_player_stats.0@,
        ) by {
            lemma_count_le(actions, Team::Away, away0[i].player.0, StatCategory::Hits);
            lemma_count_le(actions, Team::Away, away0[i].player.0, StatCategory::Blocks);
            lemma_count_le(actions, Team::Away, away0[i].player.0, StatCategory::Serves);
        }
        assert forall|i: int| 0 <= i < home0.len() implies (#[trigger] home0[i]).entry_merge_fits(
            update.home_player_stats.0@,
        ) by {
            lemma_count_le(actions, Team::Home, home0[i].player.0, StatCategory::Hits);
            lemma_count_le(actions, Team::Home, home0[i].player.0, StatCategory::Blocks);
            lemma_count_le(actions, Team::Home, home0[i].player.0, StatCategory::Serves);
        }
        assert(spec_stats_merge_fits(away0, update.away_player_stats.0@));
        assert(spec_stats_merge_fits(home0, update.home_player_stats.0@));
    }
    let new_state = current_state.update(update);
    Ok(new_state)
}

} // verus!
