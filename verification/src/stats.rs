//! Per-rally statistic deltas: how one parsed rally changes each side's
//! per-player counters.
//!
//! Every action increments its acting player's `all` counter in the
//! category it belongs to (serves, hits or blocks; the other action kinds
//! carry no counted category). The action credited by the verdict
//! additionally increments its category's `scored` counter once, and the
//! blamed action its `faults` counter once.

use vstd::prelude::*;

use crate::action::{Action, ActionType, Rally};
use crate::match_state::{
    lemma_find_stats_absent, lemma_find_stats_index, lemma_find_stats_push,
    lemma_find_stats_update, spec_find_stats, spec_players_of, Player, PlayerScores, PlayerStats,
    StatsByPlayer, Team, UpdateMatchState,
};
use crate::parser::{spec_last_action, spec_related_action};
use crate::scoring::{
    faulting_action, scoring_action, spec_faulting_action, spec_scoring_action,
};

verus! {

/// The three counted statistic categories.
#[derive(Clone, Copy, PartialEq, Eq, Structural, Debug)]
pub enum StatCategory {
    Serves,
    Hits,
    Blocks,
}

/// The category an action kind counts towards, if any.
pub open spec fn spec_category(at: ActionType) -> Option<StatCategory> {
    match at {
        ActionType::Serve(_, _) => Some(StatCategory::Serves),
        ActionType::Hit(_) => Some(StatCategory::Hits),
        ActionType::Block(_, _) => Some(StatCategory::Blocks),
        _ => None,
    }
}

/// How many actions of `s` are performed by player `p` of side `t` in
/// category `c`.
pub open spec fn spec_count_all(s: Seq<Action>, t: Team, p: u8, c: StatCategory) -> nat
    decreases s.len(),
{
    if s.len() == 0 {
        0
    } else {
        spec_count_all(s.drop_last(), t, p, c) + if s.last().team == t && s.last().player.0 == p
            && spec_category(s.last().action_type) == Some(c) {
            1nat
        } else {
            0nat
        }
    }
}

/// Whether any action of `s` is performed by player `p` of side `t`.
pub open spec fn spec_delta_has(s: Seq<Action>, t: Team, p: u8) -> bool {
    exists|i: int| 0 <= i < s.len() && (#[trigger] s[i]).team == t && s[i].player.0 == p
}

/// The one attributed increment an optional credited or blamed action
/// contributes to (side, player, category).
pub open spec fn spec_bonus(a: Option<Action>, t: Team, p: u8, c: StatCategory) -> nat {
    match a {
        None => 0,
        Some(act) => if act.team == t && act.player.0 == p && spec_category(act.action_type)
            == Some(c) {
            1
        } else {
            0
        },
    }
}

/// The entry for player `p` of side `t` after the `all` counters of a rally
/// are tallied, before any verdict attribution.
pub open spec fn spec_all_entry(s: Seq<Action>, t: Team, p: u8) -> PlayerStats {
    PlayerStats {
        player: Player(p),
        hits: PlayerScores {
            scored: 0,
            faults: 0,
            all: spec_count_all(s, t, p, StatCategory::Hits) as i16,
        },
        blocks: PlayerScores {
            scored: 0,
            faults: 0,
            all: spec_count_all(s, t, p, StatCategory::Blocks) as i16,
        },
        serves: PlayerScores {
            scored: 0,
            faults: 0,
            all: spec_count_all(s, t, p, StatCategory::Serves) as i16,
        },
    }
}

/// The complete delta entry for player `p` of side `t`: tallies of every
/// action, plus the verdict's attributed increments.
pub open spec fn spec_delta_entry(s: Seq<Action>, t: Team, p: u8) -> PlayerStats {
    let sa = spec_scoring_action(spec_last_action(s), spec_related_action(s));
    let fa = spec_faulting_action(spec_last_action(s), spec_related_action(s));
    PlayerStats {
        player: Player(p),
        hits: PlayerScores {
            scored: spec_bonus(sa, t, p, StatCategory::Hits) as i16,
            faults: spec_bonus(fa, t, p, StatCategory::Hits) as i16,
            all: spec_count_all(s, t, p, StatCategory::Hits) as i16,
        },
        blocks: PlayerScores {
            scored: spec_bonus(sa, t, p, StatCategory::Blocks) as i16,
            faults: spec_bonus(fa, t, p, StatCategory::Blocks) as i16,
            all: spec_count_all(s, t, p, StatCategory::Blocks) as i16,
        },
        serves: PlayerScores {
            scored: spec_bonus(sa, t, p, StatCategory::Serves) as i16,
            faults: spec_bonus(fa, t, p, StatCategory::Serves) as i16,
            all: spec_count_all(s, t, p, StatCategory::Serves) as i16,
        },
    }
}

/// The players who act for side `t`, each once, in order of first action.
pub open spec fn spec_delta_players(s: Seq<Action>, t: Team) -> Seq<u8>
    decreases s.len(),
{
    if s.len() == 0 {
        Seq::<u8>::empty()
    } else {
        let rest = spec_delta_players(s.drop_last(), t);
        if s.last().team == t && !rest.contains(s.last().player.0) {
            rest.push(s.last().player.0)
        } else {
            rest
        }
    }
}

/// Side `t`'s complete delta table for one rally: one entry per acting
/// player, in order of first action.
pub open spec fn spec_delta_table(s: Seq<Action>, t: Team) -> Seq<PlayerStats> {
    spec_delta_players(s, t).map_values(|p: u8| spec_delta_entry(s, t, p))
}

/// A player stands in the ordered player list exactly when they act in the
/// rally.
pub proof fn lemma_delta_players_contains(s: Seq<Action>, t: Team, p: u8)
    ensures
        spec_delta_players(s, t).contains(p) <==> spec_delta_has(s, t, p),
    decreases s.len(),
{
    if s.len() > 0 {
        lemma_delta_players_contains(s.drop_last(), t, p);
        assert(s.drop_last().push(s.last()) =~= s);
        lemma_has_push(s.drop_last(), s.last(), t, p);
        let rest = spec_delta_players(s.drop_last(), t);
        let whole = spec_delta_players(s, t);
        if s.last().team == t && !rest.contains(s.last().player.0) {
            assert(whole == rest.push(s.last().player.0));
            if rest.contains(p) {
                let i = choose|i: int| 0 <= i < rest.len() && rest[i] == p;
                assert(whole[i] == p);
                assert(whole.contains(p));
            }
            if p == s.last().player.0 {
                assert(whole[rest.len() as int] == p);
                assert(whole.contains(p));
            }
            if whole.contains(p) {
                let i = choose|i: int| 0 <= i < whole.len() && whole[i] == p;
                if i < rest.len() {
                    assert(rest[i] == p);
                    assert(rest.contains(p));
                } else {
                    assert(p == s.last().player.0);
                }
            }
        } else {
            assert(whole == rest);
            if s.last().team == t && s.last().player.0 == p {
                assert(rest.contains(p));
            }
        }
    }
}

/// A category count never exceeds the number of actions.
pub proof fn lemma_count_le(s: Seq<Action>, t: Team, p: u8, c: StatCategory)
    ensures
        spec_count_all(s, t, p, c) <= s.len(),
    decreases s.len(),
{
    if s.len() > 0 {
        lemma_count_le(s.drop_last(), t, p, c);
    }
}

/// A player who appears in no action has zero counts.
pub proof fn lemma_count_zero(s: Seq<Action>, t: Team, p: u8, c: StatCategory)
    requires
        !spec_delta_has(s, t, p),
    ensures
        spec_count_all(s, t, p, c) == 0,
    decreases s.len(),
{
    if s.len() > 0 {
        assert(s[s.len() - 1] == s.last());
        assert(!(s.last().team == t && s.last().player.0 == p));
        assert(!spec_delta_has(s.drop_last(), t, p)) by {
            if spec_delta_has(s.drop_last(), t, p) {
                let i = choose|i: int|
                    0 <= i < s.drop_last().len() && (#[trigger] s.drop_last()[i]).team == t
                        && s.drop_last()[i].player.0 == p;
                assert(s[i] == s.drop_last()[i]);
            }
        }
        lemma_count_zero(s.drop_last(), t, p, c);
    }
}

/// How appending one action changes a count.
pub proof fn lemma_count_push(s: Seq<Action>, a: Action, t: Team, p: u8, c: StatCategory)
    ensures
        spec_count_all(s.push(a), t, p, c) == spec_count_all(s, t, p, c) + if a.team == t
            && a.player.0 == p && spec_category(a.action_type) == Some(c) {
            1nat
        } else {
            0nat
        },
{
    assert(s.push(a).drop_last() =~= s);
    assert(s.push(a).last() == a);
}

/// How appending one action changes who appears.
pub proof fn lemma_has_push(s: Seq<Action>, a: Action, t: Team, p: u8)
    ensures
        spec_delta_has(s.push(a), t, p) <==> (spec_delta_has(s, t, p) || (a.team == t && a.player.0
            == p)),
{
    let sp = s.push(a);
    if spec_delta_has(s, t, p) {
        let i = choose|i: int|
            0 <= i < s.len() && (#[trigger] s[i]).team == t && s[i].player.0 == p;
        assert(sp[i] == s[i]);
    }
    if a.team == t && a.player.0 == p {
        assert(sp[s.len() as int] == a);
    }
    if spec_delta_has(sp, t, p) {
        let i = choose|i: int|
            0 <= i < sp.len() && (#[trigger] sp[i]).team == t && sp[i].player.0 == p;
        if i < s.len() {
            assert(sp[i] == s[i]);
        } else {
            assert(sp[i] == a);
        }
    }
}

/// The entry with the `all` counter of the action's category raised by one;
/// an uncounted action kind leaves the entry unchanged.
pub open spec fn spec_bump_all(e: PlayerStats, at: ActionType) -> PlayerStats {
    match spec_category(at) {
        None => e,
        Some(StatCategory::Serves) => PlayerStats {
            serves: PlayerScores { all: (e.serves.all + 1) as i16, ..e.serves },
            ..e
        },
        Some(StatCategory::Hits) => PlayerStats {
            hits: PlayerScores { all: (e.hits.all + 1) as i16, ..e.hits },
            ..e
        },
        Some(StatCategory::Blocks) => PlayerStats {
            blocks: PlayerScores { all: (e.blocks.all + 1) as i16, ..e.blocks },
            ..e
        },
    }
}

/// The entry with the `scored` counter of the action's category raised by one.
pub open spec fn spec_bump_scored(e: PlayerStats, at: ActionType) -> PlayerStats {
    match spec_category(at) {
        None => e,
        Some(StatCategory::Serves) => PlayerStats {
            serves: PlayerScores { scored: (e.serves.scored + 1) as i16, ..e.serves },
            ..e
        },
        Some(StatCategory::Hits) => PlayerStats {
            hits: PlayerScores { scored: (e.hits.scored + 1) as i16, ..e.hits },
            ..e
        },
        Some(StatCategory::Blocks) => PlayerStats {
            blocks: PlayerScores { scored: (e.blocks.scored + 1) as i16, ..e.blocks },
            ..e
        },
    }
}

/// The entry with the `faults` counter of the action's category raised by one.
pub open spec fn spec_bump_faults(e: PlayerStats, at: ActionType) -> PlayerStats {
    match spec_category(at) {
        None => e,
        Some(StatCategory::Serves) => PlayerStats {
            serves: PlayerScores { faults: (e.serves.faults + 1) as i16, ..e.serves },
            ..e
        },
        Some(StatCategory::Hits) => PlayerStats {
            hits: PlayerScores { faults: (e.hits.faults + 1) as i16, ..e.hits },
            ..e
        },
        Some(StatCategory::Blocks) => PlayerStats {
            blocks: PlayerScores { faults: (e.blocks.faults + 1) as i16, ..e.blocks },
            ..e
        },
    }
}

fn bump_all(e: PlayerStats, at: ActionType) -> (r: PlayerStats)
    requires
        e.hits.all < i16::MAX,
        e.blocks.all < i16::MAX,
        e.serves.all < i16::MAX,
    ensures
        r == spec_bump_all(e, at),
{
    match at {
        ActionType::Serve(_, _) => PlayerStats {
            serves: PlayerScores { all: e.serves.all + 1, ..e.serves },
            ..e
        },
        ActionType::Hit(_) => PlayerStats { hits: PlayerScores { all: e.hits.all + 1, ..e.hits }, ..e },
        ActionType::Block(_, _) => PlayerStats {
            blocks: PlayerScores { all: e.blocks.all + 1, ..e.blocks },
            ..e
        },
        _ => e,
    }
}

fn bump_scored(e: PlayerStats, at: ActionType) -> (r: PlayerStats)
    requires
        e.hits.scored < i16::MAX,
        e.blocks.scored < i16::MAX,
        e.serves.scored < i16::MAX,
    ensures
        r == spec_bump_scored(e, at),
{
    match at {
        ActionType::Serve(_, _) => PlayerStats {
            serves: PlayerScores { scored: e.serves.scored + 1, ..e.serves },
            ..e
        },
        ActionType::Hit(_) => PlayerStats {
            hits: PlayerScores { scored: e.hits.scored + 1, ..e.hits },
            ..e
        },
        ActionType::Block(_, _) => PlayerStats {
            blocks: PlayerScores { scored: e.blocks.scored + 1, ..e.blocks },
            ..e
        },
        _ => e,
    }
}

fn bump_faults(e: PlayerStats, at: ActionType) -> (r: PlayerStats)
    requires
        e.hits.faults < i16::MAX,
        e.blocks.faults < i16::MAX,
        e.serves.faults < i16::MAX,
    ensures
        r == spec_bump_faults(e, at),
{
    match at {
        ActionType::Serve(_, _) => PlayerStats {
            serves: PlayerScores { faults: e.serves.faults + 1, ..e.serves },
            ..e
        },
        ActionType::Hit(_) => PlayerStats {
            hits: PlayerScores { faults: e.hits.faults + 1, ..e.hits },
            ..e
        },
        ActionType::Block(_, _) => PlayerStats {
            blocks: PlayerScores { faults: e.blocks.faults + 1, ..e.blocks },
            ..e
        },
        _ => e,
    }
}

fn find_index(stats: &StatsByPlayer, p: u8) -> (r: Option<usize>)
    ensures
        match r {
            None => spec_find_stats(stats.0@, p) is None,
            Some(i) => i < stats.0@.len() && stats.0@[i as int].player.0 == p && spec_find_stats(
                stats.0@,
                p,
            ) == Some(stats.0@[i as int]),
        },
{
    let n = stats.0.len();
    let mut i: usize = 0;
    proof {
        assert(stats.0@.skip(0) =~= stats.0@);
    }
    while i < n
        invariant
            n == stats.0@.len(),
            i <= n,
            spec_find_stats(stats.0@, p) == spec_find_stats(stats.0@.skip(i as int), p),
        decreases n - i,
    {
        proof {
            assert(stats.0@.skip(i as int)[0] == stats.0@[i as int]);
            assert(stats.0@.skip(i as int).drop_first() =~= stats.0@.skip(i + 1));
        }
        if stats.0[i].player.0 == p {
            return Some(i);
        }
        i = i + 1;
    }
    proof {
        assert(stats.0@.skip(n as int) =~= Seq::<PlayerStats>::empty());
    }
    None
}

/// Tallies one action into its player's entry, creating the entry when the
/// player is new to the table.
fn apply_action(stats: StatsByPlayer, a: Action) -> (r: StatsByPlayer)
    requires
        stats.wf(),
        match spec_find_stats(stats.0@, a.player.0) {
            Some(e) => e.hits.all < i16::MAX && e.blocks.all < i16::MAX && e.serves.all
                < i16::MAX,
            None => true,
        },
    ensures
        r.wf(),
        forall|p: u8|
            p != a.player.0 ==> #[trigger] spec_find_stats(r.0@, p) == spec_find_stats(
                stats.0@,
                p,
            ),
        spec_find_stats(r.0@, a.player.0) == Some(
            spec_bump_all(
                match spec_find_stats(stats.0@, a.player.0) {
                    Some(e) => e,
                    None => PlayerStats::spec_new(a.player),
                },
                a.action_type,
            ),
        ),
        spec_players_of(r.0@) == if spec_find_stats(stats.0@, a.player.0) is Some {
            spec_players_of(stats.0@)
        } else {
            spec_players_of(stats.0@).push(a.player.0)
        },
{
    let key = a.player.0;
    match find_index(&stats, key) {
        Some(idx) => {
            let e = stats.0[idx];
            let e2 = bump_all(e, a.action_type);
            let mut v = stats.0;
            v.set(idx, e2);
            let r = StatsByPlayer(v);
            proof {
                assert(e2.player == e.player);
                assert forall|p: u8| #[trigger] spec_find_stats(r.0@, p) == if p == key {
                    Some(e2)
                } else {
                    spec_find_stats(stats.0@, p)
                } by {
                    lemma_find_stats_update(stats.0@, idx as int, e2, p);
                }
                assert(spec_players_of(r.0@) =~= spec_players_of(stats.0@));
            }
            r
        },
        None => {
            let base = PlayerStats::new(a.player);
            let e2 = bump_all(base, a.action_type);
            let mut v = stats.0;
            v.push(e2);
            let r = StatsByPlayer(v);
            proof {
                assert(e2.player == a.player);
                lemma_find_stats_absent(stats.0@, key);
                assert forall|p: u8| #[trigger] spec_find_stats(r.0@, p) == if p == key {
                    Some(e2)
                } else {
                    spec_find_stats(stats.0@, p)
                } by {
                    lemma_find_stats_push(stats.0@, e2, p);
                }
                assert forall|i: int, j: int| 0 <= i < j < r.0@.len() implies r.0@[i].player.0
                    != r.0@[j].player.0 by {
                    if j < stats.0@.len() {
                        assert(r.0@[i] == stats.0@[i]);
                        assert(r.0@[j] == stats.0@[j]);
                    } else {
                        assert(r.0@[i] == stats.0@[i]);
                        assert(r.0@[j] == e2);
                    }
                }
                assert(spec_players_of(r.0@) =~= spec_players_of(stats.0@).push(a.player.0));
            }
            r
        },
    }
}

/// Raises the `scored` counter of the credited action's category on its
/// player's entry, which must already stand in the table.
fn apply_scored(stats: StatsByPlayer, a: Action) -> (r: StatsByPlayer)
    requires
        stats.wf(),
        spec_find_stats(stats.0@, a.player.0) matches Some(e) && e.hits.scored < i16::MAX
            && e.blocks.scored < i16::MAX && e.serves.scored < i16::MAX,
    ensures
        r.wf(),
        forall|p: u8|
            p != a.player.0 ==> #[trigger] spec_find_stats(r.0@, p) == spec_find_stats(
                stats.0@,
                p,
            ),
        spec_find_stats(r.0@, a.player.0) == Some(
            spec_bump_scored(spec_find_stats(stats.0@, a.player.0)->Some_0, a.action_type),
        ),
        spec_players_of(r.0@) == spec_players_of(stats.0@),
{
    let key = a.player.0;
    match find_index(&stats, key) {
        Some(idx) => {
            let e = stats.0[idx];
            let e2 = bump_scored(e, a.action_type);
            let mut v = stats.0;
            v.set(idx, e2);
            let r = StatsByPlayer(v);
            proof {
                assert(e2.player == e.player);
                assert forall|p: u8| #[trigger] spec_find_stats(r.0@, p) == if p == key {
                    Some(e2)
                } else {
                    spec_find_stats(stats.0@, p)
                } by {
                    lemma_find_stats_update(stats.0@, idx as int, e2, p);
                }
                assert(spec_players_of(r.0@) =~= spec_players_of(stats.0@));
            }
            r
        },
        None => {
            proof {
                assert(false);
            }
            stats
        },
    }
}

/// Raises the `faults` counter of the blamed action's category on its
/// player's entry, which must already stand in the table.
fn apply_faulted(stats: StatsByPlayer, a: Action) -> (r: StatsByPlayer)
    requires
        stats.wf(),
        spec_find_stats(stats.0@, a.player.0) matches Some(e) && e.hits.faults < i16::MAX
            && e.blocks.faults < i16::MAX && e.serves.faults < i16::MAX,
    ensures
        r.wf(),
        forall|p: u8|
            p != a.player.0 ==> #[trigger] spec_find_stats(r.0@, p) == spec_find_stats(
                stats.0@,
                p,
            ),
        spec_find_stats(r.0@, a.player.0) == Some(
            spec_bump_faults(spec_find_stats(stats.0@, a.player.0)->Some_0, a.action_type),
        ),
        spec_players_of(r.0@) == spec_players_of(stats.0@),
{
    let key = a.player.0;
    match find_index(&stats, key) {
        Some(idx) => {
            let e = stats.0[idx];
            let e2 = bump_faults(e, a.action_type);
            let mut v = stats.0;
            v.set(idx, e2);
            let r = StatsByPlayer(v);
            proof {
                assert(e2.player == e.player);
                assert forall|p: u8| #[trigger] spec_find_stats(r.0@, p) == if p == key {
                    Some(e2)
                } else {
                    spec_find_stats(stats.0@, p)
                } by {
                    lemma_find_stats_update(stats.0@, idx as int, e2, p);
                }
                assert(spec_players_of(r.0@) =~= spec_players_of(stats.0@));
            }
            r
        },
        None => {
            proof {
                assert(false);
            }
            stats
        },
    }
}

impl UpdateMatchState {
    /// Derives one rally's aggregation input: the team the verdict awards
    /// the point to, and each side's per-player statistic deltas. A side's
    /// delta table holds exactly the players that acted for that side, in
    /// order of first action, each with the tallies and attributed
    /// increments of this rally.
    #[verifier::rlimit(60)]
    pub fn new(rally: &Rally) -> (r: UpdateMatchState)
        requires
            rally.actions@.len() >= 1,
            rally.actions@.len() <= 32766,
        ensures
            r.point_to == rally.who.point_to,
            r.away_player_stats.wf(),
            r.home_player_stats.wf(),
            forall|p: u8|
                #[trigger] spec_find_stats(r.away_player_stats.0@, p) is Some <==> spec_delta_has(
                    rally.actions@,
                    Team::Away,
                    p,
                ),
            forall|p: u8|
                #[trigger] spec_find_stats(r.home_player_stats.0@, p) is Some <==> spec_delta_has(
                    rally.actions@,
                    Team::Home,
                    p,
                ),
            forall|p: u8|
                match #[trigger] spec_find_stats(r.away_player_stats.0@, p) {
                    Some(e) => e == spec_delta_entry(rally.actions@, Team::Away, p),
                    None => true,
                },
            forall|p: u8|
                match #[trigger] spec_find_stats(r.home_player_stats.0@, p) {
                    Some(e) => e == spec_delta_entry(rally.actions@, Team::Home, p),
                    None => true,
                },
            r.away_player_stats.0@ == spec_delta_table(rally.actions@, Team::Away),
            r.home_player_stats.0@ == spec_delta_table(rally.actions@, Team::Home),
    {
        let n = rally.actions.len();
        let mut away = StatsByPlayer::new();
        let mut home = StatsByPlayer::new();
        let mut k: usize = 0;
        proof {
            assert(rally.actions@.take(0) =~= Seq::<Action>::empty());
            assert(spec_players_of(away.0@) =~= spec_delta_players(
                rally.actions@.take(0),
                Team::Away,
            ));
            assert(spec_players_of(home.0@) =~= spec_delta_players(
                rally.actions@.take(0),
                Team::Home,
            ));
        }
        while k < n
            invariant
                n == rally.actions@.len(),
                1 <= n <= 32766,
                k <= n,
                away.wf(),
                home.wf(),
                spec_players_of(away.0@) == spec_delta_players(
                    rally.actions@.take(k as int),
                    Team::Away,
                ),
                spec_players_of(home.0@) == spec_delta_players(
                    rally.actions@.take(k as int),
                    Team::Home,
                ),
                forall|p: u8|
                    #[trigger] spec_find_stats(away.0@, p) is Some <==> spec_delta_has(
                        rally.actions@.take(k as int),
                        Team::Away,
                        p,
                    ),
                forall|p: u8|
                    #[trigger] spec_find_stats(home.0@, p) is Some <==> spec_delta_has(
                        rally.actions@.take(k as int),
                        Team::Home,
                        p,
                    ),
                forall|p: u8|
                    match #[trigger] spec_find_stats(away.0@, p) {
                        Some(e) => e == spec_all_entry(rally.actions@.take(k as int), Team::Away, p),
                        None => true,
                    },
                forall|p: u8|
                    match #[trigger] spec_find_stats(home.0@, p) {
                        Some(e) => e == spec_all_entry(rally.actions@.take(k as int), Team::Home, p),
                        None => true,
                    },
            decreases n - k,
        {
            let a = rally.actions[k];
            let ghost pre = rally.actions@.take(k as int);
            let ghost post = rally.actions@.take(k as int + 1);
            proof {
                assert(post =~= pre.push(a));
                assert(post.drop_last() =~= pre);
                assert(post.last() == a);
            }
            match a.team {
                Team::Away => {
                    let ghost old_away = away;
                    proof {
                        lemma_count_le(pre, Team::Away, a.player.0, StatCategory::Hits);
                        lemma_count_le(pre, Team::Away, a.player.0, StatCategory::Blocks);
                        lemma_count_le(pre, Team::Away, a.player.0, StatCategory::Serves);
                    }
                    away = apply_action(away, a);
                    proof {
                        lemma_delta_players_contains(pre, Team::Away, a.player.0);
                        assert(spec_players_of(away.0@) == spec_delta_players(post, Team::Away));
                        assert(spec_players_of(home.0@) == spec_delta_players(post, Team::Home));
                        assert forall|p: u8|
                            #[trigger] spec_find_stats(away.0@, p) is Some <==> spec_delta_has(
                                post,
                                Team::Away,
                                p,
                            ) by {
                            lemma_has_push(pre, a, Team::Away, p);
                        }
                        assert forall|p: u8|
                            #[trigger] spec_find_stats(home.0@, p) is Some <==> spec_delta_has(
                                post,
                                Team::Home,
                                p,
                            ) by {
                            lemma_has_push(pre, a, Team::Home, p);
                        }
                        assert forall|p: u8|
                            match #[trigger] spec_find_stats(away.0@, p) {
                                Some(e) => e == spec_all_entry(post, Team::Away, p),
                                None => true,
                            } by {
                            lemma_count_push(pre, a, Team::Away, p, StatCategory::Hits);
                            lemma_count_push(pre, a, Team::Away, p, StatCategory::Blocks);
                            lemma_count_push(pre, a, Team::Away, p, StatCategory::Serves);
                            lemma_count_le(pre, Team::Away, p, StatCategory::Hits);
                            lemma_count_le(pre, Team::Away, p, StatCategory::Blocks);
                            lemma_count_le(pre, Team::Away, p, StatCategory::Serves);
                            if p == a.player.0 && spec_find_stats(old_away.0@, p) is None {
                                lemma_count_zero(pre, Team::Away, p, StatCategory::Hits);
                                lemma_count_zero(pre, Team::Away, p, StatCategory::Blocks);
                                lemma_count_zero(pre, Team::Away, p, StatCategory::Serves);
                            }
                        }
                        assert forall|p: u8|
                            match #[trigger] spec_find_stats(home.0@, p) {
                                Some(e) => e == spec_all_entry(post, Team::Home, p),
                                None => true,
                            } by {
                            lemma_count_push(pre, a, Team::Home, p, StatCategory::Hits);
                            lemma_count_push(pre, a, Team::Home, p, StatCategory::Blocks);
                            lemma_count_push(pre, a, Team::Home, p, StatCategory::Serves);
                        }
                    }
                },
                Team::Home => {
                    let ghost old_home = home;
                    proof {
                        lemma_count_le(pre, Team::Home, a.player.0, StatCategory::Hits);
                        lemma_count_le(pre, Team::Home, a.player.0, StatCategory::Blocks);
                        lemma_count_le(pre, Team::Home, a.player.0, StatCategory::Serves);
                    }
                    home = apply_action(home, a);
                    proof {
                        lemma_delta_players_contains(pre, Team::Home, a.player.0);
                        assert(spec_players_of(home.0@) == spec_delta_players(post, Team::Home));
                        assert(spec_players_of(away.0@) == spec_delta_players(post, Team::Away));
                        assert forall|p: u8|
                            #[trigger] spec_find_stats(home.0@, p) is Some <==> spec_delta_has(
                                post,
                                Team::Home,
                                p,
                            ) by {
                            lemma_has_push(pre, a, Team::Home, p);
                        }
                        assert forall|p: u8|
                            #[trigger] spec_find_stats(away.0@, p) is Some <==> spec_delta_has(
                                post,
                                Team::Away,
                                p,
                            ) by {
                            lemma_has_push(pre, a, Team::Away, p);
                        }
                        assert forall|p: u8|
                            match #[trigger] spec_find_stats(home.0@, p) {
                                Some(e) => e == spec_all_entry(post, Team::Home, p),
                                None => true,
                            } by {
                            lemma_count_push(pre, a, Team::Home, p, StatCategory::Hits);
                            lemma_count_push(pre, a, Team::Home, p, StatCategory::Blocks);
                            lemma_count_push(pre, a, Team::Home, p, StatCategory::Serves);
                            lemma_count_le(pre, Team::Home, p, StatCategory::Hits);
                            lemma_count_le(pre, Team::Home, p, StatCategory::Blocks);
                            lemma_count_le(pre, Team::Home, p, StatCategory::Serves);
                            if p == a.player.0 && spec_find_stats(old_home.0@, p) is None {
                                lemma_count_zero(pre, Team::Home, p, StatCategory::Hits);
                                lemma_count_zero(pre, Team::Home, p, StatCategory::Blocks);
                                lemma_count_zero(pre, Team::Home, p, StatCategory::Serves);
                            }
                        }
                        assert forall|p: u8|
                            match #[trigger] spec_find_stats(away.0@, p) {
                                Some(e) => e == spec_all_entry(post, Team::Away, p),
                                None => true,
                            } by {
                            lemma_count_push(pre, a, Team::Away, p, StatCategory::Hits);
                            lemma_count_push(pre, a, Team::Away, p, StatCategory::Blocks);
                            lemma_count_push(pre, a, Team::Away, p, StatCategory::Serves);
                        }
                    }
                },
            }
            k = k + 1;
        }
        proof {
            assert(rally.actions@.take(n as int) =~= rally.actions@);
        }
        let last = rally.actions[n - 1];
        let related: Option<Action> = if n >= 2 {
            Some(rally.actions[n - 2])
        } else {
            None
        };
        let ghost acts = rally.actions@;
        proof {
            assert(last == spec_last_action(acts));
            assert(related == spec_related_action(acts));
        }
        let sa = scoring_action(last, related);
        match sa {
            None => {},
            Some(act) => {
                proof {
                    if act == spec_last_action(acts) {
                        assert(acts[n - 1] == act);
                    } else {
                        assert(acts[n - 2] == act);
                    }
                    assert(spec_delta_has(acts, act.team, act.player.0));
                }
                match act.team {
                    Team::Away => {
                        away = apply_scored(away, act);
                    },
                    Team::Home => {
                        home = apply_scored(home, act);
                    },
                }
            },
        }
        let fa = faulting_action(last, related);
        match fa {
            None => {},
            Some(act) => {
                proof {
                    if act == spec_last_action(acts) {
                        assert(acts[n - 1] == act);
                    } else {
                        assert(acts[n - 2] == act);
                    }
                    assert(spec_delta_has(acts, act.team, act.player.0));
                }
                match act.team {
                    Team::Away => {
                        away = apply_faulted(away, act);
                    },
                    Team::Home => {
                        home = apply_faulted(home, act);
                    },
                }
            },
        }
        proof {
            let players_a = spec_delta_players(acts, Team::Away);
            let players_h = spec_delta_players(acts, Team::Home);
            assert(spec_players_of(away.0@) == players_a);
            assert(spec_players_of(home.0@) == players_h);
            assert(away.0@.len() == players_a.len());
            assert(home.0@.len() == players_h.len());
            assert forall|i: int| 0 <= i < away.0@.len() implies away.0@[i] == spec_delta_table(
                acts,
                Team::Away,
            )[i] by {
                lemma_find_stats_index(away.0@, i);
                assert(spec_players_of(away.0@)[i] == away.0@[i].player.0);
                assert(players_a[i] == away.0@[i].player.0);
            }
            assert(away.0@ =~= spec_delta_table(acts, Team::Away));
            assert forall|i: int| 0 <= i < home.0@.len() implies home.0@[i] == spec_delta_table(
                acts,
                Team::Home,
            )[i] by {
                lemma_find_stats_index(home.0@, i);
                assert(spec_players_of(home.0@)[i] == home.0@[i].player.0);
                assert(players_h[i] == home.0@[i].player.0);
            }
            assert(home.0@ =~= spec_delta_table(acts, Team::Home));
        }
        UpdateMatchState {
            point_to: rally.who.point_to,
            away_player_stats: away,
            home_player_stats: home,
        }
    }
}

} // verus!
