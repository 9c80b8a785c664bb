//! The running state of a match: sets, points and per-player statistics.

use vstd::prelude::*;

use crate::error::{Reason, ReasonKey};
use crate::Config;

verus! {

/// One of the two sides of the match.
#[derive(Clone, Copy, PartialEq, Eq, Structural, Debug, Hash)]
pub enum Team {
    Away,
    Home,
}

impl Team {
    /// The opposing side.
    pub open spec fn spec_opponent(self) -> Team {
        match self {
            Team::Away => Team::Home,
            Team::Home => Team::Away,
        }
    }

    pub fn get_opponent(self) -> (r: Team)
        ensures
            r == self.spec_opponent(),
    {
        match self {
            Team::Away => Team::Home,
            Team::Home => Team::Away,
        }
    }

    /// Which side a prefix character stands for under the given configuration.
    /// The away prefix is tried first, so it wins if the two prefixes collide.
    pub open spec fn spec_from_char(config: Config, c: char) -> Result<Team, ReasonKey> {
        if c == config.away_prefix {
            Ok(Team::Away)
        } else if c == config.home_prefix {
            Ok(Team::Home)
        } else {
            Err(ReasonKey::TeamPrefix)
        }
    }

    /// Reads a team prefix character; anything but the two configured
    /// prefixes is rejected.
    pub fn from_char(config: Config, c: char) -> (r: Result<Team, Reason>)
        ensures
            match Team::spec_from_char(config, c) {
                Ok(t) => r matches Ok(rt) && rt == t,
                Err(k) => r matches Err(re) && re.key == k && re.location == 0 && re.wf(),
            },
    {
        if c == config.away_prefix {
            Ok(Team::Away)
        } else if c == config.home_prefix {
            Ok(Team::Home)
        } else {
            Err(Reason::team_prefix())
        }
    }

    /// Like `from_char`, but reports only presence, not a defect.
    pub fn from_prefix(config: Config, prefix: char) -> (r: Option<Team>)
        ensures
            r == match Team::spec_from_char(config, prefix) {
                Ok(t) => Some(t),
                Err(_) => None::<Team>,
            },
    {
        if prefix == config.away_prefix {
            Some(Team::Away)
        } else if prefix == config.home_prefix {
            Some(Team::Home)
        } else {
            None
        }
    }
}

/// A player's shirt number: one or two decimal digits, 0 through 99.
#[derive(Clone, Copy, PartialEq, Eq, Structural, Debug, Hash)]
pub struct Player(pub u8);

/// One statistic category's counters for one player.
///
/// `all` counts every occurrence of the category in play; `scored` and
/// `faults` count only outcomes attributed by a rally verdict.
#[derive(Clone, Copy, PartialEq, Eq, Structural, Debug)]
pub struct PlayerScores {
    pub scored: i16,
    pub faults: i16,
    pub all: i16,
}

impl PlayerScores {
    /// All three counters at zero.
    pub open spec fn spec_zero() -> PlayerScores {
        PlayerScores { scored: 0, faults: 0, all: 0 }
    }

    pub fn new() -> (r: PlayerScores)
        ensures
            r == PlayerScores::spec_zero(),
    {
        PlayerScores { scored: 0, faults: 0, all: 0 }
    }

    /// Element-wise sum of the counters.
    pub open spec fn spec_merge(self, other: PlayerScores) -> PlayerScores {
        PlayerScores {
            scored: (self.scored + other.scored) as i16,
            faults: (self.faults + other.faults) as i16,
            all: (self.all + other.all) as i16,
        }
    }

    /// All three element-wise sums stay within `i16`.
    pub open spec fn merge_fits(self, other: PlayerScores) -> bool {
        &&& i16::MIN <= self.scored + other.scored <= i16::MAX
        &&& i16::MIN <= self.faults + other.faults <= i16::MAX
        &&& i16::MIN <= self.all + other.all <= i16::MAX
    }

    /// All counters are non-negative.
    pub open spec fn wf(self) -> bool {
        self.scored >= 0 && self.faults >= 0 && self.all >= 0
    }

    pub fn merge(self, other: PlayerScores) -> (r: PlayerScores)
        requires
            self.merge_fits(other),
        ensures
            r == self.spec_merge(other),
    {
        PlayerScores {
            scored: self.scored + other.scored,
            faults: self.faults + other.faults,
            all: self.all + other.all,
        }
    }
}

/// Cumulative statistics of one player, split by category.
#[derive(Clone, Copy, PartialEq, Eq, Structural, Debug)]
pub struct PlayerStats {
    pub player: Player,
    pub hits: PlayerScores,
    pub blocks: PlayerScores,
    pub serves: PlayerScores,
}

impl PlayerStats {
    pub open spec fn spec_new(player: Player) -> PlayerStats {
        PlayerStats {
            player,
            hits: PlayerScores::spec_zero(),
            blocks: PlayerScores::spec_zero(),
            serves: PlayerScores::spec_zero(),
        }
    }

    pub fn new(player: Player) -> (r: PlayerStats)
        ensures
            r == PlayerStats::spec_new(player),
    {
        PlayerStats {
            player,
            hits: PlayerScores::new(),
            blocks: PlayerScores::new(),
            serves: PlayerScores::new(),
        }
    }

    /// Points this player has been credited with, over all categories.
    pub fn scored(self) -> (r: i16)
        requires
            i16::MIN <= self.hits.scored + self.blocks.scored <= i16::MAX,
            i16::MIN <= self.hits.scored + self.blocks.scored + self.serves.scored <= i16::MAX,
        ensures
            r == self.hits.scored + self.blocks.scored + self.serves.scored,
    {
        self.hits.scored + self.blocks.scored + self.serves.scored
    }

    /// Whether merging `self` with the matching entry of `other`, if any,
    /// keeps every counter within `i16`.
    pub open spec fn entry_merge_fits(self, other: Seq<PlayerStats>) -> bool {
        match spec_find_stats(other, self.player.0) {
            None => true,
            Some(u) => self.hits.merge_fits(u.hits) && self.blocks.merge_fits(u.blocks)
                && self.serves.merge_fits(u.serves),
        }
    }

    /// Points this player has been blamed for, over all categories.
    pub fn faulted(self) -> (r: i16)
        requires
            i16::MIN <= self.hits.faults + self.blocks.faults <= i16::MAX,
            i16::MIN <= self.hits.faults + self.blocks.faults + self.serves.faults <= i16::MAX,
        ensures
            r == self.hits.faults + self.blocks.faults + self.serves.faults,
    {
        self.hits.faults + self.blocks.faults + self.serves.faults
    }
}

/// The first entry of `s` recorded for player number `p`, if any.
pub open spec fn spec_find_stats(s: Seq<PlayerStats>, p: u8) -> Option<PlayerStats>
    decreases s.len(),
{
    if s.len() == 0 {
        None
    } else if s[0].player.0 == p {
        Some(s[0])
    } else {
        spec_find_stats(s.drop_first(), p)
    }
}

/// The player numbers of a table's entries, in table order.
pub open spec fn spec_players_of(s: Seq<PlayerStats>) -> Seq<u8> {
    s.map_values(|e: PlayerStats| e.player.0)
}

/// A lookup misses exactly when no entry carries the player.
pub proof fn lemma_find_stats_absent(s: Seq<PlayerStats>, p: u8)
    ensures
        (spec_find_stats(s, p) is None) <==> (forall|i: int|
            0 <= i < s.len() ==> s[i].player.0 != p),
    decreases s.len(),
{
    if s.len() > 0 {
        lemma_find_stats_absent(s.drop_first(), p);
        if s[0].player.0 != p {
            assert forall|i: int| 0 <= i < s.len() && spec_find_stats(s, p) is None implies s[i].player.0
                != p by {
                if i > 0 {
                    assert(s.drop_first()[i - 1] == s[i]);
                }
            }
            if forall|i: int| 0 <= i < s.len() ==> s[i].player.0 != p {
                assert forall|i: int| 0 <= i < s.drop_first().len() implies s.drop_first()[i].player.0
                    != p by {
                    assert(s.drop_first()[i] == s[i + 1]);
                }
            }
        }
    }
}

/// How replacing the entry at `idx` by one with the same player changes
/// every lookup, provided players are unique.
pub proof fn lemma_find_stats_update(s: Seq<PlayerStats>, idx: int, e: PlayerStats, p: u8)
    requires
        0 <= idx < s.len(),
        e.player == s[idx].player,
        forall|i: int, j: int| 0 <= i < j < s.len() ==> s[i].player.0 != s[j].player.0,
    ensures
        spec_find_stats(s.update(idx, e), p) == if s[idx].player.0 == p {
            Some(e)
        } else {
            spec_find_stats(s, p)
        },
    decreases s.len(),
{
    let su = s.update(idx, e);
    assert(su.len() == s.len());
    if idx == 0 {
        assert(su[0] == e);
        if e.player.0 != p {
            assert(su.drop_first() =~= s.drop_first());
        }
    } else {
        assert(su[0] == s[0]);
        if s[0].player.0 == p {
        } else {
            assert(su.drop_first() =~= s.drop_first().update(idx - 1, e));
            assert forall|i: int, j: int| 0 <= i < j < s.drop_first().len() implies s.drop_first()[i].player.0
                != s.drop_first()[j].player.0 by {
                assert(s.drop_first()[i] == s[i + 1]);
                assert(s.drop_first()[j] == s[j + 1]);
            }
            assert(s.drop_first()[idx - 1] == s[idx]);
            lemma_find_stats_update(s.drop_first(), idx - 1, e, p);
        }
    }
}

/// How appending an entry changes every lookup.
pub proof fn lemma_find_stats_push(s: Seq<PlayerStats>, e: PlayerStats, p: u8)
    ensures
        spec_find_stats(s.push(e), p) == match spec_find_stats(s, p) {
            Some(x) => Some(x),
            None => if e.player.0 == p {
                Some(e)
            } else {
                None
            },
        },
    decreases s.len(),
{
    let sp = s.push(e);
    if s.len() == 0 {
        assert(sp[0] == e);
        assert(sp.drop_first() =~= Seq::<PlayerStats>::empty());
    } else {
        assert(sp[0] == s[0]);
        if s[0].player.0 != p {
            assert(sp.drop_first() =~= s.drop_first().push(e));
            lemma_find_stats_push(s.drop_first(), e, p);
        }
    }
}

/// `self` merged entry-wise with the matching entry of `other`, if present.
pub open spec fn spec_merge_entry(e: PlayerStats, other: Seq<PlayerStats>) -> PlayerStats {
    match spec_find_stats(other, e.player.0) {
        None => e,
        Some(u) => PlayerStats {
            player: e.player,
            hits: e.hits.spec_merge(u.hits),
            blocks: e.blocks.spec_merge(u.blocks),
            serves: e.serves.spec_merge(u.serves),
        },
    }
}

/// The entries of `b` whose players are absent from `a`, in their order in
/// `b`.
pub open spec fn spec_new_entries(a: Seq<PlayerStats>, b: Seq<PlayerStats>) -> Seq<PlayerStats>
    decreases b.len(),
{
    if b.len() == 0 {
        Seq::<PlayerStats>::empty()
    } else {
        let rest = spec_new_entries(a, b.drop_last());
        if spec_find_stats(a, b.last().player.0) is None {
            rest.push(b.last())
        } else {
            rest
        }
    }
}

/// The statistics table `a` with the deltas of `b` folded in: entries of
/// `a` keep their place and player, and one whose player also stands in `b`
/// takes the element-wise sums; entries of `b` whose players are new join
/// the table at the end, so the result is keyed by the union of both key
/// sets.
pub open spec fn spec_merge_stats(a: Seq<PlayerStats>, b: Seq<PlayerStats>) -> Seq<PlayerStats> {
    a.map_values(|e: PlayerStats| spec_merge_entry(e, b)) + spec_new_entries(a, b)
}

/// Every merge that `spec_merge_stats(a, b)` performs stays within `i16`.
pub open spec fn spec_stats_merge_fits(a: Seq<PlayerStats>, b: Seq<PlayerStats>) -> bool {
    forall|i: int| 0 <= i < a.len() ==> (#[trigger] a[i]).entry_merge_fits(b)
}

/// A statistics table keyed by player: each player appears at most once.
#[derive(Clone, PartialEq, Debug)]
pub struct StatsByPlayer(pub Vec<PlayerStats>);

impl StatsByPlayer {
    /// Player numbers are pairwise distinct, so lookup by player is
    /// unambiguous.
    pub open spec fn wf(self) -> bool {
        forall|i: int, j: int|
            0 <= i < j < self.0@.len() ==> self.0@[i].player.0 != self.0@[j].player.0
    }

    /// An empty table.
    pub fn new() -> (r: StatsByPlayer)
        ensures
            r.0@ == Seq::<PlayerStats>::empty(),
            r.wf(),
    {
        StatsByPlayer(Vec::new())
    }

    /// The entry recorded for player number `p`, if any.
    pub fn get(&self, p: u8) -> (r: Option<PlayerStats>)
        ensures
            r == spec_find_stats(self.0@, p),
    {
        let n = self.0.len();
        let mut i: usize = 0;
        proof {
            assert(self.0@.skip(0) =~= self.0@);
        }
        while i < n
            invariant
                n == self.0@.len(),
                i <= n,
                spec_find_stats(self.0@, p) == spec_find_stats(self.0@.skip(i as int), p),
            decreases n - i,
        {
            proof {
                assert(self.0@.skip(i as int)[0] == self.0@[i as int]);
                assert(self.0@.skip(i as int).drop_first() =~= self.0@.skip(i + 1));
            }
            if self.0[i].player.0 == p {
                return Some(self.0[i]);
            }
            i = i + 1;
        }
        proof {
            assert(self.0@.skip(n as int) =~= Seq::<PlayerStats>::empty());
        }
        None
    }

    /// Folds the deltas of `other` into `self`: known players are merged in
    /// place, and players new to `self` are appended with their delta entry.
    pub fn merge(&self, other: StatsByPlayer) -> (r: StatsByPlayer)
        requires
            spec_stats_merge_fits(self.0@, other.0@),
        ensures
            r.0@ == spec_merge_stats(self.0@, other.0@),
    {
        let ghost mapped = self.0@.map_values(|e: PlayerStats| spec_merge_entry(e, other.0@));
        let n = self.0.len();
        let mut out: Vec<PlayerStats> = Vec::new();
        let mut i: usize = 0;
        while i < n
            invariant
                n == self.0@.len(),
                i <= n,
                spec_stats_merge_fits(self.0@, other.0@),
                out@.len() == i,
                forall|j: int| 0 <= j < i ==> out@[j] == spec_merge_entry(self.0@[j], other.0@),
            decreases n - i,
        {
            let e = self.0[i];
            let merged = match other.get(e.player.0) {
                None => e,
                Some(u) => {
                    assert(e.entry_merge_fits(other.0@));
                    PlayerStats {
                        player: e.player,
                        hits: e.hits.merge(u.hits),
                        blocks: e.blocks.merge(u.blocks),
                        serves: e.serves.merge(u.serves),
                    }
                },
            };
            out.push(merged);
            i = i + 1;
        }
        proof {
            assert(out@ =~= mapped);
            assert(other.0@.take(0) =~= Seq::<PlayerStats>::empty());
            assert(out@ =~= mapped + spec_new_entries(self.0@, other.0@.take(0)));
        }
        let m = other.0.len();
        let mut j: usize = 0;
        while j < m
            invariant
                m == other.0@.len(),
                j <= m,
                (mapped == self.0@.map_values(|e: PlayerStats| spec_merge_entry(e, other.0@))),
                out@ == mapped + spec_new_entries(self.0@, other.0@.take(j as int)),
            decreases m - j,
        {
            let e = other.0[j];
            proof {
                assert(other.0@.take(j as int + 1).drop_last() =~= other.0@.take(j as int));
                assert(other.0@.take(j as int + 1).last() == other.0@[j as int]);
            }
            match self.get(e.player.0) {
                None => {
                    let ghost old_out = out@;
                    out.push(e);
                    proof {
                        assert(out@ =~= mapped + spec_new_entries(
                            self.0@,
                            other.0@.take(j as int + 1),
                        ));
                    }
                },
                Some(_) => {},
            }
            j = j + 1;
        }
        proof {
            assert(other.0@.take(m as int) =~= other.0@);
        }
        StatsByPlayer(out)
    }
}

/// In a table with pairwise-distinct players, the entry at any index is
/// exactly what lookup by its player finds.
pub proof fn lemma_find_stats_index(s: Seq<PlayerStats>, i: int)
    requires
        0 <= i < s.len(),
        forall|x: int, y: int| 0 <= x < y < s.len() ==> s[x].player.0 != s[y].player.0,
    ensures
        spec_find_stats(s, s[i].player.0) == Some(s[i]),
    decreases s.len(),
{
    if i > 0 {
        assert(s[0].player.0 != s[i].player.0);
        assert(s.drop_first()[i - 1] == s[i]);
        assert forall|x: int, y: int| 0 <= x < y < s.drop_first().len() implies s.drop_first()[x].player.0
            != s.drop_first()[y].player.0 by {
            assert(s.drop_first()[x] == s[x + 1]);
            assert(s.drop_first()[y] == s[y + 1]);
        }
        lemma_find_stats_index(s.drop_first(), i - 1);
    }
}

/// One side's share of the scoreboard plus its players' statistics.
#[derive(Clone, PartialEq, Debug)]
pub struct TeamStats {
    pub sets: u8,
    pub points: u8,
    pub player_stats: StatsByPlayer,
}

/// Whether play continues or the match has been decided.
#[derive(Clone, Copy, PartialEq, Eq, Structural, Debug)]
pub enum MatchStatus {
    InProgress,
    Finished,
}

/// The numeric part of a match state: both sides' sets and points, and the
/// match status. Statistics are kept apart so that the scoreboard rules can
/// be stated over plain numbers.
#[derive(Clone, Copy, PartialEq, Eq, Structural, Debug)]
pub struct ScoreBoard {
    pub away_sets: u8,
    pub away_points: u8,
    pub home_sets: u8,
    pub home_points: u8,
    pub status: MatchStatus,
}

/// The score a leading side must reach to take the set: 15 in the deciding
/// set (the sets so far summing to 5), 25 otherwise.
pub open spec fn spec_set_ceiling(winner_sets: u8, loser_sets: u8) -> int {
    if winner_sets + loser_sets == 5 {
        15
    } else {
        25
    }
}

/// The side that has just won the set, if any: it must hold strictly more
/// points than the other side, at least the ceiling of this set, and lead
/// by more than one point.
pub open spec fn spec_set_winner(b: ScoreBoard) -> Option<Team> {
    if b.away_points > b.home_points {
        if b.away_points >= spec_set_ceiling(b.away_sets, b.home_sets)
            && b.away_points - b.home_points > 1 {
            Some(Team::Away)
        } else {
            None
        }
    } else {
        if b.home_points >= spec_set_ceiling(b.home_sets, b.away_sets)
            && b.home_points - b.away_points > 1 {
            Some(Team::Home)
        } else {
            None
        }
    }
}

/// One point awarded to `point_to`.
pub open spec fn spec_board_point(b: ScoreBoard, point_to: Team) -> ScoreBoard {
    match point_to {
        Team::Away => ScoreBoard { away_points: (b.away_points + 1) as u8, ..b },
        Team::Home => ScoreBoard { home_points: (b.home_points + 1) as u8, ..b },
    }
}

/// If a side has just won the set, both sides' points reset to zero and the
/// winner's set count rises by one; otherwise nothing changes.
pub open spec fn spec_board_settle_set(b: ScoreBoard) -> ScoreBoard {
    match spec_set_winner(b) {
        None => b,
        Some(Team::Away) => ScoreBoard {
            away_sets: (b.away_sets + 1) as u8,
            away_points: 0,
            home_points: 0,
            ..b
        },
        Some(Team::Home) => ScoreBoard {
            home_sets: (b.home_sets + 1) as u8,
            away_points: 0,
            home_points: 0,
            ..b
        },
    }
}

/// The whole scoreboard transition for one rally: award the point, settle a
/// set win if there is one, and mark the match finished once a side holds
/// three sets.
pub open spec fn spec_board_update(b: ScoreBoard, point_to: Team) -> ScoreBoard {
    let settled = spec_board_settle_set(spec_board_point(b, point_to));
    ScoreBoard {
        status: if settled.away_sets == 3 || settled.home_sets == 3 {
            MatchStatus::Finished
        } else {
            b.status
        },
        ..settled
    }
}

/// The verdict of one rally reduced to what the aggregator consumes: the
/// team awarded the point, and each side's per-player statistic deltas.
#[derive(Clone, PartialEq, Debug)]
pub struct UpdateMatchState {
    pub point_to: Team,
    pub away_player_stats: StatsByPlayer,
    pub home_player_stats: StatsByPlayer,
}

/// The authoritative, externally persisted match state. It is threaded by
/// value: `update` consumes a state and returns the next one.
#[derive(Clone, PartialEq, Debug)]
pub struct MatchState {
    pub away_team: TeamStats,
    pub home_team: TeamStats,
    pub status: MatchStatus,
}

impl MatchState {
    /// The numeric part of this state.
    pub open spec fn spec_board(self) -> ScoreBoard {
        ScoreBoard {
            away_sets: self.away_team.sets,
            away_points: self.away_team.points,
            home_sets: self.home_team.sets,
            home_points: self.home_team.points,
            status: self.status,
        }
    }

    /// A fresh match: no sets, no points, no statistics, play in progress.
    pub fn new() -> (r: MatchState)
        ensures
            r.spec_board() == (ScoreBoard {
                away_sets: 0,
                away_points: 0,
                home_sets: 0,
                home_points: 0,
                status: MatchStatus::InProgress,
            }),
            r.away_team.player_stats.0@ == Seq::<PlayerStats>::empty(),
            r.home_team.player_stats.0@ == Seq::<PlayerStats>::empty(),
    {
        MatchState {
            away_team: TeamStats { sets: 0, points: 0, player_stats: StatsByPlayer::new() },
            home_team: TeamStats { sets: 0, points: 0, player_stats: StatsByPlayer::new() },
            status: MatchStatus::InProgress,
        }
    }

    /// The machine limits under which `update` cannot overflow.
    pub open spec fn spec_update_fits(self, u: UpdateMatchState) -> bool {
        &&& match u.point_to {
            Team::Away => self.away_team.points < u8::MAX,
            Team::Home => self.home_team.points < u8::MAX,
        }
        &&& self.away_team.sets + self.home_team.sets <= 254
        &&& spec_stats_merge_fits(self.away_team.player_stats.0@, u.away_player_stats.0@)
        &&& spec_stats_merge_fits(self.home_team.player_stats.0@, u.home_player_stats.0@)
    }

    fn get_set_winner(&self) -> (r: Option<Team>)
        requires
            self.away_team.sets + self.home_team.sets <= 255,
        ensures
            r == spec_set_winner(self.spec_board()),
    {
        let (winner_sets, winner_points, loser_sets, loser_points, team) =
            if self.away_team.points > self.home_team.points {
                (
                    self.away_team.sets,
                    self.away_team.points,
                    self.home_team.sets,
                    self.home_team.points,
                    Team::Away,
                )
            } else {
                (
                    self.home_team.sets,
                    self.home_team.points,
                    self.away_team.sets,
                    self.away_team.points,
                    Team::Home,
                )
            };
        let ceiling: u8 = if winner_sets + loser_sets == 5 {
            15
        } else {
            25
        };
        if winner_points >= ceiling && winner_points - loser_points > 1 {
            Some(team)
        } else {
            None
        }
    }

    /// Folds one rally's verdict and statistic deltas into the state: the
    /// scoreboard moves by `spec_board_update`, and each side's statistics
    /// take that side's deltas.
    pub fn update(self, update: UpdateMatchState) -> (r: MatchState)
        requires
            self.spec_update_fits(update),
        ensures
            r.spec_board() == spec_board_update(self.spec_board(), update.point_to),
            r.away_team.player_stats.0@ == spec_merge_stats(
                self.away_team.player_stats.0@,
                update.away_player_stats.0@,
            ),
            r.home_team.player_stats.0@ == spec_merge_stats(
                self.home_team.player_stats.0@,
                update.home_player_stats.0@,
            ),
    {
        let mut new_state = self;

        match update.point_to {
            Team::Away => new_state.away_team.points = new_state.away_team.points + 1,
            Team::Home => new_state.home_team.points = new_state.home_team.points + 1,
        };

        match new_state.get_set_winner() {
            None => {},
            Some(Team::Away) => {
                new_state.away_team.points = 0;
                new_state.home_team.points = 0;
                new_state.away_team.sets = new_state.away_team.sets + 1;
            },
            Some(Team::Home) => {
                new_state.home_team.points = 0;
                new_state.away_team.points = 0;
                new_state.home_team.sets = new_state.home_team.sets + 1;
            },
        }

        if new_state.home_team.sets == 3 || new_state.away_team.sets == 3 {
            new_state.status = MatchStatus::Finished;
        }

        let away_merged = new_state.away_team.player_stats.merge(update.away_player_stats);
        new_state.away_team.player_stats = away_merged;
        let home_merged = new_state.home_team.player_stats.merge(update.home_player_stats);
        new_state.home_team.player_stats = home_merged;

        new_state
    }
}

} // verus!
