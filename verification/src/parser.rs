//! The rally parser: from one space-delimited notation string to the
//! ordered action sequence and its verdict.
//!
//! The grammar is position sensitive: the first token must be a serve and
//! only the first token may be one. Within a token the optional modifiers
//! (serve position, height) are read peek-then-consume: the candidate
//! character is consumed only when it belongs to the modifier's alphabet,
//! and is otherwise left for the zone that follows.

use vstd::prelude::*;
use vstd::string::StrSliceExecFns;

use crate::action::{Action, ActionType, Height, Rally, ServePosition, Zone};
use crate::error::{Reason, ReasonKey};
use crate::match_state::{Player, Team};
use crate::scoring::spec_who_scored;
use crate::Config;

verus! {

/// The numeric value of an ASCII decimal digit, if `c` is one.
pub open spec fn spec_digit(c: char) -> Option<u8> {
    if 48 <= c as u32 && c as u32 <= 57 {
        Some((c as u32 - 48) as u8)
    } else {
        None
    }
}

fn digit_of(c: char) -> (r: Option<u8>)
    ensures
        r == spec_digit(c),
{
    let v = c as u32;
    if 48 <= v && v <= 57 {
        Some((v - 48) as u8)
    } else {
        None
    }
}

/// A player number read at position `i` of a token: a mandatory first
/// digit, then an optional second digit. A token that ends directly after
/// the digits is malformed, because an action code must still follow.
/// Returns the player and the position after the digits.
pub open spec fn spec_parse_player(t: Seq<char>, i: int) -> Result<(Player, int), ReasonKey> {
    if i >= t.len() {
        Err(ReasonKey::Player)
    } else {
        match spec_digit(t[i]) {
            None => Err(ReasonKey::Player),
            Some(d1) => if i + 1 >= t.len() {
                Err(ReasonKey::InvalidInput)
            } else {
                match spec_digit(t[i + 1]) {
                    None => Ok((Player(d1), i + 1)),
                    Some(d2) => Ok((Player((d1 * 10 + d2) as u8), i + 2)),
                }
            },
        }
    }
}

fn parse_player(token: &Vec<char>, i: usize) -> (r: Result<(Player, usize), Reason>)
    ensures
        match spec_parse_player(token@, i as int) {
            Ok(pj) => r matches Ok(rpj) && rpj.0 == pj.0 && rpj.1 as int == pj.1,
            Err(k) => r matches Err(re) && re.key == k && re.location == 0 && re.wf(),
        },
{
    if i >= token.len() {
        return Err(Reason::player());
    }
    let d1 = match digit_of(token[i]) {
        None => {
            return Err(Reason::player());
        },
        Some(d) => d,
    };
    if i + 1 >= token.len() {
        return Err(Reason::invalid_input());
    }
    match digit_of(token[i + 1]) {
        None => Ok((Player(d1), i + 1)),
        Some(d2) => Ok((Player(d1 * 10 + d2), i + 2)),
    }
}

/// An optional zone read at position `i`: absent when the token has ended;
/// otherwise the zone character followed by an optional sub-zone character.
/// Everything after the sub-zone character is ignored.
pub open spec fn spec_parse_zone_opt(t: Seq<char>, i: int) -> Result<Option<Zone>, ReasonKey> {
    if i >= t.len() {
        Ok(None)
    } else {
        let szc = if i + 1 < t.len() {
            Some(t[i + 1])
        } else {
            None
        };
        match Zone::spec_from_chars(t[i], szc) {
            Ok(z) => Ok(Some(z)),
            Err(k) => Err(k),
        }
    }
}

fn parse_zone_opt(token: &Vec<char>, i: usize) -> (r: Result<Option<Zone>, Reason>)
    ensures
        match spec_parse_zone_opt(token@, i as int) {
            Ok(z) => r matches Ok(rz) && rz == z,
            Err(k) => r matches Err(re) && re.key == k && re.location == 0 && re.wf(),
        },
{
    if i >= token.len() {
        return Ok(None);
    }
    let szc = if i + 1 < token.len() {
        Some(token[i + 1])
    } else {
        None
    };
    match Zone::from_chars(token[i], szc) {
        Ok(z) => Ok(Some(z)),
        Err(e) => Err(e),
    }
}

/// The action of a first (or only) token, read at position `i`: only a
/// serve is legal there. A serve reads an optional serve position, then an
/// optional zone.
pub open spec fn spec_parse_action_type_first(t: Seq<char>, i: int) -> Result<
    ActionType,
    ReasonKey,
> {
    if i >= t.len() {
        Err(ReasonKey::InvalidInput)
    } else if t[i] == 'S' {
        let has_sp = i + 1 < t.len() && ServePosition::spec_from_char(t[i + 1]) is Some;
        let sp = if has_sp {
            ServePosition::spec_from_char(t[i + 1])
        } else {
            None
        };
        let j = if has_sp {
            i + 2
        } else {
            i + 1
        };
        match spec_parse_zone_opt(t, j) {
            Ok(z) => Ok(ActionType::Serve(sp, z)),
            Err(k) => Err(k),
        }
    } else {
        Err(ReasonKey::FirstActionNotServe)
    }
}

fn serve_position_opt(c: char) -> (r: Option<ServePosition>)
    ensures
        r == ServePosition::spec_from_char(c),
{
    match ServePosition::from_char(c) {
        Ok(p) => Some(p),
        Err(_) => None,
    }
}

fn height_opt(c: char) -> (r: Option<Height>)
    ensures
        r == Height::spec_from_char(c),
{
    match Height::from_char(c) {
        Ok(h) => Some(h),
        Err(_) => None,
    }
}

fn parse_action_type_first(token: &Vec<char>, i: usize) -> (r: Result<ActionType, Reason>)
    ensures
        match spec_parse_action_type_first(token@, i as int) {
            Ok(at) => r matches Ok(rat) && rat == at,
            Err(k) => r matches Err(re) && re.key == k && re.location == 0 && re.wf(),
        },
{
    if i >= token.len() {
        return Err(Reason::invalid_input());
    }
    if token[i] == 'S' {
        let (sp, j) = if i + 1 < token.len() {
            match serve_position_opt(token[i + 1]) {
                Some(p) => (Some(p), i + 2),
                None => (None, i + 1),
            }
        } else {
            (None, i + 1)
        };
        match parse_zone_opt(token, j) {
            Ok(z) => Ok(ActionType::Serve(sp, z)),
            Err(e) => Err(e),
        }
    } else {
        Err(Reason::first_action_not_serve())
    }
}

/// The action of a later token, read at position `i`. Receive and pass read
/// an optional height then an optional zone; a set has no modifiers; a hit
/// and a freeball read an optional zone; a block reads a mandatory team
/// prefix then an optional zone. A serve here is a defect of its own kind.
pub open spec fn spec_parse_action_type_inner(cfg: Config, t: Seq<char>, i: int) -> Result<
    ActionType,
    ReasonKey,
> {
    if i >= t.len() {
        Err(ReasonKey::InvalidInput)
    } else {
        let c = t[i];
        if c == 'R' || c == 'P' {
            let has_h = i + 1 < t.len() && Height::spec_from_char(t[i + 1]) is Some;
            let h = if has_h {
                Height::spec_from_char(t[i + 1])
            } else {
                None
            };
            let j = if has_h {
                i + 2
            } else {
                i + 1
            };
            match spec_parse_zone_opt(t, j) {
                Ok(z) => Ok(
                    if c == 'R' {
                        ActionType::Receive(h, z)
                    } else {
                        ActionType::Pass(h, z)
                    },
                ),
                Err(k) => Err(k),
            }
        } else if c == 'E' {
            Ok(ActionType::Setting)
        } else if c == 'H' {
            match spec_parse_zone_opt(t, i + 1) {
                Ok(z) => Ok(ActionType::Hit(z)),
                Err(k) => Err(k),
            }
        } else if c == 'B' {
            if i + 1 >= t.len() {
                Err(ReasonKey::TeamPrefix)
            } else {
                match Team::spec_from_char(cfg, t[i + 1]) {
                    Err(k) => Err(k),
                    Ok(bt) => match spec_parse_zone_opt(t, i + 2) {
                        Ok(z) => Ok(ActionType::Block(bt, z)),
                        Err(k) => Err(k),
                    },
                }
            }
        } else if c == 'F' {
            match spec_parse_zone_opt(t, i + 1) {
                Ok(z) => Ok(ActionType::Freeball(z)),
                Err(k) => Err(k),
            }
        } else if c == 'S' {
            Err(ReasonKey::ServeNotFirstAction)
        } else {
            Err(ReasonKey::InvalidInput)
        }
    }
}

fn parse_action_type_inner(config: Config, token: &Vec<char>, i: usize) -> (r: Result<
    ActionType,
    Reason,
>)
    ensures
        match spec_parse_action_type_inner(config, token@, i as int) {
            Ok(at) => r matches Ok(rat) && rat == at,
            Err(k) => r matches Err(re) && re.key == k && re.location == 0 && re.wf(),
        },
{
    if i >= token.len() {
        return Err(Reason::invalid_input());
    }
    let c = token[i];
    if c == 'R' || c == 'P' {
        let (h, j) = if i + 1 < token.len() {
            match height_opt(token[i + 1]) {
                Some(hh) => (Some(hh), i + 2),
                None => (None, i + 1),
            }
        } else {
            (None, i + 1)
        };
        match parse_zone_opt(token, j) {
            Ok(z) => if c == 'R' {
                Ok(ActionType::Receive(h, z))
            } else {
                Ok(ActionType::Pass(h, z))
            },
            Err(e) => Err(e),
        }
    } else if c == 'E' {
        Ok(ActionType::Setting)
    } else if c == 'H' {
        match parse_zone_opt(token, i + 1) {
            Ok(z) => Ok(ActionType::Hit(z)),
            Err(e) => Err(e),
        }
    } else if c == 'B' {
        if i + 1 >= token.len() {
            return Err(Reason::team_prefix());
        }
        let bt = match Team::from_char(config, token[i + 1]) {
            Ok(t) => t,
            Err(e) => {
                return Err(e);
            },
        };
        match parse_zone_opt(token, i + 2) {
            Ok(z) => Ok(ActionType::Block(bt, z)),
            Err(e) => Err(e),
        }
    } else if c == 'F' {
        match parse_zone_opt(token, i + 1) {
            Ok(z) => Ok(ActionType::Freeball(z)),
            Err(e) => Err(e),
        }
    } else if c == 'S' {
        Err(Reason::serve_not_first_action())
    } else {
        Err(Reason::invalid_input())
    }
}

/// One whole token: team prefix, player number, then the action whose
/// grammar depends on whether this is the first token of the rally.
pub open spec fn spec_parse_action(cfg: Config, t: Seq<char>, is_first: bool) -> Result<
    Action,
    ReasonKey,
> {
    if t.len() == 0 {
        Err(ReasonKey::TeamPrefix)
    } else {
        match Team::spec_from_char(cfg, t[0]) {
            Err(k) => Err(k),
            Ok(team) => match spec_parse_player(t, 1) {
                Err(k) => Err(k),
                Ok(pj) => {
                    let at = if is_first {
                        spec_parse_action_type_first(t, pj.1)
                    } else {
                        spec_parse_action_type_inner(cfg, t, pj.1)
                    };
                    match at {
                        Err(k) => Err(k),
                        Ok(action_type) => Ok(
                            Action { team, player: pj.0, action_type },
                        ),
                    }
                },
            },
        }
    }
}

/// Parses one token. The reported location is left at zero; the rally
/// parser re-anchors it to the token's index.
pub fn parse_action(config: Config, token: &Vec<char>, is_first: bool) -> (r: Result<
    Action,
    Reason,
>)
    ensures
        match spec_parse_action(config, token@, is_first) {
            Ok(a) => r matches Ok(ra) && ra == a,
            Err(k) => r matches Err(re) && re.key == k && re.location == 0 && re.wf(),
        },
{
    if token.len() == 0 {
        return Err(Reason::team_prefix());
    }
    let team = match Team::from_char(config, token[0]) {
        Ok(t) => t,
        Err(e) => {
            return Err(e);
        },
    };
    let (player, i) = match parse_player(token, 1) {
        Ok(pj) => pj,
        Err(e) => {
            return Err(e);
        },
    };
    let action_type = if is_first {
        match parse_action_type_first(token, i) {
            Ok(at) => at,
            Err(e) => {
                return Err(e);
            },
        }
    } else {
        match parse_action_type_inner(config, token, i) {
            Ok(at) => at,
            Err(e) => {
                return Err(e);
            },
        }
    };
    Ok(Action { team, player, action_type })
}

/// The token list of a rally string: maximal runs of non-space characters,
/// split at every single space. Splitting is total: the empty string yields
/// one empty token, and doubled or trailing spaces yield empty tokens.
pub open spec fn spec_split(s: Seq<char>) -> Seq<Seq<char>>
    decreases s.len(),
{
    if s.len() == 0 {
        seq![Seq::<char>::empty()]
    } else {
        let rest = spec_split(s.drop_first());
        if s[0] == ' ' {
            seq![Seq::<char>::empty()] + rest
        } else {
            seq![seq![s[0]] + rest[0]] + rest.drop_first()
        }
    }
}

/// Splitting always yields at least one token.
pub proof fn lemma_split_nonempty(s: Seq<char>)
    ensures
        spec_split(s).len() >= 1,
    decreases s.len(),
{
    if s.len() > 0 {
        lemma_split_nonempty(s.drop_first());
    }
}

/// Splitting yields at most one token more than there are characters.
pub proof fn lemma_split_count(s: Seq<char>)
    ensures
        spec_split(s).len() <= s.len() + 1,
    decreases s.len(),
{
    if s.len() > 0 {
        lemma_split_count(s.drop_first());
    }
}

/// The views of a vector of tokens.
pub open spec fn spec_token_views(ts: Seq<Vec<char>>) -> Seq<Seq<char>> {
    ts.map_values(|t: Vec<char>| t@)
}

/// The split of the remaining input, with the partial current token glued
/// onto its first element.
spec fn spec_prepend_first(c: Seq<char>, ss: Seq<Seq<char>>) -> Seq<Seq<char>> {
    seq![c + ss[0]] + ss.drop_first()
}

fn split_spaces(s: &Vec<char>) -> (r: Vec<Vec<char>>)
    ensures
        spec_token_views(r@) == spec_split(s@),
        r@.len() >= 1,
{
    let n = s.len();
    let mut toks: Vec<Vec<char>> = Vec::new();
    let mut cur: Vec<char> = Vec::new();
    let mut i: usize = 0;
    proof {
        lemma_split_nonempty(s@);
        assert(s@.skip(0) =~= s@);
        assert(spec_token_views(toks@) + spec_prepend_first(cur@, spec_split(s@.skip(0)))
            =~~= spec_split(s@));
    }
    while i < n
        invariant
            n == s@.len(),
            i <= n,
            spec_split(s@.skip(i as int)).len() >= 1,
            spec_token_views(toks@) + spec_prepend_first(cur@, spec_split(s@.skip(i as int)))
                == spec_split(s@),
        decreases n - i,
    {
        proof {
            assert(s@.skip(i as int)[0] == s@[i as int]);
            assert(s@.skip(i as int).drop_first() =~= s@.skip(i + 1));
            lemma_split_nonempty(s@.skip(i + 1));
        }
        let ghost old_toks = toks@;
        let ghost old_cur = cur@;
        let c = s[i];
        if c == ' ' {
            let done = cur;
            cur = Vec::new();
            toks.push(done);
            proof {
                let rest = spec_split(s@.skip(i + 1));
                assert(spec_split(s@.skip(i as int)) == seq![Seq::<char>::empty()] + rest);
                assert(spec_prepend_first(old_cur, seq![Seq::<char>::empty()] + rest)
                    =~~= seq![old_cur] + rest);
                assert(spec_prepend_first(cur@, rest)[0] =~= rest[0]);
                assert(spec_token_views(toks@) =~~= spec_token_views(old_toks) + seq![old_cur]);
                assert(spec_token_views(toks@) + spec_prepend_first(cur@, rest) =~~= spec_token_views(
                    old_toks,
                ) + spec_prepend_first(old_cur, spec_split(s@.skip(i as int))));
            }
        } else {
            cur.push(c);
            proof {
                let rest = spec_split(s@.skip(i + 1));
                assert(spec_split(s@.skip(i as int)) == seq![seq![s@[i as int]] + rest[0]]
                    + rest.drop_first());
                assert(spec_prepend_first(
                    old_cur,
                    seq![seq![s@[i as int]] + rest[0]] + rest.drop_first(),
                ) =~~= spec_prepend_first(old_cur.push(s@[i as int]), rest));
                assert(cur@ == old_cur.push(s@[i as int]));
            }
        }
        i = i + 1;
    }
    proof {
        assert(s@.skip(n as int) =~= Seq::<char>::empty());
        assert(spec_split(Seq::<char>::empty()) == seq![Seq::<char>::empty()]);
        assert(spec_prepend_first(cur@, seq![Seq::<char>::empty()]) =~~= seq![cur@]);
    }
    let ghost final_toks = toks@;
    let ghost final_cur = cur@;
    toks.push(cur);
    proof {
        assert(spec_token_views(toks@) =~~= spec_token_views(final_toks) + seq![final_cur]);
        assert(spec_token_views(toks@) =~~= spec_split(s@));
    }
    toks
}

/// The token-by-token parse of the rally's tokens from index `k` on,
/// failing fast: the first defect is reported with the index of the token
/// that holds it, and no actions are produced.
pub open spec fn spec_parse_actions(cfg: Config, toks: Seq<Seq<char>>, k: int) -> Result<
    Seq<Action>,
    (ReasonKey, int),
>
    decreases toks.len() - k,
{
    if k < 0 || k >= toks.len() {
        Ok(Seq::<Action>::empty())
    } else {
        match spec_parse_action(cfg, toks[k], k == 0) {
            Err(e) => Err((e, k)),
            Ok(a) => match spec_parse_actions(cfg, toks, k + 1) {
                Err(e) => Err(e),
                Ok(rest) => Ok(seq![a] + rest),
            },
        }
    }
}

/// A successful parse yields exactly one action per token.
pub proof fn lemma_parse_actions_len(cfg: Config, toks: Seq<Seq<char>>, k: int)
    requires
        0 <= k <= toks.len(),
        spec_parse_actions(cfg, toks, k) is Ok,
    ensures
        spec_parse_actions(cfg, toks, k)->Ok_0.len() == toks.len() - k,
    decreases toks.len() - k,
{
    if k < toks.len() {
        lemma_parse_actions_len(cfg, toks, k + 1);
    }
}

/// The last action of a parsed rally.
pub open spec fn spec_last_action(actions: Seq<Action>) -> Action {
    actions[actions.len() - 1]
}

/// The second-to-last action of a parsed rally, when there is one.
pub open spec fn spec_related_action(actions: Seq<Action>) -> Option<Action> {
    if actions.len() >= 2 {
        Some(actions[actions.len() - 2])
    } else {
        None
    }
}

/// The complete parse of one rally string: an empty string holds no
/// actions; otherwise the string is split on spaces, every token is parsed
/// in order, and the verdict is drawn from the last and second-to-last
/// actions.
pub open spec fn spec_parse_rally(cfg: Config, s: Seq<char>) -> Result<
    (Seq<Action>, crate::action::WhoScored),
    (ReasonKey, int),
> {
    if s.len() == 0 {
        Err((ReasonKey::NoActions, 0))
    } else {
        match spec_parse_actions(cfg, spec_split(s), 0) {
            Err(e) => Err(e),
            Ok(actions) => Ok(
                (actions, spec_who_scored(spec_last_action(actions), spec_related_action(actions))),
            ),
        }
    }
}

fn str_chars(s: &str) -> (r: Vec<char>)
    ensures
        r@ == s@,
{
    let n = s.unicode_len();
    let mut v: Vec<char> = Vec::new();
    let mut i: usize = 0;
    while i < n
        invariant
            n == s@.len(),
            i <= n,
            v@.len() == i,
            forall|j: int| 0 <= j < i ==> v@[j] == s@[j],
        decreases n - i,
    {
        let c = s.get_char(i);
        v.push(c);
        i = i + 1;
    }
    proof {
        assert(v@ =~= s@);
    }
    v
}

/// Parses one rally string under the given configuration, fail-fast: the
/// result is either the full action sequence with its verdict, or the first
/// defect together with the index of the token that holds it.
pub fn parse(config: Config, rally: &str) -> (r: Result<Rally, Reason>)
    ensures
        match spec_parse_rally(config, rally@) {
            Ok(aw) => r matches Ok(ra) && ra.actions@ == aw.0 && ra.who == aw.1,
            Err(e) => r matches Err(re) && re.key == e.0 && re.location as int == e.1 && re.wf(),
        },
{
    let chars = str_chars(rally);
    if chars.len() == 0 {
        return Err(Reason::no_actions());
    }
    let tokens = split_spaces(&chars);
    let ghost tok_views = spec_token_views(tokens@);
    let n = tokens.len();
    let mut actions: Vec<Action> = Vec::new();
    let mut idx: usize = 0;
    proof {
        assert(actions@ + spec_parse_actions(config, tok_views, 0)->Ok_0 =~= spec_parse_actions(
            config,
            tok_views,
            0,
        )->Ok_0);
    }
    while idx < n
        invariant
            n == tokens@.len(),
            tok_views == spec_token_views(tokens@),
            tok_views == spec_split(rally@),
            rally@.len() != 0,
            idx <= n,
            actions@.len() == idx,
            spec_parse_actions(config, tok_views, 0) == match spec_parse_actions(
                config,
                tok_views,
                idx as int,
            ) {
                Err(e) => Err::<Seq<Action>, (ReasonKey, int)>(e),
                Ok(rest) => Ok::<Seq<Action>, (ReasonKey, int)>(actions@ + rest),
            },
        decreases n - idx,
    {
        proof {
            assert(tok_views[idx as int] == tokens@[idx as int]@);
        }
        match parse_action(config, &tokens[idx], idx == 0) {
            Ok(a) => {
                let ghost old_actions = actions@;
                actions.push(a);
                proof {
                    match spec_parse_actions(config, tok_views, idx + 1) {
                        Err(_) => {},
                        Ok(rest) => {
                            assert(old_actions + (seq![a] + rest) =~= actions@ + rest);
                        },
                    }
                }
            },
            Err(e) => {
                return Err(e.with_location(idx));
            },
        }
        idx = idx + 1;
    }
    proof {
        assert(spec_parse_actions(config, tok_views, n as int) == Ok::<
            Seq<Action>,
            (ReasonKey, int),
        >(Seq::<Action>::empty()));
        assert(actions@ + Seq::<Action>::empty() =~= actions@);
        lemma_split_nonempty(chars@);
    }
    let last = actions[actions.len() - 1];
    let related = if actions.len() >= 2 {
        Some(actions[actions.len() - 2])
    } else {
        None
    };
    let who = ActionType::who_scored_point(last, related);
    Ok(Rally { actions, who })
}

} // verus!
