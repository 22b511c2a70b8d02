//! Weekly scoring: match outcomes, pick uniqueness, the points table, the
//! over/under feature bonus and the rule that decides when a score is final.

use vstd::prelude::*;
use crate::model::{
    Match, WeekPicks, WeekFeature, PickResults, PickResultsView, pick_of, pick_for, lookup_pick,
    find_pick, with_cache, UNDER_PICK, OVER_PICK,
};
use crate::ranking::{Ranked, ranked, views, rank_desc, lemma_ranked_members};

verus! {

/// How a pick fared in a match.
#[derive(Clone, Copy, Debug, PartialEq, Eq)]
pub enum MatchOutcome {
    Win,
    Loss,
    Tied,
    NotPlayed,
}

/// The competitive phase of a week, which sets the value of a winning pick.
#[derive(Clone, Copy, Debug, PartialEq, Eq)]
pub enum WeekTier {
    Regular,
    Wildcard,
    Divisional,
    Conference,
    SuperBowl,
}

/// Points of a correct feature (over/under) pick.
pub const FEATURE_BONUS: u32 = 3;

/// A week is complete once every kickoff is this many seconds in the past.
pub const COMPLETION_BUFFER_SECONDS: i64 = 28800;

/// The largest number of points one pick can earn.
pub const MAX_PICK_POINTS: u32 = 12;

/// The tier of a week number. Playoff weeks come as 19 to 22, or in the
/// schedule feed's numbering 160, 125, 150 and 200; any other number is a
/// regular-season week.
pub open spec fn tier_of(week: i64) -> WeekTier {
    if week == 19 || week == 160 {
        WeekTier::Wildcard
    } else if week == 20 || week == 125 {
        WeekTier::Divisional
    } else if week == 21 || week == 150 {
        WeekTier::Conference
    } else if week == 22 || week == 200 {
        WeekTier::SuperBowl
    } else {
        WeekTier::Regular
    }
}

/// Points of a winning pick in a week of tier `tier`.
pub open spec fn win_points(tier: WeekTier, unique: bool) -> u32 {
    match tier {
        WeekTier::Regular => if unique { 4 } else { 2 },
        WeekTier::Wildcard => if unique { 6 } else { 4 },
        WeekTier::Divisional => if unique { 8 } else { 6 },
        WeekTier::Conference => if unique { 10 } else { 8 },
        WeekTier::SuperBowl => if unique { 12 } else { 10 },
    }
}

/// Points of a pick with outcome `outcome`.
pub open spec fn points(outcome: MatchOutcome, unique: bool, tier: WeekTier) -> u32 {
    match outcome {
        MatchOutcome::Win => win_points(tier, unique),
        MatchOutcome::Tied => 1,
        MatchOutcome::Loss | MatchOutcome::NotPlayed => 0,
    }
}

/// The outcome of picking team `pick` in match `m`. A match without both
/// scores, or at 0-0, has not been played; a pick of neither team loses.
pub open spec fn outcome_of(m: Match, pick: Seq<char>) -> MatchOutcome {
    match (m.away_score, m.home_score) {
        (Some(a), Some(h)) => {
            if a == 0 && h == 0 {
                MatchOutcome::NotPlayed
            } else if pick != m.away_team@ && pick != m.home_team@ {
                MatchOutcome::Loss
            } else if a == h {
                MatchOutcome::Tied
            } else if (a > h) == (pick == m.away_team@) {
                MatchOutcome::Win
            } else {
                MatchOutcome::Loss
            }
        },
        _ => MatchOutcome::NotPlayed,
    }
}

/// No pooler of `pool` other than `poolerid` chose `pick` for match `id`.
pub open spec fn is_unique_pick(
    pool: Seq<WeekPicks>,
    poolerid: i64,
    id: Seq<char>,
    pick: Seq<char>,
) -> bool {
    forall|j: int|
        0 <= j < pool.len() && #[trigger] pool[j].poolerid != poolerid ==> pick_of(pool[j], id)
            != Some(pick)
}

/// Points that the picks `picks` of pooler `poolerid` earn in match `m`.
pub open spec fn match_points(
    m: Match,
    week: i64,
    pool: Seq<WeekPicks>,
    picks: Seq<(String, String)>,
    poolerid: i64,
) -> int {
    match lookup_pick(picks, m.id_event@) {
        Some(p) => points(
            outcome_of(m, p),
            is_unique_pick(pool, poolerid, m.id_event@, p),
            tier_of(week),
        ) as int,
        None => 0,
    }
}

/// Sum of `match_points` over the matches of a week.
pub open spec fn weekly_score(
    matches: Seq<Match>,
    week: i64,
    pool: Seq<WeekPicks>,
    picks: Seq<(String, String)>,
    poolerid: i64,
) -> int
    decreases matches.len(),
{
    if matches.len() == 0 {
        0
    } else {
        weekly_score(matches.drop_last(), week, pool, picks, poolerid) + match_points(
            matches.last(),
            week,
            pool,
            picks,
            poolerid,
        )
    }
}

/// The feature match `m` is final and `featpick` called it right.
pub open spec fn feature_hit(m: Match, target: i32, featpick: u32) -> bool {
    match (m.away_score, m.home_score) {
        (Some(a), Some(h)) => a + h > 0 && ((featpick == UNDER_PICK && a + h <= target) || (
        featpick == OVER_PICK && a + h > target)),
        _ => false,
    }
}

/// Feature points: the bonus when some match of the week is the feature
/// match and the pooler's feature pick on it is right, else 0.
pub open spec fn feature_score(
    matches: Seq<Match>,
    feat: Option<WeekFeature>,
    featpick: Option<u32>,
) -> u32 {
    match (feat, featpick) {
        (Some(f), Some(fp)) => if exists|k: int|
            #![trigger matches[k]]
            0 <= k < matches.len() && matches[k].id_event@ == f.matchid@ && feature_hit(
                matches[k],
                f.target,
                fp,
            ) {
            FEATURE_BONUS
        } else {
            0
        },
        _ => 0,
    }
}

/// Every match of the week kicked off before `now` minus the buffer.
pub open spec fn week_complete_at(matches: Seq<Match>, now: i64) -> bool {
    forall|k: int|
        0 <= k < matches.len() ==> (#[trigger] matches[k].date as int) < now
            - COMPLETION_BUFFER_SECONDS
}

/// The result of pooler record `p` in a week scored at time `now`. A stored
/// score is returned as it is and never stored again; otherwise the score is
/// computed, and may be stored when the week is complete and `p` has a record.
pub open spec fn result_for(
    week: i64,
    matches: Seq<Match>,
    pool: Seq<WeekPicks>,
    feat: Option<WeekFeature>,
    now: i64,
    p: WeekPicks,
) -> PickResultsView {
    let fs = feature_score(matches, feat, p.featpick);
    let (score, featscore, cache) = match p.cached {
        Some(c) => (
            c,
            match p.featcached {
                Some(f) => f,
                None => fs,
            },
            false,
        ),
        None => match p.picks {
            Some(entries) => (
                weekly_score(matches, week, pool, entries@, p.poolerid) as u32,
                fs,
                week_complete_at(matches, now) && p.pickid is Some,
            ),
            None => (0, fs, false),
        },
    };
    PickResultsView {
        pickid: p.pickid,
        poolerid: p.poolerid,
        name: p.name@,
        score,
        featscore,
        cache,
    }
}

/// The results of every record of `pool`, in the order of `pool`.
pub open spec fn week_results(
    week: i64,
    matches: Seq<Match>,
    pool: Seq<WeekPicks>,
    feat: Option<WeekFeature>,
    now: i64,
) -> Seq<PickResultsView> {
    pool.map_values(|p: WeekPicks| result_for(week, matches, pool, feat, now, p))
}

impl Ranked for PickResults {
    open spec fn rank_of(v: PickResultsView) -> int {
        v.score + v.featscore
    }

    fn rank_key(&self) -> (r: u64) {
        self.score as u64 + self.featscore as u64
    }
}

/// The tier of week number `week`.
pub fn week_tier(week: i64) -> (r: WeekTier)
    ensures
        r == tier_of(week),
{
    if week == 19 || week == 160 {
        WeekTier::Wildcard
    } else if week == 20 || week == 125 {
        WeekTier::Divisional
    } else if week == 21 || week == 150 {
        WeekTier::Conference
    } else if week == 22 || week == 200 {
        WeekTier::SuperBowl
    } else {
        WeekTier::Regular
    }
}

/// Points of a pick with `outcome` in week number `week`.
pub fn get_score(outcome: &MatchOutcome, unique: bool, week: &i64) -> (r: u32)
    ensures
        r == points(*outcome, unique, tier_of(*week)),
        r <= MAX_PICK_POINTS,
{
    match outcome {
        MatchOutcome::Win => match week_tier(*week) {
            WeekTier::Regular => if unique { 4 } else { 2 },
            WeekTier::Wildcard => if unique { 6 } else { 4 },
            WeekTier::Divisional => if unique { 8 } else { 6 },
            WeekTier::Conference => if unique { 10 } else { 8 },
            WeekTier::SuperBowl => if unique { 12 } else { 10 },
        },
        MatchOutcome::Loss | MatchOutcome::NotPlayed => 0,
        MatchOutcome::Tied => 1,
    }
}

/// The outcome of picking team `pick` in match `m`.
pub fn classify(m: &Match, pick: &String) -> (r: MatchOutcome)
    ensures
        r == outcome_of(*m, pick@),
{
    match (m.away_score, m.home_score) {
        (Some(a), Some(h)) => {
            if a == 0 && h == 0 {
                MatchOutcome::NotPlayed
            } else if *pick != m.away_team && *pick != m.home_team {
                MatchOutcome::Loss
            } else if a == h {
                MatchOutcome::Tied
            } else if (a > h) == (*pick == m.away_team) {
                MatchOutcome::Win
            } else {
                MatchOutcome::Loss
            }
        },
        _ => MatchOutcome::NotPlayed,
    }
}

/// Whether no pooler of `pool` other than `poolerid` chose `pick` for match `id`.
pub fn is_unique(pool: &Vec<WeekPicks>, poolerid: i64, id: &String, pick: &String) -> (r: bool)
    ensures
        r == is_unique_pick(pool@, poolerid, id@, pick@),
{
    let mut j: usize = 0;
    while j < pool.len()
        invariant
            j <= pool@.len(),
            forall|i: int|
                0 <= i < j && #[trigger] pool@[i].poolerid != poolerid ==> pick_of(pool@[i], id@)
                    != Some(pick@),
        decreases pool@.len() - j,
    {
        if pool[j].poolerid != poolerid {
            match pick_for(&pool[j], id) {
                Some(t) => {
                    if *t == *pick {
                        return false;
                    }
                },
                None => {},
            }
        }
        j += 1;
    }
    true
}

/// The weekly score of pooler `poolerid`, whose picks are `picks`, against
/// the picks `poolpicks` of the whole pool.
pub fn calc_results_internal(
    matches: &Vec<Match>,
    week: &i64,
    poolpicks: &Vec<WeekPicks>,
    picks: &Vec<(String, String)>,
    poolerid: i64,
) -> (r: u32)
    requires
        matches@.len() * MAX_PICK_POINTS <= u32::MAX,
    ensures
        r == weekly_score(matches@, *week, poolpicks@, picks@, poolerid),
{
    let mut total: u32 = 0;
    let mut i: usize = 0;
    while i < matches.len()
        invariant
            i <= matches@.len(),
            matches@.len() * MAX_PICK_POINTS <= u32::MAX,
            total <= i * MAX_PICK_POINTS,
            total == weekly_score(matches@.subrange(0, i as int), *week, poolpicks@, picks@, poolerid),
        decreases matches@.len() - i,
    {
        let m = &matches[i];
        let pts: u32 = match find_pick(picks, &m.id_event) {
            Some(k) => {
                let pick = &picks[k].1;
                let outcome = classify(m, pick);
                let unique = is_unique(poolpicks, poolerid, &m.id_event, pick);
                get_score(&outcome, unique, week)
            },
            None => 0,
        };
        assert(matches@.subrange(0, i + 1).drop_last() =~= matches@.subrange(0, i as int));
        assert(i * MAX_PICK_POINTS + MAX_PICK_POINTS <= matches@.len() * MAX_PICK_POINTS)
            by (nonlinear_arith)
            requires
                i < matches@.len(),
        ;
        total = total + pts;
        i += 1;
    }
    assert(matches@.subrange(0, i as int) =~= matches@);
    total
}

/// Whether the feature pick `featpick` was right on match `m` with target `target`.
pub fn feature_hits(m: &Match, target: i32, featpick: u32) -> (r: bool)
    ensures
        r == feature_hit(*m, target, featpick),
{
    match (m.away_score, m.home_score) {
        (Some(a), Some(h)) => {
            let total: u128 = a as u128 + h as u128;
            let under = featpick == UNDER_PICK && target >= 0 && total <= target as u128;
            let over = featpick == OVER_PICK && (target < 0 || total > target as u128);
            total > 0 && (under || over)
        },
        _ => false,
    }
}

/// The feature points of a pooler whose feature pick is `featpick`.
pub fn feature_points(matches: &Vec<Match>, feat: &Option<WeekFeature>, featpick: Option<u32>) -> (r:
    u32)
    ensures
        r == feature_score(matches@, *feat, featpick),
{
    match feat {
        Some(f) => match featpick {
        Some(fp) => {
            let mut i: usize = 0;
            while i < matches.len()
                invariant
                    i <= matches@.len(),
                    *feat == Some(*f),
                    featpick == Some(fp),
                    forall|k: int|
                        0 <= k < i ==> !(#[trigger] matches@[k].id_event@ == f.matchid@
                            && feature_hit(matches@[k], f.target, fp)),
                decreases matches@.len() - i,
            {
                if matches[i].id_event == f.matchid {
                    if feature_hits(&matches[i], f.target, fp) {
                        assert(matches@[i as int].id_event@ == f.matchid@ && feature_hit(
                            matches@[i as int],
                            f.target,
                            fp,
                        ));
                        return FEATURE_BONUS;
                    }
                }
                i += 1;
            }
            0
        },
        None => 0,
        },
        None => 0,
    }
}

/// Whether every match kicked off before `now` minus the completion buffer.
pub fn week_complete(matches: &Vec<Match>, now: i64) -> (r: bool)
    ensures
        r == week_complete_at(matches@, now),
{
    let cutoff: i128 = now as i128 - COMPLETION_BUFFER_SECONDS as i128;
    let mut i: usize = 0;
    while i < matches.len()
        invariant
            i <= matches@.len(),
            cutoff == now - COMPLETION_BUFFER_SECONDS,
            forall|k: int| 0 <= k < i ==> (#[trigger] matches@[k].date as int) < cutoff,
        decreases matches@.len() - i,
    {
        if matches[i].date as i128 >= cutoff {
            return false;
        }
        i += 1;
    }
    true
}

/// The result of record `p` in a week scored at time `now`.
pub fn score_pooler(
    week: &i64,
    matches: &Vec<Match>,
    pool: &Vec<WeekPicks>,
    feat: &Option<WeekFeature>,
    now: i64,
    p: &WeekPicks,
) -> (r: PickResults)
    requires
        matches@.len() * MAX_PICK_POINTS <= u32::MAX,
    ensures
        r@ == result_for(*week, matches@, pool@, *feat, now, *p),
{
    let fs = feature_points(matches, feat, p.featpick);
    let (score, featscore, cache) = match p.cached {
        Some(c) => (
            c,
            match p.featcached {
                Some(f) => f,
                None => fs,
            },
            false,
        ),
        None => match &p.picks {
            Some(entries) => (
                calc_results_internal(matches, week, pool, entries, p.poolerid),
                fs,
                week_complete(matches, now) && p.pickid.is_some(),
            ),
            None => (0, fs, false),
        },
    };
    PickResults { pickid: p.pickid, poolerid: p.poolerid, name: p.name.clone(), score, featscore, cache }
}

/// The results of every pooler of the week at time `now` (seconds since
/// the Unix epoch), highest total first; equal totals keep the order of `picks`.
pub fn calc_results_at(
    week: &i64,
    matches: &Vec<Match>,
    picks: &Vec<WeekPicks>,
    feat: &Option<WeekFeature>,
    now: i64,
) -> (r: Vec<PickResults>)
    requires
        matches@.len() * MAX_PICK_POINTS <= u32::MAX,
    ensures
        views(r@) == ranked::<PickResults>(week_results(*week, matches@, picks@, *feat, now)),
{
    let mut out: Vec<PickResults> = Vec::new();
    let mut i: usize = 0;
    while i < picks.len()
        invariant
            i <= picks@.len(),
            out@.len() == i,
            matches@.len() * MAX_PICK_POINTS <= u32::MAX,
            views(out@) == week_results(*week, matches@, picks@, *feat, now).subrange(0, i as int),
        decreases picks@.len() - i,
    {
        let r = score_pooler(week, matches, picks, feat, now, &picks[i]);
        out.push(r);
        assert(week_results(*week, matches@, picks@, *feat, now)[i as int] == result_for(
            *week,
            matches@,
            picks@,
            *feat,
            now,
            picks@[i as int],
        ));
        assert(views(out@) =~= week_results(*week, matches@, picks@, *feat, now).subrange(
            0,
            i + 1,
        ));
        i += 1;
    }
    assert(views(out@) =~= week_results(*week, matches@, picks@, *feat, now));
    rank_desc(out)
}

/// Relies on chrono's `Utc::now`, read through `DateTime::timestamp`: the
/// current time in whole seconds since the Unix epoch. Nothing is assumed of
/// the value.
#[verifier::external_body]
fn now_timestamp() -> (r: i64) {
    chrono::Utc::now().timestamp()
}

/// The results of every pooler of the week, scored now; see `calc_results_at`.
pub fn calc_results(
    week: &i64,
    matches: &Vec<Match>,
    picks: &Vec<WeekPicks>,
    feat: &Option<WeekFeature>,
) -> (r: Vec<PickResults>)
    requires
        matches@.len() * MAX_PICK_POINTS <= u32::MAX,
    ensures
        exists|now: i64|
            views(r@) == ranked::<PickResults>(week_results(*week, matches@, picks@, *feat, now)),
{
    let now = now_timestamp();
    calc_results_at(week, matches, picks, feat, now)
}


/// In a regular-season week a pick earns 4 when it wins and is unique, 2
/// when it wins and is shared, 1 on a tie whether unique or not, and 0 on a
/// loss or an unplayed match.
pub proof fn lemma_regular_season_points(
    m: Match,
    week: i64,
    pool: Seq<WeekPicks>,
    picks: Seq<(String, String)>,
    poolerid: i64,
)
    requires
        1 <= week <= 18,
        lookup_pick(picks, m.id_event@) is Some,
    ensures
        ({
            let p = lookup_pick(picks, m.id_event@)->0;
            let o = outcome_of(m, p);
            let u = is_unique_pick(pool, poolerid, m.id_event@, p);
            let v = match_points(m, week, pool, picks, poolerid);
            &&& (o == MatchOutcome::Win && u ==> v == 4)
            &&& (o == MatchOutcome::Win && !u ==> v == 2)
            &&& (o == MatchOutcome::Tied ==> v == 1)
            &&& (o == MatchOutcome::Loss || o == MatchOutcome::NotPlayed ==> v == 0)
        }),
{
}

/// When exactly one pooler, `u`, picks team `ta` for match `m`, every other
/// pooler picks the opponent `tb`, and `ta` wins: `u` earns the value of a
/// unique win and every other pooler earns nothing.
pub proof fn lemma_lone_winner(
    m: Match,
    week: i64,
    pool: Seq<WeekPicks>,
    u: int,
    ta: Seq<char>,
    tb: Seq<char>,
)
    requires
        0 <= u < pool.len(),
        forall|j: int| 0 <= j < pool.len() && j != u ==> #[trigger] pool[j].poolerid != pool[u].poolerid,
        (ta == m.away_team@ && tb == m.home_team@) || (ta == m.home_team@ && tb == m.away_team@),
        ta != tb,
        pick_of(pool[u], m.id_event@) == Some(ta),
        forall|j: int| 0 <= j < pool.len() && j != u ==> pick_of(#[trigger] pool[j], m.id_event@) == Some(tb),
        outcome_of(m, ta) == MatchOutcome::Win,
    ensures
        match_points(m, week, pool, pool[u].picks->0@, pool[u].poolerid) == win_points(tier_of(week), true),
        forall|j: int|
            0 <= j < pool.len() && j != u ==> match_points(m, week, pool, (#[trigger] pool[j]).picks->0@, pool[j].poolerid) == 0,
{
    assert(is_unique_pick(pool, pool[u].poolerid, m.id_event@, ta)) by {
        assert forall|j: int| 0 <= j < pool.len() && #[trigger] pool[j].poolerid != pool[u].poolerid implies pick_of(pool[j], m.id_event@) != Some(ta) by {
            if j != u {
                assert(pick_of(pool[j], m.id_event@) == Some(tb));
            }
        }
    }
    assert forall|j: int| 0 <= j < pool.len() && j != u implies match_points(m, week, pool, (#[trigger] pool[j]).picks->0@, pool[j].poolerid) == 0 by {
        assert(pick_of(pool[j], m.id_event@) == Some(tb));
        assert(outcome_of(m, tb) == MatchOutcome::Loss);
    }
}

/// Scoring a week twice from the same inputs and the same time gives the
/// same results.
pub proof fn lemma_scoring_repeatable(
    first: Seq<PickResultsView>,
    second: Seq<PickResultsView>,
    week: i64,
    matches: Seq<Match>,
    pool: Seq<WeekPicks>,
    feat: Option<WeekFeature>,
    now: i64,
)
    requires
        first == ranked::<PickResults>(week_results(week, matches, pool, feat, now)),
        second == ranked::<PickResults>(week_results(week, matches, pool, feat, now)),
    ensures
        first == second,
{
}

/// Once scores are stored on a record, scoring it returns them as they are,
/// and never asks to store them again.
pub proof fn lemma_cached_is_final(
    week: i64,
    matches: Seq<Match>,
    pool: Seq<WeekPicks>,
    feat: Option<WeekFeature>,
    now: i64,
    p: WeekPicks,
    score: u32,
    featscore: u32,
)
    ensures
        result_for(week, matches, pool, feat, now, with_cache(p, score, featscore)).score == score,
        result_for(week, matches, pool, feat, now, with_cache(p, score, featscore)).featscore == featscore,
        !result_for(week, matches, pool, feat, now, with_cache(p, score, featscore)).cache,
{
}

/// While some match of the week kicked off within the completion buffer of
/// `now` (or later), no result of the week may be stored.
pub proof fn lemma_no_cache_while_in_progress(
    week: i64,
    matches: Seq<Match>,
    pool: Seq<WeekPicks>,
    feat: Option<WeekFeature>,
    now: i64,
    k: int,
)
    requires
        0 <= k < matches.len(),
        matches[k].date as int >= now - COMPLETION_BUFFER_SECONDS,
    ensures
        forall|i: int|
            0 <= i < pool.len() ==> !(#[trigger] ranked::<PickResults>(
                week_results(week, matches, pool, feat, now),
            )[i]).cache,
{
    let results = week_results(week, matches, pool, feat, now);
    lemma_ranked_members::<PickResults>(results);
    assert(!week_complete_at(matches, now));
    assert forall|i: int| 0 <= i < pool.len() implies !(#[trigger] ranked::<PickResults>(results)[i]).cache by {
        let r = ranked::<PickResults>(results)[i];
        assert(results.contains(r));
        let j = choose|j: int| 0 <= j < results.len() && results[j] == r;
        assert(results[j] == result_for(week, matches, pool, feat, now, pool[j]));
    }
}

} // verus!
