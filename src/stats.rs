//! Pool statistics over a season: how often unanimous picks and unique picks
//! won, how often feature picks were right, pool-wide and for each pooler.

use vstd::prelude::*;
use crate::model::{Match, WeekPicks, WeekFeature, pick_of, pick_for};
use crate::scoring::{MatchOutcome, outcome_of, feature_hit, classify, feature_hits};
use crate::season::SeasonWeek;

verus! {

/// One of the two teams of a match.
#[derive(Clone, Copy, Debug, PartialEq, Eq)]
pub enum Side {
    Away,
    Home,
}

/// Pool-wide counters: attempts and hits of unanimous picks, of unique
/// picks and of feature picks.
#[derive(Clone, Copy, Debug)]
pub struct PoolStats {
    pub uni_count: u32,
    pub uni_hits: u32,
    pub unique_count: u32,
    pub unique_hits: u32,
    pub ou_count: u32,
    pub ou_hits: u32,
}

pub struct PoolStatsView {
    pub uni_count: nat,
    pub uni_hits: nat,
    pub unique_count: nat,
    pub unique_hits: nat,
    pub ou_count: nat,
    pub ou_hits: nat,
}

impl View for PoolStats {
    type V = PoolStatsView;

    open spec fn view(&self) -> PoolStatsView {
        PoolStatsView {
            uni_count: self.uni_count as nat,
            uni_hits: self.uni_hits as nat,
            unique_count: self.unique_count as nat,
            unique_hits: self.unique_hits as nat,
            ou_count: self.ou_count as nat,
            ou_hits: self.ou_hits as nat,
        }
    }
}

/// One pooler's counters: picks made and won, unique picks made and won,
/// feature picks made and won.
pub struct PoolerStats {
    pub poolerid: i64,
    pub name: String,
    pub pick_count: u32,
    pub hit_count: u32,
    pub unique_count: u32,
    pub unique_hits: u32,
    pub ou_count: u32,
    pub ou_hits: u32,
}

pub struct PoolerStatsView {
    pub poolerid: i64,
    pub name: Seq<char>,
    pub pick_count: nat,
    pub hit_count: nat,
    pub unique_count: nat,
    pub unique_hits: nat,
    pub ou_count: nat,
    pub ou_hits: nat,
}

impl View for PoolerStats {
    type V = PoolerStatsView;

    open spec fn view(&self) -> PoolerStatsView {
        PoolerStatsView {
            poolerid: self.poolerid,
            name: self.name@,
            pick_count: self.pick_count as nat,
            hit_count: self.hit_count as nat,
            unique_count: self.unique_count as nat,
            unique_hits: self.unique_hits as nat,
            ou_count: self.ou_count as nat,
            ou_hits: self.ou_hits as nat,
        }
    }
}

/// The statistics of a season.
pub struct SeasonStats {
    pub pool: PoolStats,
    /// One entry per pooler, in the order in which poolers first appear.
    pub poolers: Vec<PoolerStats>,
}

/// What one pooler adds to the counters for one match.
#[derive(Clone, Copy, Debug)]
pub struct StatDelta {
    pub hit: bool,
    pub unique: bool,
    pub unique_hit: bool,
    pub ou: bool,
    pub ou_hit: bool,
}

/// Pool counters and pooler entries, in the model.
pub struct StatsTally {
    pub pool: PoolStatsView,
    pub poolers: Seq<PoolerStatsView>,
}

pub open spec fn bit(b: bool) -> nat {
    if b {
        1
    } else {
        0
    }
}

/// The code of the team on side `s` of match `m`.
pub open spec fn team_on(m: Match, s: Side) -> Seq<char> {
    match s {
        Side::Away => m.away_team@,
        Side::Home => m.home_team@,
    }
}

/// Record `p` picked `team` for match `m`.
pub open spec fn picks_team(p: WeekPicks, m: Match, team: Seq<char>) -> bool {
    pick_of(p, m.id_event@) == Some(team)
}

/// Number of records of `poolers` that picked `team` for match `m`.
pub open spec fn count_picking(poolers: Seq<WeekPicks>, m: Match, team: Seq<char>) -> nat
    decreases poolers.len(),
{
    if poolers.len() == 0 {
        0
    } else {
        count_picking(poolers.drop_last(), m, team) + bit(picks_team(poolers.last(), m, team))
    }
}

/// There is at least one record and every record picked `team` for `m`.
pub open spec fn all_picking(poolers: Seq<WeekPicks>, m: Match, team: Seq<char>) -> bool {
    poolers.len() > 0 && forall|j: int| 0 <= j < poolers.len() ==> #[trigger] picks_team(poolers[j], m, team)
}

/// The side that every record picked for `m`, if there is one.
pub open spec fn unanimous_side(m: Match, poolers: Seq<WeekPicks>) -> Option<Side> {
    if all_picking(poolers, m, m.away_team@) {
        Some(Side::Away)
    } else if all_picking(poolers, m, m.home_team@) {
        Some(Side::Home)
    } else {
        None
    }
}

/// The side that exactly one record picked for `m`, if there is one (the
/// home side when both are).
pub open spec fn unique_side(m: Match, poolers: Seq<WeekPicks>) -> Option<Side> {
    if count_picking(poolers, m, m.home_team@) == 1 {
        Some(Side::Home)
    } else if count_picking(poolers, m, m.away_team@) == 1 {
        Some(Side::Away)
    } else {
        None
    }
}

/// Side `s` won match `m`.
pub open spec fn side_won(m: Match, s: Side) -> bool {
    outcome_of(m, team_on(m, s)) == MatchOutcome::Win
}

/// A feature pick `fp` counts on match `m`: `m` is the final feature match.
pub open spec fn feature_counted(m: Match, feat: Option<WeekFeature>, fp: Option<u32>) -> bool {
    match (feat, fp) {
        (Some(f), Some(_)) => m.id_event@ == f.matchid@ && match (m.away_score, m.home_score) {
            (Some(a), Some(h)) => a + h > 0,
            _ => false,
        },
        _ => false,
    }
}

/// A feature pick `fp` counts on match `m` and is right.
pub open spec fn feature_won(m: Match, feat: Option<WeekFeature>, fp: Option<u32>) -> bool {
    match (feat, fp) {
        (Some(f), Some(p)) => feature_counted(m, feat, fp) && feature_hit(m, f.target, p),
        _ => false,
    }
}

/// What record `p` adds for match `m`, given the match's unique side `us`.
pub open spec fn pooler_delta(m: Match, feat: Option<WeekFeature>, p: WeekPicks, us: Option<Side>) -> StatDelta {
    let unique = match us {
        Some(s) => picks_team(p, m, team_on(m, s)),
        None => false,
    };
    StatDelta {
        hit: match pick_of(p, m.id_event@) {
            Some(t) => outcome_of(m, t) == MatchOutcome::Win,
            None => false,
        },
        unique,
        unique_hit: match us {
            Some(s) => unique && side_won(m, s),
            None => false,
        },
        ou: feature_counted(m, feat, p.featpick),
        ou_hit: feature_won(m, feat, p.featpick),
    }
}

/// `k` is the first entry of pooler `id` in `es`.
pub open spec fn first_stats(es: Seq<PoolerStatsView>, id: i64, k: int) -> bool {
    0 <= k < es.len() && es[k].poolerid == id && forall|j: int|
        0 <= j < k ==> #[trigger] es[j].poolerid != id
}

/// `e` with one more pick and the counters of `d` added.
pub open spec fn add_delta(e: PoolerStatsView, d: StatDelta) -> PoolerStatsView {
    PoolerStatsView {
        poolerid: e.poolerid,
        name: e.name,
        pick_count: e.pick_count + 1,
        hit_count: e.hit_count + bit(d.hit),
        unique_count: e.unique_count + bit(d.unique),
        unique_hits: e.unique_hits + bit(d.unique_hit),
        ou_count: e.ou_count + bit(d.ou),
        ou_hits: e.ou_hits + bit(d.ou_hit),
    }
}

/// Adds `d` to pooler `id`'s entry, or to a new last entry for it.
pub open spec fn bump(es: Seq<PoolerStatsView>, id: i64, name: Seq<char>, d: StatDelta) -> Seq<
    PoolerStatsView,
> {
    if exists|k: int| first_stats(es, id, k) {
        let k = choose|k: int| first_stats(es, id, k);
        es.update(k, add_delta(es[k], d))
    } else {
        es.push(
            add_delta(
                PoolerStatsView {
                    poolerid: id,
                    name,
                    pick_count: 0,
                    hit_count: 0,
                    unique_count: 0,
                    unique_hits: 0,
                    ou_count: 0,
                    ou_hits: 0,
                },
                d,
            ),
        )
    }
}

/// The tally after the first `n` records of `poolers` are counted on `m`.
pub open spec fn after_poolers(
    t: StatsTally,
    m: Match,
    feat: Option<WeekFeature>,
    poolers: Seq<WeekPicks>,
    us: Option<Side>,
    n: int,
) -> StatsTally
    decreases n,
{
    if n <= 0 {
        t
    } else {
        let prev = after_poolers(t, m, feat, poolers, us, n - 1);
        let p = poolers[n - 1];
        let d = pooler_delta(m, feat, p, us);
        StatsTally {
            pool: PoolStatsView {
                ou_count: prev.pool.ou_count + bit(d.ou),
                ou_hits: prev.pool.ou_hits + bit(d.ou_hit),
                ..prev.pool
            },
            poolers: bump(prev.poolers, p.poolerid, p.name@, d),
        }
    }
}

/// The pool counters after the unanimous and unique picks of `m` are counted.
pub open spec fn count_match(pool: PoolStatsView, m: Match, poolers: Seq<WeekPicks>) -> PoolStatsView {
    let uni = unanimous_side(m, poolers);
    let us = unique_side(m, poolers);
    PoolStatsView {
        uni_count: pool.uni_count + bit(uni is Some),
        uni_hits: pool.uni_hits + bit(uni is Some && side_won(m, uni->0)),
        unique_count: pool.unique_count + bit(us is Some),
        unique_hits: pool.unique_hits + bit(us is Some && side_won(m, us->0)),
        ..pool
    }
}

/// The tally after match `m` of a week is counted.
pub open spec fn after_match(t: StatsTally, m: Match, feat: Option<WeekFeature>, poolers: Seq<WeekPicks>) -> StatsTally {
    let t1 = after_poolers(t, m, feat, poolers, unique_side(m, poolers), poolers.len() as int);
    StatsTally { pool: count_match(t1.pool, m, poolers), poolers: t1.poolers }
}

/// The tally after the first `n` matches of week `w` are counted.
pub open spec fn after_matches(t: StatsTally, w: SeasonWeek, n: int) -> StatsTally
    decreases n,
{
    if n <= 0 {
        t
    } else {
        after_match(after_matches(t, w, n - 1), w.matches@[n - 1], w.feature, w.picks@)
    }
}

pub open spec fn empty_tally() -> StatsTally {
    StatsTally {
        pool: PoolStatsView {
            uni_count: 0,
            uni_hits: 0,
            unique_count: 0,
            unique_hits: 0,
            ou_count: 0,
            ou_hits: 0,
        },
        poolers: Seq::empty(),
    }
}

/// The tally after the first `n` weeks are counted.
pub open spec fn after_weeks(weeks: Seq<SeasonWeek>, n: int) -> StatsTally
    decreases n,
{
    if n <= 0 {
        empty_tally()
    } else {
        after_matches(after_weeks(weeks, n - 1), weeks[n - 1], weeks[n - 1].matches@.len() as int)
    }
}

/// Number of (match, record) pairs of the first `n` weeks.
pub open spec fn pair_count(weeks: Seq<SeasonWeek>, n: int) -> int
    decreases n,
{
    if n <= 0 {
        0
    } else {
        pair_count(weeks, n - 1) + weeks[n - 1].matches@.len() * weeks[n - 1].picks@.len()
    }
}


/// Every counter of `e` is at most `c`.
pub open spec fn stats_within(e: PoolerStatsView, c: int) -> bool {
    e.pick_count <= c && e.hit_count <= c && e.unique_count <= c && e.unique_hits <= c
        && e.ou_count <= c && e.ou_hits <= c
}

/// Every counter of `t` is at most `c`.
pub open spec fn tally_within(t: StatsTally, c: int) -> bool {
    &&& t.pool.uni_count <= c
    &&& t.pool.uni_hits <= c
    &&& t.pool.unique_count <= c
    &&& t.pool.unique_hits <= c
    &&& t.pool.ou_count <= c
    &&& t.pool.ou_hits <= c
    &&& forall|k: int| 0 <= k < t.poolers.len() ==> stats_within(#[trigger] t.poolers[k], c)
}

proof fn lemma_bump_within(es: Seq<PoolerStatsView>, id: i64, name: Seq<char>, d: StatDelta, c: int)
    requires
        c >= 0,
        forall|k: int| 0 <= k < es.len() ==> stats_within(#[trigger] es[k], c),
    ensures
        forall|k: int|
            0 <= k < bump(es, id, name, d).len() ==> stats_within(#[trigger] bump(es, id, name, d)[k], c + 1),
{
    let b = bump(es, id, name, d);
    assert forall|k: int| 0 <= k < b.len() implies stats_within(#[trigger] b[k], c + 1) by {
        if k < es.len() {
            assert(stats_within(es[k], c));
        }
    }
}

proof fn lemma_after_poolers_within(
    t: StatsTally,
    m: Match,
    feat: Option<WeekFeature>,
    poolers: Seq<WeekPicks>,
    us: Option<Side>,
    n: int,
    c: int,
)
    requires
        0 <= n,
        0 <= c,
        tally_within(t, c),
    ensures
        tally_within(after_poolers(t, m, feat, poolers, us, n), c + n),
        after_poolers(t, m, feat, poolers, us, n).pool.uni_count == t.pool.uni_count,
        after_poolers(t, m, feat, poolers, us, n).pool.uni_hits == t.pool.uni_hits,
        after_poolers(t, m, feat, poolers, us, n).pool.unique_count == t.pool.unique_count,
        after_poolers(t, m, feat, poolers, us, n).pool.unique_hits == t.pool.unique_hits,
    decreases n,
{
    if n > 0 {
        lemma_after_poolers_within(t, m, feat, poolers, us, n - 1, c);
        let prev = after_poolers(t, m, feat, poolers, us, n - 1);
        let p = poolers[n - 1];
        lemma_bump_within(prev.poolers, p.poolerid, p.name@, pooler_delta(m, feat, p, us), c + n - 1);
    }
}

proof fn lemma_count_empty(poolers: Seq<WeekPicks>, m: Match, team: Seq<char>)
    requires
        poolers.len() == 0,
    ensures
        count_picking(poolers, m, team) == 0,
{
}

proof fn lemma_after_match_within(t: StatsTally, m: Match, feat: Option<WeekFeature>, poolers: Seq<WeekPicks>, c: int)
    requires
        0 <= c,
        tally_within(t, c),
    ensures
        tally_within(after_match(t, m, feat, poolers), c + poolers.len()),
{
    lemma_after_poolers_within(t, m, feat, poolers, unique_side(m, poolers), poolers.len() as int, c);
    if poolers.len() == 0 {
        lemma_count_empty(poolers, m, m.home_team@);
        lemma_count_empty(poolers, m, m.away_team@);
    }
}

proof fn lemma_after_matches_within(t: StatsTally, w: SeasonWeek, n: int, c: int)
    requires
        0 <= n <= w.matches@.len(),
        0 <= c,
        tally_within(t, c),
    ensures
        tally_within(after_matches(t, w, n), c + n * w.picks@.len()),
    decreases n,
{
    if n > 0 {
        lemma_after_matches_within(t, w, n - 1, c);
        lemma_after_match_within(after_matches(t, w, n - 1), w.matches@[n - 1], w.feature, w.picks@, c + (n - 1) * w.picks@.len());
        assert(c + (n - 1) * w.picks@.len() + w.picks@.len() == c + n * w.picks@.len()) by (nonlinear_arith);
    }
}

proof fn lemma_after_weeks_within(weeks: Seq<SeasonWeek>, n: int)
    requires
        0 <= n <= weeks.len(),
    ensures
        tally_within(after_weeks(weeks, n), pair_count(weeks, n)),
        pair_count(weeks, n) >= 0,
    decreases n,
{
    if n > 0 {
        lemma_after_weeks_within(weeks, n - 1);
        let w = weeks[n - 1];
        lemma_after_matches_within(after_weeks(weeks, n - 1), w, w.matches@.len() as int, pair_count(weeks, n - 1));
        assert(w.matches@.len() * w.picks@.len() >= 0) by (nonlinear_arith);
    }
}

proof fn lemma_pair_count_mono(weeks: Seq<SeasonWeek>, i: int, n: int)
    requires
        0 <= i <= n,
    ensures
        pair_count(weeks, i) <= pair_count(weeks, n),
    decreases n - i,
{
    if i < n {
        lemma_pair_count_mono(weeks, i, n - 1);
        assert(weeks[n - 1].matches@.len() * weeks[n - 1].picks@.len() >= 0) by (nonlinear_arith);
    }
}

proof fn lemma_count_all(poolers: Seq<WeekPicks>, m: Match, team: Seq<char>, other: Seq<char>)
    requires
        team != other,
        forall|j: int| 0 <= j < poolers.len() ==> #[trigger] picks_team(poolers[j], m, team),
    ensures
        count_picking(poolers, m, team) == poolers.len(),
        count_picking(poolers, m, other) == 0,
    decreases poolers.len(),
{
    if poolers.len() > 0 {
        let prev = poolers.drop_last();
        assert forall|j: int| 0 <= j < prev.len() implies #[trigger] picks_team(prev[j], m, team) by {
            assert(prev[j] == poolers[j]);
        }
        lemma_count_all(prev, m, team, other);
        assert(picks_team(poolers[poolers.len() - 1], m, team));
    }
}

/// When two or more poolers all pick the same team for a match and that team
/// wins, the pool's unanimous attempts and hits each grow by one, its unique
/// counters stay as they were, and no pooler is counted a unique pick.
pub proof fn lemma_unanimous_win(
    pool: PoolStatsView,
    m: Match,
    feat: Option<WeekFeature>,
    poolers: Seq<WeekPicks>,
    team: Seq<char>,
)
    requires
        poolers.len() >= 2,
        m.away_team@ != m.home_team@,
        team == m.away_team@ || team == m.home_team@,
        forall|j: int| 0 <= j < poolers.len() ==> #[trigger] picks_team(poolers[j], m, team),
        outcome_of(m, team) == MatchOutcome::Win,
    ensures
        count_match(pool, m, poolers).uni_count == pool.uni_count + 1,
        count_match(pool, m, poolers).uni_hits == pool.uni_hits + 1,
        count_match(pool, m, poolers).unique_count == pool.unique_count,
        count_match(pool, m, poolers).unique_hits == pool.unique_hits,
        forall|j: int|
            0 <= j < poolers.len() ==> !(#[trigger] pooler_delta(m, feat, poolers[j], unique_side(m, poolers))).unique
                && !pooler_delta(m, feat, poolers[j], unique_side(m, poolers)).unique_hit,
{
    let other = if team == m.away_team@ { m.home_team@ } else { m.away_team@ };
    lemma_count_all(poolers, m, team, other);
    assert(unique_side(m, poolers) is None);
    if team == m.home_team@ {
        assert(picks_team(poolers[0], m, team));
        assert(!all_picking(poolers, m, m.away_team@));
    }
}

/// The code of the team on side `s` of `m`.
pub fn team_of(m: &Match, s: Side) -> (r: &String)
    ensures
        r@ == team_on(*m, s),
{
    match s {
        Side::Away => &m.away_team,
        Side::Home => &m.home_team,
    }
}

/// Whether record `p` picked `team` for match `m`.
pub fn picked(p: &WeekPicks, m: &Match, team: &String) -> (r: bool)
    ensures
        r == picks_team(*p, *m, team@),
{
    match pick_for(p, &m.id_event) {
        Some(t) => *t == *team,
        None => false,
    }
}

/// Number of records of `poolers` that picked `team` for match `m`.
pub fn count_picks(poolers: &Vec<WeekPicks>, m: &Match, team: &String) -> (r: usize)
    ensures
        r == count_picking(poolers@, *m, team@),
{
    let mut n: usize = 0;
    let mut i: usize = 0;
    while i < poolers.len()
        invariant
            i <= poolers@.len(),
            n <= i,
            n == count_picking(poolers@.subrange(0, i as int), *m, team@),
        decreases poolers@.len() - i,
    {
        assert(poolers@.subrange(0, i + 1).drop_last() =~= poolers@.subrange(0, i as int));
        if picked(&poolers[i], m, team) {
            n += 1;
        }
        i += 1;
    }
    assert(poolers@.subrange(0, i as int) =~= poolers@);
    n
}

/// Whether there is at least one record and all of them picked `team` for `m`.
pub fn all_pick(poolers: &Vec<WeekPicks>, m: &Match, team: &String) -> (r: bool)
    ensures
        r == all_picking(poolers@, *m, team@),
{
    if poolers.len() == 0 {
        return false;
    }
    let mut i: usize = 0;
    while i < poolers.len()
        invariant
            i <= poolers@.len(),
            forall|j: int| 0 <= j < i ==> #[trigger] picks_team(poolers@[j], *m, team@),
        decreases poolers@.len() - i,
    {
        if !picked(&poolers[i], m, team) {
            return false;
        }
        i += 1;
    }
    true
}

/// The side that every record picked for `m`, if any.
pub fn unanimous_side_of(m: &Match, poolers: &Vec<WeekPicks>) -> (r: Option<Side>)
    ensures
        r == unanimous_side(*m, poolers@),
{
    if all_pick(poolers, m, &m.away_team) {
        Some(Side::Away)
    } else if all_pick(poolers, m, &m.home_team) {
        Some(Side::Home)
    } else {
        None
    }
}

/// The side that exactly one record picked for `m`, if any.
pub fn unique_side_of(m: &Match, poolers: &Vec<WeekPicks>) -> (r: Option<Side>)
    ensures
        r == unique_side(*m, poolers@),
{
    if count_picks(poolers, m, &m.home_team) == 1 {
        Some(Side::Home)
    } else if count_picks(poolers, m, &m.away_team) == 1 {
        Some(Side::Away)
    } else {
        None
    }
}

/// Whether side `s` won `m`.
pub fn won_by(m: &Match, s: Side) -> (r: bool)
    ensures
        r == side_won(*m, s),
{
    matches!(classify(m, team_of(m, s)), MatchOutcome::Win)
}

/// Whether a feature pick `fp` counts on `m`, and whether it is right.
pub fn check_ou(m: &Match, feat: &Option<WeekFeature>, fp: Option<u32>) -> (r: (bool, bool))
    ensures
        r.0 == feature_counted(*m, *feat, fp),
        r.1 == feature_won(*m, *feat, fp),
{
    match feat {
        Some(f) => match fp {
            Some(p) => {
                let final_match = match (m.away_score, m.home_score) {
                    (Some(a), Some(h)) => a > 0 || h > 0,
                    _ => false,
                };
                let counted = m.id_event == f.matchid && final_match;
                (counted, counted && feature_hits(m, f.target, p))
            },
            None => (false, false),
        },
        None => (false, false),
    }
}

/// What record `p` adds for match `m`, given the match's unique side `us`.
pub fn delta_for(m: &Match, feat: &Option<WeekFeature>, p: &WeekPicks, us: Option<Side>) -> (r: StatDelta)
    ensures
        r == pooler_delta(*m, *feat, *p, us),
{
    let hit = match pick_for(p, &m.id_event) {
        Some(t) => matches!(classify(m, t), MatchOutcome::Win),
        None => false,
    };
    let (unique, unique_hit) = match us {
        Some(s) => {
            let u = picked(p, m, team_of(m, s));
            (u, u && won_by(m, s))
        },
        None => (false, false),
    };
    let (ou, ou_hit) = check_ou(m, feat, p.featpick);
    StatDelta { hit, unique, unique_hit, ou, ou_hit }
}

fn inc(x: u32, b: bool) -> (r: u32)
    requires
        x < u32::MAX,
    ensures
        r == x + bit(b),
{
    if b {
        x + 1
    } else {
        x
    }
}

/// Adds `d` to pooler `poolerid`'s entry, or to a new last entry for it.
pub fn bump_stats(arena: &mut Vec<PoolerStats>, poolerid: i64, name: &String, d: StatDelta)
    requires
        forall|k: int| 0 <= k < old(arena)@.len() ==> stats_within(#[trigger] old(arena)@[k]@, u32::MAX - 1),
    ensures
        views_of(final(arena)@) == bump(views_of(old(arena)@), poolerid, name@, d),
{
    let ghost es = views_of(arena@);
    let mut k: usize = 0;
    while k < arena.len()
        invariant
            k <= arena@.len(),
            arena@ == old(arena)@,
            es == views_of(old(arena)@),
            forall|j: int| 0 <= j < arena@.len() ==> stats_within(#[trigger] arena@[j]@, u32::MAX - 1),
            forall|j: int| 0 <= j < k ==> #[trigger] es[j].poolerid != poolerid,
        decreases arena@.len() - k,
    {
        if arena[k].poolerid == poolerid {
            assert(first_stats(es, poolerid, k as int));
            let e = arena.remove(k);
            assert(stats_within(e@, u32::MAX - 1));
            let updated = PoolerStats {
                poolerid: e.poolerid,
                name: e.name,
                pick_count: e.pick_count + 1,
                hit_count: inc(e.hit_count, d.hit),
                unique_count: inc(e.unique_count, d.unique),
                unique_hits: inc(e.unique_hits, d.unique_hit),
                ou_count: inc(e.ou_count, d.ou),
                ou_hits: inc(e.ou_hits, d.ou_hit),
            };
            arena.insert(k, updated);
            proof {
                let c = choose|c: int| first_stats(es, poolerid, c);
                assert(c == k) by {
                    if c < k {
                        assert(es[c].poolerid != poolerid);
                    }
                    if c > k {
                        assert(es[k as int].poolerid != poolerid);
                    }
                }
                assert(views_of(arena@) =~= bump(es, poolerid, name@, d));
            }
            return;
        }
        k += 1;
    }
    arena.push(
        PoolerStats {
            poolerid,
            name: name.clone(),
            pick_count: 1,
            hit_count: inc(0, d.hit),
            unique_count: inc(0, d.unique),
            unique_hits: inc(0, d.unique_hit),
            ou_count: inc(0, d.ou),
            ou_hits: inc(0, d.ou_hit),
        },
    );
    proof {
        assert(!exists|c: int| first_stats(es, poolerid, c));
        assert(views_of(arena@) =~= bump(es, poolerid, name@, d));
    }
}

/// The views of a sequence of pooler entries.
pub open spec fn views_of(s: Seq<PoolerStats>) -> Seq<PoolerStatsView> {
    s.map_values(|e: PoolerStats| e@)
}


/// Counts match `m` among the unanimous picks when every record picked the
/// same side, and among the hits when that side won.
pub fn check_unanimous(pool: &mut PoolStats, m: &Match, poolers: &Vec<WeekPicks>)
    requires
        old(pool).uni_count < u32::MAX,
        old(pool).uni_hits < u32::MAX,
    ensures
        ({
            let uni = unanimous_side(*m, poolers@);
            &&& final(pool).uni_count == old(pool).uni_count + bit(uni is Some)
            &&& final(pool).uni_hits == old(pool).uni_hits + bit(uni is Some && side_won(*m, uni->0))
        }),
        final(pool).unique_count == old(pool).unique_count,
        final(pool).unique_hits == old(pool).unique_hits,
        final(pool).ou_count == old(pool).ou_count,
        final(pool).ou_hits == old(pool).ou_hits,
{
    let uni = unanimous_side_of(m, poolers);
    let won = match uni {
        Some(s) => won_by(m, s),
        None => false,
    };
    pool.uni_count = inc(pool.uni_count, uni.is_some());
    pool.uni_hits = inc(pool.uni_hits, won);
}

/// Counts match `m` among the unique picks when `us`, its unique side, is
/// some side, and among the hits when that side won.
pub fn check_unique(pool: &mut PoolStats, m: &Match, us: Option<Side>)
    requires
        old(pool).unique_count < u32::MAX,
        old(pool).unique_hits < u32::MAX,
    ensures
        final(pool).unique_count == old(pool).unique_count + bit(us is Some),
        final(pool).unique_hits == old(pool).unique_hits + bit(us is Some && side_won(*m, us->0)),
        final(pool).uni_count == old(pool).uni_count,
        final(pool).uni_hits == old(pool).uni_hits,
        final(pool).ou_count == old(pool).ou_count,
        final(pool).ou_hits == old(pool).ou_hits,
{
    let won = match us {
        Some(s) => won_by(m, s),
        None => false,
    };
    pool.unique_count = inc(pool.unique_count, us.is_some());
    pool.unique_hits = inc(pool.unique_hits, won);
}

/// A success rate in hundredths of a percent, rounded down; nothing when
/// there was no attempt.
pub fn rate_hundredths(hits: u32, count: u32) -> (r: Option<u64>)
    ensures
        count == 0 ==> r is None,
        count > 0 ==> r == Some(((hits as int * 10000) / count as int) as u64),
{
    if count == 0 {
        None
    } else {
        let scaled: u64 = hits as u64 * 10000;
        Some(scaled / count as u64)
    }
}

/// The statistics of a season, week after week and match after match: the
/// pool's unanimous, unique and feature counters, and each pooler's.
pub fn pool_statistics(weeks: &Vec<SeasonWeek>) -> (r: SeasonStats)
    requires
        pair_count(weeks@, weeks@.len() as int) < u32::MAX,
    ensures
        r.pool@ == after_weeks(weeks@, weeks@.len() as int).pool,
        views_of(r.poolers@) == after_weeks(weeks@, weeks@.len() as int).poolers,
{
    let ghost total = pair_count(weeks@, weeks@.len() as int);
    let mut pool = PoolStats {
        uni_count: 0,
        uni_hits: 0,
        unique_count: 0,
        unique_hits: 0,
        ou_count: 0,
        ou_hits: 0,
    };
    let mut arena: Vec<PoolerStats> = Vec::new();
    let mut i: usize = 0;
    assert(views_of(arena@) =~= Seq::<PoolerStatsView>::empty());
    while i < weeks.len()
        invariant
            i <= weeks@.len(),
            total == pair_count(weeks@, weeks@.len() as int),
            total < u32::MAX,
            pool@ == after_weeks(weeks@, i as int).pool,
            views_of(arena@) == after_weeks(weeks@, i as int).poolers,
        decreases weeks@.len() - i,
    {
        let w = &weeks[i];
        let ghost t0 = after_weeks(weeks@, i as int);
        let ghost base = pair_count(weeks@, i as int);
        let ghost np = w.picks@.len() as int;
        let ghost nm = w.matches@.len() as int;
        proof {
            lemma_after_weeks_within(weeks@, i as int);
            lemma_pair_count_mono(weeks@, i + 1, weeks@.len() as int);
        }
        let mut k: usize = 0;
        while k < w.matches.len()
            invariant
                k <= nm,
                *w == weeks@[i as int],
                nm == w.matches@.len(),
                np == w.picks@.len(),
                0 <= base,
                base + nm * np <= total,
                total < u32::MAX,
                tally_within(t0, base),
                pool@ == after_matches(t0, *w, k as int).pool,
                views_of(arena@) == after_matches(t0, *w, k as int).poolers,
            decreases nm - k,
        {
            let m = &w.matches[k];
            let us = unique_side_of(m, &w.picks);
            let ghost tk = after_matches(t0, *w, k as int);
            proof {
                lemma_after_matches_within(t0, *w, k as int, base);
                assert(k * np + np <= nm * np) by (nonlinear_arith)
                    requires
                        k < nm,
                        0 <= np,
                ;
            }
            let mut j: usize = 0;
            while j < w.picks.len()
                invariant
                    j <= np,
                    *w == weeks@[i as int],
                    *m == w.matches@[k as int],
                    np == w.picks@.len(),
                    us == unique_side(*m, w.picks@),
                    base + k * np + np <= total,
                    total < u32::MAX,
                    tally_within(tk, base + k * np),
                    0 <= base + k * np,
                    pool@ == after_poolers(tk, *m, w.feature, w.picks@, us, j as int).pool,
                    views_of(arena@) == after_poolers(tk, *m, w.feature, w.picks@, us, j as int).poolers,
                decreases np - j,
            {
                let p = &w.picks[j];
                let ghost prev = after_poolers(tk, *m, w.feature, w.picks@, us, j as int);
                proof {
                    lemma_after_poolers_within(tk, *m, w.feature, w.picks@, us, j as int, base + k * np);
                    assert forall|q: int| 0 <= q < arena@.len() implies stats_within(#[trigger] arena@[q]@, u32::MAX - 1) by {
                        assert(views_of(arena@)[q] == arena@[q]@);
                        assert(stats_within(prev.poolers[q], base + k * np + j));
                    }
                }
                let d = delta_for(m, &w.feature, p, us);
                bump_stats(&mut arena, p.poolerid, &p.name, d);
                pool.ou_count = inc(pool.ou_count, d.ou);
                pool.ou_hits = inc(pool.ou_hits, d.ou_hit);
                j += 1;
            }
            proof {
                lemma_after_poolers_within(tk, *m, w.feature, w.picks@, us, np, base + k * np);
            }
            check_unanimous(&mut pool, m, &w.picks);
            check_unique(&mut pool, m, us);
            k += 1;
        }
        i += 1;
    }
    SeasonStats { pool, poolers: arena }
}

} // verus!
