//! The pool's data: matches of a week, each pooler's picks, the week's
//! over/under feature, and the result of scoring one pooler.

use vstd::prelude::*;

verus! {

/// One match of a week.
pub struct Match {
    pub id_event: String,
    pub away_team: String,
    pub home_team: String,
    /// Both scores are present once the match has a score, both absent before.
    pub away_score: Option<u64>,
    pub home_score: Option<u64>,
    /// Kickoff time, in seconds since the Unix epoch (UTC).
    pub date: i64,
}

/// Feature pick code: the combined score stays at or under the target.
pub const UNDER_PICK: u32 = 0;

/// Feature pick code: the combined score goes over the target.
pub const OVER_PICK: u32 = 1;

/// One pooler's record for one week.
pub struct WeekPicks {
    /// Id of the stored pick record, absent when the pooler was never primed.
    pub pickid: Option<i64>,
    pub poolerid: i64,
    pub name: String,
    pub week: i64,
    /// Pairs (match id, chosen team code); absent when nothing was submitted.
    pub picks: Option<Vec<(String, String)>>,
    /// `UNDER_PICK` or `OVER_PICK` for the week's feature match.
    pub featpick: Option<u32>,
    /// Score stored once the week was complete.
    pub cached: Option<u32>,
    /// Feature score stored together with `cached`.
    pub featcached: Option<u32>,
}

/// The over/under bet of a week, on one designated match.
pub struct WeekFeature {
    pub season: i16,
    pub week: i64,
    pub feattype: i32,
    pub target: i32,
    pub matchid: String,
}

/// State of a pooler's pick record when picks are opened for a week.
pub enum PicksStatus {
    /// A record exists (or was just created) and holds no picks yet.
    Primed(i64),
    /// Picks were already submitted: the stored pick text and feature pick.
    Filled(String, Option<u32>),
}

/// The outcome of scoring one pooler for one week.
pub struct PickResults {
    pub pickid: Option<i64>,
    pub poolerid: i64,
    pub name: String,
    pub score: u32,
    pub featscore: u32,
    /// Whether the score may now be stored for good.
    pub cache: bool,
}

pub struct PickResultsView {
    pub pickid: Option<i64>,
    pub poolerid: i64,
    pub name: Seq<char>,
    pub score: u32,
    pub featscore: u32,
    pub cache: bool,
}

impl View for PickResults {
    type V = PickResultsView;

    open spec fn view(&self) -> PickResultsView {
        PickResultsView {
            pickid: self.pickid,
            poolerid: self.poolerid,
            name: self.name@,
            score: self.score,
            featscore: self.featscore,
            cache: self.cache,
        }
    }
}

/// The team chosen for match `id` in `entries`: the first pair with that id.
pub open spec fn lookup_pick(entries: Seq<(String, String)>, id: Seq<char>) -> Option<Seq<char>>
    decreases entries.len(),
{
    if entries.len() == 0 {
        None
    } else if entries[0].0@ == id {
        Some(entries[0].1@)
    } else {
        lookup_pick(entries.drop_first(), id)
    }
}

/// The team that pooler record `p` chose for match `id`, if any.
pub open spec fn pick_of(p: WeekPicks, id: Seq<char>) -> Option<Seq<char>> {
    match p.picks {
        Some(entries) => lookup_pick(entries@, id),
        None => None,
    }
}

/// Index of the pair for match `id` in `entries`, the first one if several.
pub fn find_pick(entries: &Vec<(String, String)>, id: &String) -> (r: Option<usize>)
    ensures
        match r {
            Some(k) => k < entries@.len() && entries@[k as int].0@ == id@ && lookup_pick(
                entries@,
                id@,
            ) == Some(entries@[k as int].1@),
            None => lookup_pick(entries@, id@) == None::<Seq<char>>,
        },
{
    let ghost n = entries@.len() as int;
    let mut i: usize = 0;
    assert(entries@.subrange(0, n) =~= entries@);
    while i < entries.len()
        invariant
            i <= n,
            n == entries@.len(),
            lookup_pick(entries@.subrange(i as int, n), id@) == lookup_pick(entries@, id@),
        decreases n - i,
    {
        let ghost rest = entries@.subrange(i as int, n);
        assert(rest[0] == entries@[i as int]);
        if entries[i].0 == *id {
            return Some(i);
        }
        assert(rest.drop_first() =~= entries@.subrange(i + 1, n));
        i += 1;
    }
    None
}

/// The team that `p` chose for match `id`, if any.
pub fn pick_for<'a>(p: &'a WeekPicks, id: &String) -> (r: Option<&'a String>)
    ensures
        match r {
            Some(t) => pick_of(*p, id@) == Some(t@),
            None => pick_of(*p, id@) == None::<Seq<char>>,
        },
{
    match &p.picks {
        Some(entries) => match find_pick(entries, id) {
            Some(k) => Some(&entries[k].1),
            None => None,
        },
        None => None,
    }
}

/// Record `p` with `score` and `featscore` stored on it.
pub open spec fn with_cache(p: WeekPicks, score: u32, featscore: u32) -> WeekPicks {
    WeekPicks { cached: Some(score), featcached: Some(featscore), ..p }
}

/// Storing the same scores twice leaves a record as storing them once.
pub proof fn lemma_cache_idempotent(p: WeekPicks, score: u32, featscore: u32)
    ensures
        with_cache(with_cache(p, score, featscore), score, featscore) == with_cache(p, score, featscore),
{
}

impl WeekPicks {
    /// Stores a final score and feature score on this record.
    pub fn record_cache(&mut self, score: u32, featscore: u32)
        ensures
            *final(self) == with_cache(*old(self), score, featscore),
    {
        self.cached = Some(score);
        self.featcached = Some(featscore);
    }
}

} // verus!
