//! What the library needs from the outside data: the schedule feed's week
//! numbering, a team's season schedule by week, the latest week of picks,
//! the state of a pick record, and the decoding and checking of stored picks.

use vstd::prelude::*;
use crate::model::{Match, PicksStatus};

verus! {

/// Number of regular-season weeks.
pub const REGULAR_WEEKS: usize = 18;

/// The feed's (week, week parameter) of a week number: playoff weeks 19 to
/// 22 become 160, 125, 150 and 200, asked for as weeks 1, 2, 3 and 5.
pub open spec fn feed_week(week: i64) -> (i64, i64) {
    if week == 19 {
        (160, 1)
    } else if week == 20 {
        (125, 2)
    } else if week == 21 {
        (150, 3)
    } else if week == 22 {
        (200, 5)
    } else {
        (week, week)
    }
}

/// The feed's season type of one of its week numbers: 2 for the regular
/// season, 3 for the playoffs.
pub open spec fn season_type_of(feed: i64) -> i64 {
    if feed < 100 {
        2
    } else {
        3
    }
}

/// The (season type, week) to ask the schedule feed for, for week `week`.
pub fn schedule_query(week: i64) -> (r: (i64, i64))
    ensures
        r == (season_type_of(feed_week(week).0), feed_week(week).1),
{
    let (w, sw): (i64, i64) = if week == 19 {
        (160, 1)
    } else if week == 20 {
        (125, 2)
    } else if week == 21 {
        (150, 3)
    } else if week == 22 {
        (200, 5)
    } else {
        (week, week)
    };
    let stype: i64 = if w < 100 {
        2
    } else {
        3
    };
    (stype, sw)
}

/// A copy of `m`.
pub fn copy_match(m: &Match) -> (r: Match)
    ensures
        r == *m,
{
    Match {
        id_event: m.id_event.clone(),
        away_team: m.away_team.clone(),
        home_team: m.home_team.clone(),
        away_score: m.away_score,
        home_score: m.home_score,
        date: m.date,
    }
}

/// The match of the last event of `events` numbered `week`, if any.
pub open spec fn last_of_week(events: Seq<(i64, Match)>, week: int) -> Option<Match>
    decreases events.len(),
{
    if events.len() == 0 {
        None
    } else if events.last().0 == week {
        Some(events.last().1)
    } else {
        last_of_week(events.drop_last(), week)
    }
}

/// A team's regular season by week: slot `k` holds the match of week `k + 1`
/// (the last one given for that week), or nothing in a bye week. Events
/// numbered outside the regular season are left out.
pub fn schedule_slots(events: &Vec<(i64, Match)>) -> (r: Vec<Option<Match>>)
    ensures
        r@.len() == REGULAR_WEEKS,
        forall|k: int| 0 <= k < REGULAR_WEEKS ==> #[trigger] r@[k] == last_of_week(events@, k + 1),
{
    let mut slots: Vec<Option<Match>> = Vec::new();
    while slots.len() < REGULAR_WEEKS
        invariant
            slots@.len() <= REGULAR_WEEKS,
            forall|k: int| 0 <= k < slots@.len() ==> #[trigger] slots@[k] == None::<Match>,
        decreases REGULAR_WEEKS - slots@.len(),
    {
        slots.push(None);
    }
    let mut i: usize = 0;
    while i < events.len()
        invariant
            i <= events@.len(),
            slots@.len() == REGULAR_WEEKS,
            forall|k: int|
                0 <= k < REGULAR_WEEKS ==> #[trigger] slots@[k] == last_of_week(
                    events@.subrange(0, i as int),
                    k + 1,
                ),
        decreases events@.len() - i,
    {
        let week = events[i].0;
        let ghost next = events@.subrange(0, i + 1);
        assert(next.drop_last() =~= events@.subrange(0, i as int));
        if 1 <= week && week <= REGULAR_WEEKS as i64 {
            let m = copy_match(&events[i].1);
            slots.set((week - 1) as usize, Some(m));
        }
        i += 1;
    }
    assert(events@.subrange(0, i as int) =~= events@);
    slots
}

/// The larger of 0 and the week numbers of `weeks`.
pub open spec fn max_week(weeks: Seq<i64>) -> i64
    decreases weeks.len(),
{
    if weeks.len() == 0 {
        0
    } else if weeks.last() > max_week(weeks.drop_last()) {
        weeks.last()
    } else {
        max_week(weeks.drop_last())
    }
}

/// The latest week in which the pool has picks, from each pooler's latest
/// week; 0 when there is none.
pub fn latest_week(weeks: &Vec<i64>) -> (r: i64)
    ensures
        r == max_week(weeks@),
{
    let mut best: i64 = 0;
    let mut i: usize = 0;
    while i < weeks.len()
        invariant
            i <= weeks@.len(),
            best == max_week(weeks@.subrange(0, i as int)),
        decreases weeks@.len() - i,
    {
        assert(weeks@.subrange(0, i + 1).drop_last() =~= weeks@.subrange(0, i as int));
        if weeks[i] > best {
            best = weeks[i];
        }
        i += 1;
    }
    assert(weeks@.subrange(0, i as int) =~= weeks@);
    best
}

/// The state of an existing pick record `id`: filled when it holds picks,
/// primed otherwise.
pub fn picks_status(id: i64, pickstring: Option<String>, featpick: Option<u32>) -> (r: PicksStatus)
    ensures
        match pickstring {
            Some(s) => r == PicksStatus::Filled(s, featpick),
            None => r == PicksStatus::Primed(id),
        },
{
    match pickstring {
        Some(s) => PicksStatus::Filled(s, featpick),
        None => PicksStatus::Primed(id),
    }
}

/// `e` names a match of `matches` and one of that match's two teams.
pub open spec fn valid_pick(matches: Seq<Match>, e: (String, String)) -> bool {
    exists|k: int|
        0 <= k < matches.len() && #[trigger] matches[k].id_event@ == e.0@ && (e.1@ == matches[k].away_team@
            || e.1@ == matches[k].home_team@)
}

/// The views of pick pairs.
pub open spec fn pair_views(s: Seq<(String, String)>) -> Seq<(Seq<char>, Seq<char>)> {
    s.map_values(|e: (String, String)| (e.0@, e.1@))
}

/// Whether `e` names a match of `matches` and one of its two teams.
pub fn check_pick(matches: &Vec<Match>, e: &(String, String)) -> (r: bool)
    ensures
        r == valid_pick(matches@, *e),
{
    let mut k: usize = 0;
    while k < matches.len()
        invariant
            k <= matches@.len(),
            forall|j: int|
                0 <= j < k ==> !(#[trigger] matches@[j].id_event@ == e.0@ && (e.1@
                    == matches@[j].away_team@ || e.1@ == matches@[j].home_team@)),
        decreases matches@.len() - k,
    {
        let m = &matches[k];
        if m.id_event == e.0 && (e.1 == m.away_team || e.1 == m.home_team) {
            assert(matches@[k as int].id_event@ == e.0@);
            return true;
        }
        k += 1;
    }
    false
}

/// Splits decoded picks into those that name a match of the week and one of
/// its teams, kept for scoring, and the others, to be reported; both in the
/// order given.
pub fn split_picks(entries: &Vec<(String, String)>, matches: &Vec<Match>) -> (r: (
    Vec<(String, String)>,
    Vec<(String, String)>,
))
    ensures
        r.0@ == entries@.filter(|e: (String, String)| valid_pick(matches@, e)),
        r.1@ == entries@.filter(|e: (String, String)| !valid_pick(matches@, e)),
{
    let mut kept: Vec<(String, String)> = Vec::new();
    let mut rejected: Vec<(String, String)> = Vec::new();
    let mut i: usize = 0;
    while i < entries.len()
        invariant
            i <= entries@.len(),
            kept@ == entries@.subrange(0, i as int).filter(|e: (String, String)| valid_pick(matches@, e)),
            rejected@ == entries@.subrange(0, i as int).filter(
                |e: (String, String)| !valid_pick(matches@, e),
            ),
        decreases entries@.len() - i,
    {
        let e = (entries[i].0.clone(), entries[i].1.clone());
        assert(e == entries@[i as int]);
        let ghost next = entries@.subrange(0, i + 1);
        assert(next.drop_last() =~= entries@.subrange(0, i as int));
        reveal(Seq::filter);
        if check_pick(matches, &e) {
            kept.push(e);
        } else {
            rejected.push(e);
        }
        i += 1;
    }
    assert(entries@.subrange(0, i as int) =~= entries@);
    (kept, rejected)
}

/// What the JSON text `text` decodes to as a map from strings to strings,
/// as (key, value) pairs in key order; nothing when it is not such a map.
pub uninterp spec fn json_string_map(text: Seq<char>) -> Option<Seq<(Seq<char>, Seq<char>)>>;

/// Relies on serde_json's `from_str`, into a `BTreeMap<String, String>`: the
/// text's JSON object as (key, value) pairs, or an error when the text is not
/// a JSON object whose values are all strings.
#[verifier::external_body]
fn decode_string_map(text: &str) -> (r: Option<Vec<(String, String)>>)
    ensures
        match r {
            Some(v) => json_string_map(text@) == Some(pair_views(v@)),
            None => json_string_map(text@) is None,
        },
{
    serde_json::from_str::<std::collections::BTreeMap<String, String>>(text).ok().map(|m| m.into_iter().collect())
}

/// Stored picks decoded and checked against the week's matches.
pub struct DecodedPicks {
    /// Pairs (match id, team code) that name a match of the week and one of its teams.
    pub picks: Vec<(String, String)>,
    /// Pairs that do not, left out of scoring.
    pub rejected: Vec<(String, String)>,
}

/// Decodes the stored pick text of a record and checks it against the week's
/// matches; nothing when the text is not a JSON map of strings.
pub fn decode_picks(text: &str, matches: &Vec<Match>) -> (r: Option<DecodedPicks>)
    ensures
        match r {
            Some(d) => json_string_map(text@) is Some && exists|raw: Seq<(String, String)>|
                json_string_map(text@) == Some(pair_views(raw)) && d.picks@ == raw.filter(
                    |e: (String, String)| valid_pick(matches@, e),
                ) && d.rejected@ == raw.filter(|e: (String, String)| !valid_pick(matches@, e)),
            None => json_string_map(text@) is None,
        },
{
    match decode_string_map(text) {
        Some(entries) => {
            let (picks, rejected) = split_picks(&entries, matches);
            Some(DecodedPicks { picks, rejected })
        },
        None => None,
    }
}

} // verus!
