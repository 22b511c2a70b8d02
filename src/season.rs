//! Season standings: each pooler's weekly scores, in week order, and their
//! total, highest total first.

use vstd::prelude::*;
use crate::model::{Match, WeekPicks, WeekFeature};
use crate::scoring::{result_for, score_pooler, MAX_PICK_POINTS};
use crate::ranking::{Ranked, ranked, views, rank_desc, lemma_ranked_members};

verus! {

/// Everything needed to score one week of a season.
pub struct SeasonWeek {
    pub week: i64,
    pub matches: Vec<Match>,
    pub feature: Option<WeekFeature>,
    pub picks: Vec<WeekPicks>,
}

/// One pooler's line in the season standings.
pub struct SeasonEntry {
    pub poolerid: i64,
    pub name: String,
    /// The pooler's score of each week, in week order.
    pub scores: Vec<u32>,
    pub total: u64,
}

pub struct SeasonEntryView {
    pub poolerid: i64,
    pub name: Seq<char>,
    pub scores: Seq<u32>,
    pub total: int,
}

impl View for SeasonEntry {
    type V = SeasonEntryView;

    open spec fn view(&self) -> SeasonEntryView {
        SeasonEntryView {
            poolerid: self.poolerid,
            name: self.name@,
            scores: self.scores@,
            total: self.total as int,
        }
    }
}

impl Ranked for SeasonEntry {
    open spec fn rank_of(v: SeasonEntryView) -> int {
        v.total
    }

    fn rank_key(&self) -> (r: u64) {
        self.total
    }
}

/// A weekly score of one pooler: (pooler id, name, score).
pub type ScoreRow = (i64, Seq<char>, u32);

/// Sum of a sequence of scores.
pub open spec fn sum_scores(s: Seq<u32>) -> int
    decreases s.len(),
{
    if s.len() == 0 {
        0
    } else {
        sum_scores(s.drop_last()) + s.last()
    }
}

/// `k` is the first entry of pooler `id` in `es`.
pub open spec fn first_entry(es: Seq<SeasonEntryView>, id: i64, k: int) -> bool {
    0 <= k < es.len() && es[k].poolerid == id && forall|j: int|
        0 <= j < k ==> #[trigger] es[j].poolerid != id
}

/// Adds one weekly score: to the pooler's entry, or as a new last entry.
pub open spec fn add_row(es: Seq<SeasonEntryView>, row: ScoreRow) -> Seq<SeasonEntryView> {
    if exists|k: int| first_entry(es, row.0, k) {
        let k = choose|k: int| first_entry(es, row.0, k);
        es.update(
            k,
            SeasonEntryView {
                poolerid: es[k].poolerid,
                name: es[k].name,
                scores: es[k].scores.push(row.2),
                total: es[k].total + row.2,
            },
        )
    } else {
        es.push(SeasonEntryView { poolerid: row.0, name: row.1, scores: seq![row.2], total: row.2 as int })
    }
}

/// The entries made by adding `rows` in order, one per pooler, in the order
/// in which poolers first appear.
pub open spec fn tally(rows: Seq<ScoreRow>) -> Seq<SeasonEntryView>
    decreases rows.len(),
{
    if rows.len() == 0 {
        Seq::empty()
    } else {
        add_row(tally(rows.drop_last()), rows.last())
    }
}

/// The weekly score of each record of week `w`, scored at time `now`.
pub open spec fn week_rows(w: SeasonWeek, now: i64) -> Seq<ScoreRow> {
    w.picks@.map_values(
        |p: WeekPicks|
            {
                let r = result_for(w.week, w.matches@, w.picks@, w.feature, now, p);
                (r.poolerid, r.name, r.score)
            },
    )
}

/// The weekly scores of a season, week after week.
pub open spec fn season_rows(weeks: Seq<SeasonWeek>, now: i64) -> Seq<ScoreRow>
    decreases weeks.len(),
{
    if weeks.len() == 0 {
        Seq::empty()
    } else {
        season_rows(weeks.drop_last(), now) + week_rows(weeks.last(), now)
    }
}

/// Number of pooler records over all weeks.
pub open spec fn record_count(weeks: Seq<SeasonWeek>) -> int
    decreases weeks.len(),
{
    if weeks.len() == 0 {
        0
    } else {
        record_count(weeks.drop_last()) + weeks.last().picks@.len()
    }
}

/// Every week of `weeks` can be scored without overflow.
pub open spec fn weeks_scorable(weeks: Seq<SeasonWeek>) -> bool {
    forall|i: int| 0 <= i < weeks.len() ==> #[trigger] weeks[i].matches@.len() * MAX_PICK_POINTS <= u32::MAX
}

proof fn lemma_season_rows_len(weeks: Seq<SeasonWeek>, now: i64)
    ensures
        season_rows(weeks, now).len() == record_count(weeks),
    decreases weeks.len(),
{
    if weeks.len() > 0 {
        lemma_season_rows_len(weeks.drop_last(), now);
    }
}

proof fn lemma_record_count_prefix(weeks: Seq<SeasonWeek>, i: int)
    requires
        0 <= i <= weeks.len(),
    ensures
        record_count(weeks.subrange(0, i)) <= record_count(weeks),
    decreases weeks.len() - i,
{
    if i < weeks.len() {
        lemma_record_count_prefix(weeks, i + 1);
        assert(weeks.subrange(0, i + 1).drop_last() =~= weeks.subrange(0, i));
    } else {
        assert(weeks.subrange(0, i) =~= weeks);
    }
}

proof fn lemma_sum_bound(s: Seq<u32>)
    ensures
        0 <= sum_scores(s) <= s.len() * (u32::MAX as int),
    decreases s.len(),
{
    if s.len() > 0 {
        lemma_sum_bound(s.drop_last());
        assert(sum_scores(s) <= s.len() * (u32::MAX as int)) by (nonlinear_arith)
            requires
                sum_scores(s) == sum_scores(s.drop_last()) + s.last(),
                sum_scores(s.drop_last()) <= (s.len() - 1) * (u32::MAX as int),
                s.last() <= u32::MAX,
        ;
    }
}

/// Each entry of a tally holds the sum of its scores as its total, and no
/// more scores than there were rows.
pub proof fn lemma_tally_totals(rows: Seq<ScoreRow>)
    ensures
        forall|k: int|
            0 <= k < tally(rows).len() ==> (#[trigger] tally(rows)[k]).total == sum_scores(
                tally(rows)[k].scores,
            ) && tally(rows)[k].scores.len() <= rows.len(),
    decreases rows.len(),
{
    if rows.len() > 0 {
        let prev = rows.drop_last();
        let row = rows.last();
        lemma_tally_totals(prev);
        let es = tally(prev);
        if exists|k: int| first_entry(es, row.0, k) {
            let k = choose|k: int| first_entry(es, row.0, k);
            assert(es[k].scores.push(row.2).drop_last() =~= es[k].scores);
            assert forall|j: int| 0 <= j < tally(rows).len() implies (#[trigger] tally(
                rows,
            )[j]).total == sum_scores(tally(rows)[j].scores) && tally(rows)[j].scores.len()
                <= rows.len() by {
                if j != k {
                    assert(tally(rows)[j] == es[j]);
                }
            }
        } else {
            assert(seq![row.2].drop_last() =~= Seq::<u32>::empty());
            assert(sum_scores(Seq::<u32>::empty()) == 0);
            assert forall|j: int| 0 <= j < tally(rows).len() implies (#[trigger] tally(
                rows,
            )[j]).total == sum_scores(tally(rows)[j].scores) && tally(rows)[j].scores.len()
                <= rows.len() by {
                if j < es.len() {
                    assert(tally(rows)[j] == es[j]);
                }
            }
        }
    }
}

/// In the season standings, every pooler's total is the sum of their weekly
/// scores.
pub proof fn lemma_season_totals(weeks: Seq<SeasonWeek>, now: i64)
    ensures
        forall|k: int|
            0 <= k < ranked::<SeasonEntry>(tally(season_rows(weeks, now))).len() ==> (
            #[trigger] ranked::<SeasonEntry>(tally(season_rows(weeks, now)))[k]).total == sum_scores(
                ranked::<SeasonEntry>(tally(season_rows(weeks, now)))[k].scores,
            ),
{
    let all = tally(season_rows(weeks, now));
    lemma_tally_totals(season_rows(weeks, now));
    lemma_ranked_members::<SeasonEntry>(all);
    assert forall|k: int| 0 <= k < ranked::<SeasonEntry>(all).len() implies (
    #[trigger] ranked::<SeasonEntry>(all)[k]).total == sum_scores(ranked::<SeasonEntry>(all)[k].scores) by {
        let e = ranked::<SeasonEntry>(all)[k];
        assert(all.contains(e));
        let j = choose|j: int| 0 <= j < all.len() && all[j] == e;
        assert(all[j].total == sum_scores(all[j].scores));
    }
}

/// Adds `score` to pooler `poolerid`'s entry, or appends a new entry for it.
pub fn add_score(entries: &mut Vec<SeasonEntry>, poolerid: i64, name: String, score: u32)
    requires
        forall|k: int| 0 <= k < old(entries)@.len() ==> #[trigger] old(entries)@[k].total <= u64::MAX - u32::MAX,
    ensures
        views(final(entries)@) == add_row(views(old(entries)@), (poolerid, name@, score)),
{
    let ghost es = views(entries@);
    let mut k: usize = 0;
    while k < entries.len()
        invariant
            k <= entries@.len(),
            entries@ == old(entries)@,
            es == views(old(entries)@),
            forall|j: int| 0 <= j < entries@.len() ==> #[trigger] entries@[j].total <= u64::MAX - u32::MAX,
            forall|j: int| 0 <= j < k ==> #[trigger] es[j].poolerid != poolerid,
        decreases entries@.len() - k,
    {
        if entries[k].poolerid == poolerid {
            assert(first_entry(es, poolerid, k as int));
            let mut e = entries.remove(k);
            e.scores.push(score);
            e.total = e.total + score as u64;
            entries.insert(k, e);
            proof {
                let c = choose|c: int| first_entry(es, poolerid, c);
                assert(c == k) by {
                    if c < k {
                        assert(es[c].poolerid != poolerid);
                    }
                    if c > k {
                        assert(es[k as int].poolerid != poolerid);
                    }
                }
                assert(views(entries@) =~= add_row(es, (poolerid, name@, score)));
            }
            return;
        }
        k += 1;
    }
    let mut scores: Vec<u32> = Vec::new();
    scores.push(score);
    entries.push(SeasonEntry { poolerid, name, scores, total: score as u64 });
    proof {
        assert(!exists|c: int| first_entry(es, poolerid, c));
        assert(views(entries@) =~= add_row(es, (poolerid, name@, score)));
    }
}

/// The season standings at time `now` (seconds since the Unix epoch): for
/// each pooler, in order of first appearance, the score of each of their
/// weekly records (the stored score, else the computed one) and the total;
/// then ordered by total, highest first, equal totals in that order.
pub fn season_standings(weeks: &Vec<SeasonWeek>, now: i64) -> (r: Vec<SeasonEntry>)
    requires
        weeks_scorable(weeks@),
        record_count(weeks@) < u32::MAX,
    ensures
        views(r@) == ranked::<SeasonEntry>(tally(season_rows(weeks@, now))),
        forall|k: int| 0 <= k < r@.len() ==> (#[trigger] r@[k]).total == sum_scores(r@[k].scores@),
{
    let mut entries: Vec<SeasonEntry> = Vec::new();
    let mut i: usize = 0;
    while i < weeks.len()
        invariant
            i <= weeks@.len(),
            weeks_scorable(weeks@),
            record_count(weeks@) < u32::MAX,
            views(entries@) == tally(season_rows(weeks@.subrange(0, i as int), now)),
        decreases weeks@.len() - i,
    {
        let w = &weeks[i];
        let ghost done = season_rows(weeks@.subrange(0, i as int), now);
        let ghost rows = week_rows(*w, now);
        proof {
            lemma_record_count_prefix(weeks@, i + 1);
            lemma_season_rows_len(weeks@.subrange(0, i as int), now);
            assert(weeks@.subrange(0, i + 1).drop_last() =~= weeks@.subrange(0, i as int));
            assert(done + rows.subrange(0, 0) =~= done);
        }
        let mut j: usize = 0;
        while j < w.picks.len()
            invariant
                j <= w.picks@.len(),
                *w == weeks@[i as int],
                w.matches@.len() * MAX_PICK_POINTS <= u32::MAX,
                rows == week_rows(*w, now),
                done.len() + rows.len() < u32::MAX,
                views(entries@) == tally(done + rows.subrange(0, j as int)),
            decreases w.picks@.len() - j,
        {
            let res = score_pooler(&w.week, &w.matches, &w.picks, &w.feature, now, &w.picks[j]);
            let ghost sofar = done + rows.subrange(0, j as int);
            proof {
                lemma_tally_totals(sofar);
                assert forall|k: int| 0 <= k < entries@.len() implies #[trigger] entries@[k].total
                    <= u64::MAX - u32::MAX by {
                    let e = tally(sofar)[k];
                    assert(e == views(entries@)[k]);
                    lemma_sum_bound(e.scores);
                    assert(e.scores.len() * (u32::MAX as int) <= u64::MAX - u32::MAX)
                        by (nonlinear_arith)
                        requires
                            e.scores.len() <= sofar.len(),
                            sofar.len() < u32::MAX,
                    ;
                }
            }
            add_score(&mut entries, res.poolerid, res.name, res.score);
            proof {
                let next = done + rows.subrange(0, j + 1);
                assert(next.drop_last() =~= sofar);
                assert(next.last() == rows[j as int]);
            }
            j += 1;
        }
        proof {
            assert(rows.subrange(0, rows.len() as int) =~= rows);
            assert(season_rows(weeks@.subrange(0, i + 1), now) == done + rows);
        }
        i += 1;
    }
    assert(weeks@.subrange(0, weeks@.len() as int) =~= weeks@);
    let r = rank_desc(entries);
    proof {
        lemma_season_totals(weeks@, now);
        assert forall|k: int| 0 <= k < r@.len() implies (#[trigger] r@[k]).total == sum_scores(
            r@[k].scores@,
        ) by {
            assert(views(r@)[k] == r@[k]@);
        }
    }
    r
}


/// One week of stored records: (week, feature match id, records).
pub type WeekGroup = (i64, String, Vec<WeekPicks>);

/// The view of a week group.
pub open spec fn group_view(g: WeekGroup) -> (i64, Seq<char>, Seq<WeekPicks>) {
    (g.0, g.1@, g.2@)
}

pub open spec fn group_views(gs: Seq<WeekGroup>) -> Seq<(i64, Seq<char>, Seq<WeekPicks>)> {
    gs.map_values(|g: WeekGroup| group_view(g))
}

/// The feature match id of week `week`, from the ids listed by week starting
/// at week 1; empty when the list has none for that week.
pub open spec fn feature_id_for(feat_ids: Seq<String>, week: i64) -> Seq<char> {
    if 1 <= week <= feat_ids.len() {
        feat_ids[week - 1]@
    } else {
        Seq::empty()
    }
}

/// `k` is the first group of week `week` in `gs`.
pub open spec fn first_group(gs: Seq<(i64, Seq<char>, Seq<WeekPicks>)>, week: i64, k: int) -> bool {
    0 <= k < gs.len() && gs[k].0 == week && forall|j: int| 0 <= j < k ==> #[trigger] gs[j].0 != week
}

/// Adds record `p` to the group of its week, or to a new last group.
pub open spec fn add_to_group(
    gs: Seq<(i64, Seq<char>, Seq<WeekPicks>)>,
    feat_ids: Seq<String>,
    p: WeekPicks,
) -> Seq<(i64, Seq<char>, Seq<WeekPicks>)> {
    if exists|k: int| first_group(gs, p.week, k) {
        let k = choose|k: int| first_group(gs, p.week, k);
        gs.update(k, (gs[k].0, gs[k].1, gs[k].2.push(p)))
    } else {
        gs.push((p.week, feature_id_for(feat_ids, p.week), seq![p]))
    }
}

/// The records of `rows` grouped by week, groups in order of first
/// appearance, records in the order given.
pub open spec fn group_rows(rows: Seq<WeekPicks>, feat_ids: Seq<String>) -> Seq<
    (i64, Seq<char>, Seq<WeekPicks>),
>
    decreases rows.len(),
{
    if rows.len() == 0 {
        Seq::empty()
    } else {
        add_to_group(group_rows(rows.drop_last(), feat_ids), feat_ids, rows.last())
    }
}

/// Adds record `p` to the group of its week, or to a new last group.
pub fn add_to_week(groups: &mut Vec<WeekGroup>, feat_ids: &Vec<String>, p: WeekPicks)
    ensures
        group_views(final(groups)@) == add_to_group(group_views(old(groups)@), feat_ids@, p),
{
    let ghost gs = group_views(groups@);
    let mut k: usize = 0;
    while k < groups.len()
        invariant
            k <= groups@.len(),
            groups@ == old(groups)@,
            gs == group_views(old(groups)@),
            forall|j: int| 0 <= j < k ==> #[trigger] gs[j].0 != p.week,
        decreases groups@.len() - k,
    {
        if groups[k].0 == p.week {
            assert(first_group(gs, p.week, k as int));
            let (week, feature, mut records) = groups.remove(k);
            records.push(p);
            groups.insert(k, (week, feature, records));
            proof {
                let c = choose|c: int| first_group(gs, p.week, c);
                assert(c == k) by {
                    if c < k {
                        assert(gs[c].0 != p.week);
                    }
                    if c > k {
                        assert(gs[k as int].0 != p.week);
                    }
                }
                assert(group_views(groups@) =~= add_to_group(gs, feat_ids@, p));
            }
            return;
        }
        k += 1;
    }
    let feature = if p.week >= 1 && ((p.week - 1) as u64) < (feat_ids.len() as u64) {
        feat_ids[(p.week - 1) as usize].clone()
    } else {
        String::new()
    };
    let week = p.week;
    let mut records: Vec<WeekPicks> = Vec::new();
    records.push(p);
    groups.push((week, feature, records));
    proof {
        assert(!exists|c: int| first_group(gs, week, c));
        assert(group_views(groups@) =~= add_to_group(gs, feat_ids@, p));
    }
}

/// Groups a season's records (ordered by week) into weeks, each with its
/// feature match id taken from `feat_ids` (listed by week, starting at week 1).
pub fn group_season(rows: Vec<WeekPicks>, feat_ids: &Vec<String>) -> (r: Vec<WeekGroup>)
    ensures
        group_views(r@) == group_rows(rows@, feat_ids@),
{
    let ghost all = rows@;
    let ghost n = all.len() as int;
    let mut rest = rows;
    let mut reversed: Vec<WeekPicks> = Vec::new();
    while rest.len() > 0
        invariant
            n == all.len(),
            rest@.len() <= n,
            rest@ == all.subrange(0, rest@.len() as int),
            reversed@.len() == n - rest@.len(),
            forall|q: int| 0 <= q < reversed@.len() ==> #[trigger] reversed@[q] == all[n - 1 - q],
        decreases rest@.len(),
    {
        let ghost len = rest@.len() as int;
        let ghost before = rest@;
        let p = rest.pop().unwrap();
        assert(p == all[len - 1]) by {
            assert(before[len - 1] == all.subrange(0, len)[len - 1]);
        }
        assert(rest@ =~= all.subrange(0, len - 1));
        reversed.push(p);
    }
    let mut groups: Vec<WeekGroup> = Vec::new();
    assert(all.subrange(0, 0) =~= Seq::<WeekPicks>::empty());
    assert(group_views(groups@) =~= Seq::empty());
    while reversed.len() > 0
        invariant
            reversed@.len() <= n,
            n == all.len(),
            forall|q: int| 0 <= q < reversed@.len() ==> #[trigger] reversed@[q] == all[n - 1 - q],
            group_views(groups@) == group_rows(all.subrange(0, n - reversed@.len()), feat_ids@),
        decreases reversed@.len(),
    {
        let ghost done = n - reversed@.len();
        let ghost before = reversed@;
        let p = reversed.pop().unwrap();
        assert(p == all[done]) by {
            assert(before[before.len() - 1] == all[n - 1 - (before.len() - 1)]);
        }
        add_to_week(&mut groups, feat_ids, p);
        assert(all.subrange(0, done + 1).drop_last() =~= all.subrange(0, done));
    }
    assert(all.subrange(0, n) =~= all);
    groups
}

} // verus!
