use pickem::model::{Match, WeekFeature, WeekPicks, OVER_PICK};
use pickem::season::{group_season, season_standings, SeasonWeek};
use pickem::stats::{pool_statistics, rate_hundredths};

const NOW: i64 = 1_700_000_000;
const LONG_AGO: i64 = NOW - 30 * 24 * 3600;

fn game(id: &str, away: &str, home: &str, scores: Option<(u64, u64)>) -> Match {
    Match {
        id_event: id.to_string(),
        away_team: away.to_string(),
        home_team: home.to_string(),
        away_score: scores.map(|s| s.0),
        home_score: scores.map(|s| s.1),
        date: LONG_AGO,
    }
}

fn record(id: i64, name: &str, week: i64, picks: &[(&str, &str)]) -> WeekPicks {
    WeekPicks {
        pickid: Some(10 * week + id),
        poolerid: id,
        name: name.to_string(),
        week,
        picks: Some(picks.iter().map(|(m, t)| (m.to_string(), t.to_string())).collect()),
        featpick: None,
        cached: None,
        featcached: None,
    }
}

fn season() -> Vec<SeasonWeek> {
    let mut cached = record(2, "Bob", 2, &[("w2", "SF")]);
    cached.cached = Some(9);
    vec![
        SeasonWeek {
            week: 1,
            matches: vec![game("w1", "KC", "DET", Some((24, 17)))],
            feature: None,
            picks: vec![record(1, "Ann", 1, &[("w1", "KC")]), record(2, "Bob", 1, &[("w1", "DET")])],
        },
        SeasonWeek {
            week: 2,
            matches: vec![game("w2", "SF", "SEA", Some((10, 13)))],
            feature: None,
            picks: vec![record(1, "Ann", 2, &[("w2", "SEA")]), cached, record(3, "Cal", 2, &[])],
        },
    ]
}

#[test]
fn season_totals_are_sums() {
    let standings = season_standings(&season(), NOW);
    assert_eq!(standings.len(), 3);
    for e in &standings {
        assert_eq!(e.total, e.scores.iter().map(|s| *s as u64).sum::<u64>());
    }
    assert_eq!(standings[0].poolerid, 2);
    assert_eq!(standings[0].scores, vec![0, 9]);
    assert_eq!(standings[0].total, 9);
    assert_eq!(standings[1].poolerid, 1);
    assert_eq!(standings[1].scores, vec![4, 4]);
    assert_eq!(standings[1].total, 8);
    assert_eq!(standings[2].name, "Cal");
    assert_eq!(standings[2].scores, vec![0]);
}

#[test]
fn season_empty() {
    assert!(season_standings(&vec![], NOW).is_empty());
}

#[test]
fn group_records_by_week() {
    let rows = vec![
        record(1, "Ann", 1, &[]),
        record(2, "Bob", 1, &[]),
        record(1, "Ann", 2, &[]),
        record(1, "Ann", 5, &[]),
        record(2, "Bob", 2, &[]),
    ];
    let feats = vec!["f1".to_string(), "f2".to_string()];
    let groups = group_season(rows, &feats);
    assert_eq!(groups.len(), 3);
    assert_eq!(groups[0].0, 1);
    assert_eq!(groups[0].1, "f1");
    assert_eq!(groups[0].2.len(), 2);
    assert_eq!(groups[1].0, 2);
    assert_eq!(groups[1].1, "f2");
    assert_eq!(groups[1].2[1].name, "Bob");
    assert_eq!(groups[2].0, 5);
    assert_eq!(groups[2].1, "");
}

#[test]
fn unanimous_winning_pick() {
    let weeks = vec![SeasonWeek {
        week: 1,
        matches: vec![game("m", "KC", "DET", Some((24, 17)))],
        feature: None,
        picks: vec![record(1, "Ann", 1, &[("m", "KC")]), record(2, "Bob", 1, &[("m", "KC")])],
    }];
    let stats = pool_statistics(&weeks);
    assert_eq!(stats.pool.uni_count, 1);
    assert_eq!(stats.pool.uni_hits, 1);
    assert_eq!(stats.pool.unique_count, 0);
    assert_eq!(stats.pool.unique_hits, 0);
    for p in &stats.poolers {
        assert_eq!(p.unique_count, 0);
        assert_eq!(p.pick_count, 1);
        assert_eq!(p.hit_count, 1);
    }
}

#[test]
fn unique_pick_statistics() {
    let feat = WeekFeature { season: 2023, week: 1, feattype: 0, target: 45, matchid: "m".to_string() };
    let mut ann = record(1, "Ann", 1, &[("m", "KC")]);
    ann.featpick = Some(OVER_PICK);
    let weeks = vec![SeasonWeek {
        week: 1,
        matches: vec![game("m", "KC", "DET", Some((30, 17))), game("n", "SF", "SEA", Some((3, 7)))],
        feature: Some(feat),
        picks: vec![
            ann,
            record(2, "Bob", 1, &[("m", "DET"), ("n", "SEA")]),
            record(3, "Cal", 1, &[("m", "DET"), ("n", "SEA")]),
        ],
    }];
    let stats = pool_statistics(&weeks);
    assert_eq!(stats.pool.uni_count, 0);
    assert_eq!(stats.pool.unique_count, 1);
    assert_eq!(stats.pool.unique_hits, 1);
    assert_eq!(stats.pool.ou_count, 1);
    assert_eq!(stats.pool.ou_hits, 1);
    let ann = &stats.poolers[0];
    assert_eq!(ann.name, "Ann");
    assert_eq!((ann.pick_count, ann.hit_count), (2, 1));
    assert_eq!((ann.unique_count, ann.unique_hits), (1, 1));
    assert_eq!((ann.ou_count, ann.ou_hits), (1, 1));
    let bob = &stats.poolers[1];
    assert_eq!((bob.pick_count, bob.hit_count), (2, 1));
    assert_eq!(bob.unique_count, 0);
    assert_eq!(bob.ou_count, 0);
}

#[test]
fn statistics_of_empty_season() {
    let stats = pool_statistics(&vec![]);
    assert_eq!(stats.pool.uni_count, 0);
    assert_eq!(stats.pool.ou_count, 0);
    assert!(stats.poolers.is_empty());
}

#[test]
fn success_rates() {
    assert_eq!(rate_hundredths(1, 3), Some(3333));
    assert_eq!(rate_hundredths(5, 5), Some(10000));
    assert_eq!(rate_hundredths(0, 4), Some(0));
    assert_eq!(rate_hundredths(0, 0), None);
}
