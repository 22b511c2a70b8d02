use pickem::model::{Match, WeekFeature, WeekPicks, OVER_PICK, UNDER_PICK};
use pickem::scoring::{
    calc_results, calc_results_at, calc_results_internal, classify, feature_points, get_score,
    is_unique, week_complete, week_tier, MatchOutcome, WeekTier,
};

const NOW: i64 = 1_700_000_000;
const LONG_AGO: i64 = NOW - 7 * 24 * 3600;

fn game(id: &str, away: &str, home: &str, scores: Option<(u64, u64)>, date: i64) -> Match {
    Match {
        id_event: id.to_string(),
        away_team: away.to_string(),
        home_team: home.to_string(),
        away_score: scores.map(|s| s.0),
        home_score: scores.map(|s| s.1),
        date,
    }
}

fn pooler(id: i64, name: &str, picks: &[(&str, &str)]) -> WeekPicks {
    WeekPicks {
        pickid: Some(100 + id),
        poolerid: id,
        name: name.to_string(),
        week: 3,
        picks: Some(picks.iter().map(|(m, t)| (m.to_string(), t.to_string())).collect()),
        featpick: None,
        cached: None,
        featcached: None,
    }
}

fn two_matches() -> Vec<Match> {
    vec![
        game("m1", "KC", "DET", Some((24, 17)), LONG_AGO),
        game("m2", "BUF", "NYJ", Some((10, 20)), LONG_AGO),
    ]
}

fn score_of(results: &[pickem::model::PickResults], id: i64) -> u32 {
    results.iter().find(|r| r.poolerid == id).unwrap().score
}

#[test]
fn regular_season_points_table() {
    let week = 5;
    assert_eq!(get_score(&MatchOutcome::Win, true, &week), 4);
    assert_eq!(get_score(&MatchOutcome::Win, false, &week), 2);
    assert_eq!(get_score(&MatchOutcome::Tied, true, &week), 1);
    assert_eq!(get_score(&MatchOutcome::Tied, false, &week), 1);
    assert_eq!(get_score(&MatchOutcome::Loss, true, &week), 0);
    assert_eq!(get_score(&MatchOutcome::NotPlayed, true, &week), 0);
}

#[test]
fn playoff_points_table() {
    assert_eq!(get_score(&MatchOutcome::Win, false, &19), 4);
    assert_eq!(get_score(&MatchOutcome::Win, true, &160), 6);
    assert_eq!(get_score(&MatchOutcome::Win, false, &125), 6);
    assert_eq!(get_score(&MatchOutcome::Win, true, &20), 8);
    assert_eq!(get_score(&MatchOutcome::Win, true, &21), 10);
    assert_eq!(get_score(&MatchOutcome::Win, false, &150), 8);
    assert_eq!(get_score(&MatchOutcome::Win, true, &22), 12);
    assert_eq!(get_score(&MatchOutcome::Win, false, &200), 10);
    assert_eq!(get_score(&MatchOutcome::Tied, true, &22), 1);
    assert_eq!(week_tier(18), WeekTier::Regular);
    assert_eq!(week_tier(19), WeekTier::Wildcard);
}

#[test]
fn classify_outcomes() {
    let m = game("m1", "KC", "DET", Some((24, 17)), LONG_AGO);
    assert_eq!(classify(&m, &"KC".to_string()), MatchOutcome::Win);
    assert_eq!(classify(&m, &"DET".to_string()), MatchOutcome::Loss);
    assert_eq!(classify(&m, &"XYZ".to_string()), MatchOutcome::Loss);
    let home_win = game("m2", "BUF", "NYJ", Some((10, 20)), LONG_AGO);
    assert_eq!(classify(&home_win, &"NYJ".to_string()), MatchOutcome::Win);
    let tie = game("m3", "SF", "SEA", Some((20, 20)), LONG_AGO);
    assert_eq!(classify(&tie, &"SF".to_string()), MatchOutcome::Tied);
    assert_eq!(classify(&tie, &"SEA".to_string()), MatchOutcome::Tied);
    let scoreless = game("m4", "SF", "SEA", Some((0, 0)), LONG_AGO);
    assert_eq!(classify(&scoreless, &"SF".to_string()), MatchOutcome::NotPlayed);
    let later = game("m5", "SF", "SEA", None, NOW);
    assert_eq!(classify(&later, &"SEA".to_string()), MatchOutcome::NotPlayed);
}

#[test]
fn uniqueness_ignores_the_pooler_scored() {
    let pool = vec![
        pooler(1, "Ann", &[("m1", "KC")]),
        pooler(2, "Bob", &[("m1", "DET")]),
        pooler(3, "Cal", &[]),
    ];
    let m1 = "m1".to_string();
    assert!(is_unique(&pool, 1, &m1, &"KC".to_string()));
    assert!(!is_unique(&pool, 1, &m1, &"DET".to_string()));
    assert!(is_unique(&pool, 2, &m1, &"DET".to_string()));
}

#[test]
fn week_example_three_poolers() {
    // Ann: m1 away (alone), m2 home; Bob and Cal: m1 home, m2 home.
    let matches = two_matches();
    let pool = vec![
        pooler(1, "Ann", &[("m1", "KC"), ("m2", "NYJ")]),
        pooler(2, "Bob", &[("m1", "DET"), ("m2", "NYJ")]),
        pooler(3, "Cal", &[("m1", "DET"), ("m2", "NYJ")]),
    ];
    let results = calc_results_at(&3, &matches, &pool, &None, NOW);
    assert_eq!(score_of(&results, 1), 4 + 2);
    assert_eq!(score_of(&results, 2), 2);
    assert_eq!(score_of(&results, 3), 2);
}

#[test]
fn week_example_unique_on_both_matches() {
    let matches = two_matches();
    let pool = vec![
        pooler(1, "Ann", &[("m1", "KC"), ("m2", "NYJ")]),
        pooler(2, "Bob", &[("m1", "DET"), ("m2", "BUF")]),
        pooler(3, "Cal", &[("m1", "DET"), ("m2", "BUF")]),
    ];
    let results = calc_results_at(&3, &matches, &pool, &None, NOW);
    assert_eq!(score_of(&results, 1), 8);
    assert_eq!(score_of(&results, 2), 0);
    assert_eq!(score_of(&results, 3), 0);
    assert_eq!(results[0].poolerid, 1);
}

#[test]
fn lone_winner_gets_unique_bonus() {
    let matches = vec![game("m1", "KC", "DET", Some((24, 17)), LONG_AGO)];
    let pool = vec![
        pooler(1, "Ann", &[("m1", "DET")]),
        pooler(2, "Bob", &[("m1", "KC")]),
        pooler(3, "Cal", &[("m1", "DET")]),
        pooler(4, "Dee", &[("m1", "DET")]),
    ];
    let results = calc_results_at(&21, &matches, &pool, &None, NOW);
    assert_eq!(score_of(&results, 2), 10);
    assert_eq!(score_of(&results, 1), 0);
    assert_eq!(score_of(&results, 3), 0);
    assert_eq!(score_of(&results, 4), 0);
}

#[test]
fn missing_picks_score_nothing() {
    let matches = two_matches();
    let mut absent = pooler(2, "Bob", &[]);
    absent.picks = None;
    let pool = vec![pooler(1, "Ann", &[("m2", "NYJ")]), absent];
    let ann = calc_results_internal(&matches, &3, &pool, &pool[0].picks.clone().unwrap(), 1);
    assert_eq!(ann, 4);
    let results = calc_results_at(&3, &matches, &pool, &None, NOW);
    assert_eq!(score_of(&results, 2), 0);
    assert!(!results.iter().find(|r| r.poolerid == 2).unwrap().cache);
}

#[test]
fn feature_over_under() {
    let matches = vec![game("f1", "KC", "DET", Some((30, 20)), LONG_AGO)];
    let feat = Some(WeekFeature {
        season: 2023,
        week: 3,
        feattype: 0,
        target: 45,
        matchid: "f1".to_string(),
    });
    assert_eq!(feature_points(&matches, &feat, Some(OVER_PICK)), 3);
    assert_eq!(feature_points(&matches, &feat, Some(UNDER_PICK)), 0);
    assert_eq!(feature_points(&matches, &feat, None), 0);
    assert_eq!(feature_points(&matches, &None, Some(OVER_PICK)), 0);
    let low = vec![game("f1", "KC", "DET", Some((20, 25)), LONG_AGO)];
    assert_eq!(feature_points(&low, &feat, Some(UNDER_PICK)), 3);
    let unplayed = vec![game("f1", "KC", "DET", None, NOW)];
    assert_eq!(feature_points(&unplayed, &feat, Some(UNDER_PICK)), 0);
}

#[test]
fn feature_score_in_results() {
    let matches = vec![game("f1", "KC", "DET", Some((30, 20)), LONG_AGO)];
    let feat = Some(WeekFeature {
        season: 2023,
        week: 3,
        feattype: 0,
        target: 45,
        matchid: "f1".to_string(),
    });
    let mut over = pooler(1, "Ann", &[("f1", "KC")]);
    over.featpick = Some(OVER_PICK);
    let mut under = pooler(2, "Bob", &[("f1", "KC")]);
    under.featpick = Some(UNDER_PICK);
    let results = calc_results_at(&3, &matches, &vec![under, over], &feat, NOW);
    assert_eq!(results[0].poolerid, 1);
    assert_eq!(results[0].featscore, 3);
    assert_eq!(results[1].featscore, 0);
}

#[test]
fn scoring_twice_gives_same_results() {
    let matches = two_matches();
    let pool = vec![
        pooler(1, "Ann", &[("m1", "KC"), ("m2", "NYJ")]),
        pooler(2, "Bob", &[("m1", "DET"), ("m2", "NYJ")]),
    ];
    let a = calc_results_at(&3, &matches, &pool, &None, NOW);
    let b = calc_results_at(&3, &matches, &pool, &None, NOW);
    assert_eq!(a.len(), b.len());
    for (x, y) in a.iter().zip(b.iter()) {
        assert_eq!(x.poolerid, y.poolerid);
        assert_eq!(x.score, y.score);
        assert_eq!(x.featscore, y.featscore);
        assert_eq!(x.cache, y.cache);
        assert_eq!(x.name, y.name);
    }
}

#[test]
fn no_cache_while_week_in_progress() {
    let mut matches = two_matches();
    matches[1].date = NOW - 3600;
    let pool = vec![pooler(1, "Ann", &[("m1", "KC")])];
    assert!(!week_complete(&matches, NOW));
    let results = calc_results_at(&3, &matches, &pool, &None, NOW);
    assert!(!results[0].cache);
    matches[1].date = NOW - 8 * 3600;
    assert!(!week_complete(&matches, NOW));
    matches[1].date = NOW - 8 * 3600 - 1;
    assert!(week_complete(&matches, NOW));
    let results = calc_results_at(&3, &matches, &pool, &None, NOW);
    assert!(results[0].cache);
}

#[test]
fn no_cache_without_record() {
    let matches = two_matches();
    let mut ann = pooler(1, "Ann", &[("m1", "KC")]);
    ann.pickid = None;
    let results = calc_results_at(&3, &matches, &vec![ann], &None, NOW);
    assert_eq!(results[0].score, 4);
    assert!(!results[0].cache);
}

#[test]
fn cached_score_is_returned_as_stored() {
    let matches = two_matches();
    let mut ann = pooler(1, "Ann", &[("m1", "KC")]);
    ann.record_cache(17, 3);
    ann.record_cache(17, 3);
    assert_eq!(ann.cached, Some(17));
    assert_eq!(ann.featcached, Some(3));
    let results = calc_results_at(&3, &matches, &vec![ann], &None, NOW);
    assert_eq!(results[0].score, 17);
    assert_eq!(results[0].featscore, 3);
    assert!(!results[0].cache);
}

#[test]
fn results_ranked_with_stable_ties() {
    let matches = two_matches();
    let pool = vec![
        pooler(1, "Ann", &[("m1", "DET")]),
        pooler(2, "Bob", &[("m2", "NYJ")]),
        pooler(3, "Cal", &[("m1", "KC"), ("m2", "NYJ")]),
        pooler(4, "Dee", &[("m1", "DET")]),
    ];
    let results = calc_results_at(&3, &matches, &pool, &None, NOW);
    let order: Vec<i64> = results.iter().map(|r| r.poolerid).collect();
    assert_eq!(order, vec![3, 2, 1, 4]);
    assert_eq!(results[0].score, 6);
    assert_eq!(results[1].score, 2);
}

#[test]
fn calc_results_reads_the_clock() {
    let matches = vec![game("m1", "KC", "DET", Some((24, 17)), 0)];
    let pool = vec![pooler(1, "Ann", &[("m1", "KC")])];
    let results = calc_results(&3, &matches, &pool, &None);
    assert_eq!(results[0].score, 4);
    assert!(results[0].cache);
}
