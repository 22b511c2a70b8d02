use pickem::feed::{decode_picks, latest_week, picks_status, schedule_query, schedule_slots, split_picks};
use pickem::model::{Match, PicksStatus};
use pickem::teams::{
    get_overpick_emoji, get_short_name, get_team_emoji, get_team_id, get_underpick_emoji,
    UNKNOWN_TEAM_EMOJI,
};

fn game(id: &str, away: &str, home: &str) -> Match {
    Match {
        id_event: id.to_string(),
        away_team: away.to_string(),
        home_team: home.to_string(),
        away_score: None,
        home_score: None,
        date: 0,
    }
}

fn pair(m: &str, t: &str) -> (String, String) {
    (m.to_string(), t.to_string())
}

#[test]
fn short_names() {
    assert_eq!(get_short_name("Arizona Cardinals"), "ARI");
    assert_eq!(get_short_name("San Francisco 49ers"), "SF");
    assert_eq!(get_short_name("Oakland Raiders"), "LV");
    assert_eq!(get_short_name("Washington Redskins"), "WSH");
    assert_eq!(get_short_name("Springfield Atoms"), "N/A");
}

#[test]
fn team_ids() {
    assert_eq!(get_team_id("KC"), 12);
    assert_eq!(get_team_id("ARI"), 22);
    assert_eq!(get_team_id("LA"), 14);
    assert_eq!(get_team_id("LAR"), 14);
    assert_eq!(get_team_id("WAS"), 28);
    assert_eq!(get_team_id("XYZ"), -1);
}

#[test]
fn team_emojis() {
    assert_eq!(get_team_emoji("ARI"), 1142671366424887367);
    assert_eq!(get_team_emoji("WSH"), get_team_emoji("WAS"));
    assert_eq!(get_team_emoji("NA"), UNKNOWN_TEAM_EMOJI);
    assert_eq!(get_overpick_emoji(), 1415070599415468096);
    assert_eq!(get_underpick_emoji(), 1415070657682870312);
}

#[test]
fn schedule_queries() {
    assert_eq!(schedule_query(1), (2, 1));
    assert_eq!(schedule_query(18), (2, 18));
    assert_eq!(schedule_query(19), (3, 1));
    assert_eq!(schedule_query(20), (3, 2));
    assert_eq!(schedule_query(21), (3, 3));
    assert_eq!(schedule_query(22), (3, 5));
    assert_eq!(schedule_query(160), (3, 160));
}

#[test]
fn schedule_by_week() {
    let events = vec![
        (1, game("a", "KC", "DET")),
        (3, game("b", "KC", "JAX")),
        (3, game("c", "KC", "CHI")),
        (19, game("d", "KC", "MIA")),
        (0, game("e", "KC", "NE")),
    ];
    let slots = schedule_slots(&events);
    assert_eq!(slots.len(), 18);
    assert_eq!(slots[0].as_ref().unwrap().id_event, "a");
    assert!(slots[1].is_none());
    assert_eq!(slots[2].as_ref().unwrap().id_event, "c");
    assert!(slots[17].is_none());
}

#[test]
fn latest_week_of_pool() {
    assert_eq!(latest_week(&vec![]), 0);
    assert_eq!(latest_week(&vec![3, 7, 5]), 7);
    assert_eq!(latest_week(&vec![-2]), 0);
}

#[test]
fn pick_record_state() {
    assert!(matches!(picks_status(9, None, None), PicksStatus::Primed(9)));
    match picks_status(9, Some("{}".to_string()), Some(1)) {
        PicksStatus::Filled(s, f) => {
            assert_eq!(s, "{}");
            assert_eq!(f, Some(1));
        }
        PicksStatus::Primed(_) => panic!("expected filled"),
    }
}

#[test]
fn split_keeps_known_matches_and_teams() {
    let matches = vec![game("m1", "KC", "DET"), game("m2", "BUF", "NYJ")];
    let entries = vec![pair("m1", "KC"), pair("m9", "KC"), pair("m2", "DET"), pair("m2", "NYJ")];
    let (kept, rejected) = split_picks(&entries, &matches);
    assert_eq!(kept, vec![pair("m1", "KC"), pair("m2", "NYJ")]);
    assert_eq!(rejected, vec![pair("m9", "KC"), pair("m2", "DET")]);
}

#[test]
fn decode_stored_picks() {
    let matches = vec![game("m1", "KC", "DET"), game("m2", "BUF", "NYJ")];
    let decoded = decode_picks("{\"m2\": \"NYJ\", \"m1\": \"KC\", \"m7\": \"SF\"}", &matches).unwrap();
    assert_eq!(decoded.picks, vec![pair("m1", "KC"), pair("m2", "NYJ")]);
    assert_eq!(decoded.rejected, vec![pair("m7", "SF")]);
    assert!(decode_picks("not json", &matches).is_none());
    assert!(decode_picks("{\"m1\": 3}", &matches).is_none());
    let empty = decode_picks("{}", &matches).unwrap();
    assert!(empty.picks.is_empty());
}
