use oispa_halla_analytics::server::api::input_types::{RecordInput, WipeInput};
use oispa_halla_analytics::server::api::response_types::{
    AliveResponse, GetConfigResponse, RecordResponse, StatsResponse, WipeResponse,
};
use oispa_halla_analytics::server::api::{Api, RecordStep};
use oispa_halla_analytics::server::bind_address;
use oispa_halla_analytics::server::db::{backup_db_uri, get_db_uri};
use twothousand_forty_eight::direction::Direction;
use twothousand_forty_eight::v2::recording::SeededRecording;

fn valid_recording() -> String {
    let mut moves: Vec<Direction> = vec![];
    for _ in 0..3 {
        for d in [Direction::UP, Direction::RIGHT, Direction::DOWN, Direction::LEFT] {
            let mut tried = moves.clone();
            tried.push(d);
            let data = String::from(&SeededRecording::new(11, 4, 4, tried.clone()));
            if twothousand_forty_eight::unified::validate(&data).is_ok() {
                moves = tried;
                break;
            }
        }
    }
    String::from(&SeededRecording::new(11, 4, 4, moves))
}

fn input(r: &str) -> RecordInput {
    RecordInput { r: r.to_string(), client: "test".to_string() }
}

#[test]
fn alive() {
    assert!(matches!(Api::new().alive(), AliveResponse::Success));
}

#[test]
fn stats_counts() {
    match Api::new().stats(Some(42)) {
        StatsResponse::Success(s) => assert_eq!(s.recorded_games, 42),
    }
    match Api::new().stats(None) {
        StatsResponse::Success(s) => assert_eq!(s.recorded_games, 0),
    }
}

#[test]
fn config() {
    match Api::new().get_config("x86".to_string(), "0.1.0".to_string(), "1.80".to_string()) {
        GetConfigResponse::Success(c) => {
            assert_eq!(c.platform, "x86");
            assert_eq!(c.version, "0.1.0");
            assert_eq!(c.rust_version, "1.80");
        }
    }
}

#[test]
fn wipe_needs_the_configured_key() {
    let api = Api::new();
    let k = WipeInput { key: "secret".to_string() };
    assert!(matches!(api.wipe(&None, &k), WipeResponse::Unauthorized));
    assert!(matches!(api.wipe(&Some("other".to_string()), &k), WipeResponse::Unauthorized));
    assert!(matches!(api.wipe(&Some("secret".to_string()), &k), WipeResponse::Success));
}

#[test]
fn recording_an_unhashable_game_is_refused() {
    let api = Api::new();
    assert!(matches!(api.record_start(&input("::9:garbage")), Err(RecordResponse::InvalidGame)));
}

#[test]
fn recording_a_valid_game() {
    let api = Api::new();
    let data = valid_recording();
    let hash = match api.record_start(&input(&data)) {
        Ok(h) => h,
        Err(_) => panic!("a valid game is looked up"),
    };
    assert_eq!(hash, twothousand_forty_eight::unified::hash(&data).unwrap());
    assert_ne!(hash, data);
    assert!(matches!(
        api.record_after_lookup(&input(&data), hash.clone(), true),
        RecordStep::Answer(RecordResponse::AlreadyExists)
    ));
    match api.record_after_lookup(&input(&data), hash.clone(), false) {
        RecordStep::Store(h) => assert_eq!(h, hash),
        _ => panic!("a new valid game is stored"),
    }
}

#[test]
fn recording_an_invalid_game_is_refused() {
    let api = Api::new();
    let data = "4x4S0.0.0.0.0.0.0.0.0.0.0.0.0.0.2.2+2,1.2;1";
    if let Ok(h) = api.record_start(&input(data)) {
        let valid = twothousand_forty_eight::unified::validate(data).is_ok();
        let step = api.record_after_lookup(&input(data), h, false);
        if valid {
            assert!(matches!(step, RecordStep::Store(_)));
        } else {
            assert!(matches!(step, RecordStep::Answer(RecordResponse::InvalidGame)));
        }
    }
}

#[test]
fn page_windows() {
    let api = Api::new();
    assert_eq!(api.page_window(None, None), Some((0, i64::MAX)));
    assert_eq!(api.page_window(Some(3), Some(20)), Some((60, 20)));
    assert_eq!(api.page_window(Some(1), None), Some((i64::MAX, i64::MAX)));
    assert_eq!(api.page_window(Some(2), None), None);
}

#[test]
fn data_games_always_name_the_client() {
    let g = Api::new().data_game("r".to_string(), "h".to_string(), "c".to_string(), 5);
    assert_eq!(g.client, Some("c".to_string()));
    assert_eq!(g.created_at, 5);
}

#[test]
fn addresses() {
    assert_eq!(bind_address(true, None), "0.0.0.0:443");
    assert_eq!(bind_address(false, None), "0.0.0.0:80");
    assert_eq!(bind_address(false, Some("127.0.0.1:8080".to_string())), "127.0.0.1:8080");
    assert_eq!(get_db_uri(None), "sqlite:db/analytics.db");
    assert_eq!(get_db_uri(Some("sqlite:x.db".to_string())), "sqlite:x.db");
    assert_eq!(backup_db_uri(), "sqlite::memory:");
}
