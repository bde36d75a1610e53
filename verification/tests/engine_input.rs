use oispa_halla_analytics::engine_input::{parse_ready, replay_ready};
use oispa_halla_analytics::filter::filter;
use oispa_halla_analytics::game::Game;
use oispa_halla_analytics::libproxy::{
    get_gamestate, hash_of_recording, is_valid_recording, parse_data, reconstruct_history,
};
use oispa_halla_analytics::server::api::input_types::RecordInput;
use oispa_halla_analytics::server::api::response_types::RecordResponse;
use oispa_halla_analytics::server::api::{Api, RecordStep};
use twothousand_forty_eight::direction::Direction;
use twothousand_forty_eight::v2::recording::SeededRecording;

const V1_STEP: &str = "4x4S0.0.0.0.0.0.0.0.0.0.0.0.0.0.2.2+2,1.2;1";

#[test]
fn supported_recordings_are_ready() {
    assert!(parse_ready(V1_STEP));
    assert!(replay_ready(V1_STEP));
    assert!(parse_ready("0.0.0.2;1:0.0.2.2;3"));
    let v2 = String::from(&SeededRecording::new(5, 4, 4, vec![Direction::UP, Direction::LEFT]));
    assert!(parse_ready(&v2));
    assert!(replay_ready(&v2));
    assert!(replay_ready("3x5S0.0.2;0"));
}

#[test]
fn boards_the_engine_cannot_hold_are_refused() {
    assert!(!parse_ready("7x4S0;0"));
    assert!(!parse_ready("4x7S0;0"));
    assert!(!parse_ready("0x4S1;0"));
    assert!(!parse_ready("4x0S1;0"));
    assert!(!parse_ready("1x1S0.0.0.0.0.0.0;0"));
    assert!(parse_ready("1x1S0.0.0.0.0.0;0"));
    assert!(parse_ready("2x2S0.0.0.0.0;0"));
    assert!(parse_ready("04x4S0.0.0.0;0"));
    assert!(parse_ready("+2x2S0.0;0"));
    assert!(!replay_ready("7x4S0;0"));
    let big = String::from(&SeededRecording::new(5, 7, 7, vec![Direction::UP]));
    assert!(parse_ready(&big));
    assert!(!replay_ready(&big));
}

#[test]
fn recordings_that_fail_before_a_panic_are_kept() {
    // the engine stops with an error before it would place the value
    assert!(parse_ready("0x4S;0"));
    assert!(parse_ready("0x4S1"));
    assert!(parse_ready("1x1S0.0.0.0.0.0.0"));
    assert!(parse_ready("1x1S0.0.x.0.0.0.0;0"));
    assert!(parse_ready("1x1S0:0.0.0.0.0.0.0;0"));
    assert!(!parse_ready("1x1S0;0:0.0.0.0.0.0.0;0"));
    assert!(parse_ready("99999999999999999999999x4S0;0"));
    assert!(parse_ready("4S0;0"));
    assert!(replay_ready("::2:7:7:x:"));
    assert!(replay_ready("::2:04:4:7:"));
    assert!(replay_ready("::2:0:0:7:"));
    assert!(replay_ready("::3:x"));
}

#[test]
fn additions_off_the_array_and_long_numbers_are_refused() {
    let board = "0.0.0.0.0.0.0.0.0.0.0.0.0.0.2.2";
    assert!(!replay_ready(&format!("4x4S{}+9,1.2;1:{};1", board, board)));
    assert!(!replay_ready(&format!("4x4S{}+12,1.2;1:{};1", board, board)));
    assert!(!replay_ready(&format!("4x4S{}+2,15.2;1:{};1", board, board)));
    assert!(replay_ready(&format!("4x4S{}+2,15.8;1:{};1", board, board)));
    assert!(replay_ready(&format!("4x4S{}+9,1.2;1", board)));
    assert!(parse_ready(&format!("4x4S{}+9,1.2;1:{};1", board, board)));
    assert!(!replay_ready("4x4S16777217.0;1"));
    assert!(replay_ready("4x4S16777216.0;1"));
    assert!(parse_ready("4x4S16777217.0;1"));
}

#[test]
fn refused_recordings_are_answered_with_an_error() {
    assert_eq!(parse_data("7x4S0;0".to_string()).err(), Some("unsupported recording".to_string()));
    assert_eq!(parse_data("0x4S1;0".to_string()).err(), Some("unsupported recording".to_string()));
    let big = String::from(&SeededRecording::new(5, 7, 7, vec![Direction::UP]));
    assert_eq!(reconstruct_history(big.clone()).err(), Some("unsupported recording".to_string()));
    assert!(get_gamestate(big.clone()).is_err());
    assert!(parse_data(big).is_ok());
}

#[test]
fn the_engines_own_errors_are_handed_on() {
    assert_eq!(parse_data("::3:x".to_string()).err(), Some("unsupported protocol version".to_string()));
    assert_eq!(parse_data("0x4S;0".to_string()).err(), Some("missing tile value on move 0".to_string()));
    assert!(parse_data("2x2S0.0.0.0.0;0".to_string()).is_ok());
    assert!(hash_of_recording("2x2S0.0.0.0.0;0").is_some());
    assert!(hash_of_recording("04x4S0.0.0.0;0").is_some());
}

#[test]
fn a_width_with_a_leading_zero_is_stored_and_kept() {
    let r = "::2:04:4:7:";
    assert!(is_valid_recording(r));
    assert!(hash_of_recording(r).is_some());
    let api = Api::new();
    let input = RecordInput { r: r.to_string(), client: "x".to_string() };
    let hash = api.record_start(&input).ok().unwrap();
    assert!(matches!(api.record_after_lookup(&input, hash.clone(), false), RecordStep::Store(h) if h == hash));
    let games = vec![Game { data_raw: r.to_string(), hash: hash.clone(), client: None, created_at: None }];
    assert_eq!(filter(games, false, false).len(), 1);
}

#[test]
fn refused_recordings_are_not_recorded() {
    let api = Api::new();
    let input = RecordInput { r: "7x4S0;0".to_string(), client: "x".to_string() };
    assert!(matches!(api.record_start(&input), Err(RecordResponse::InvalidGame)));
    let big = RecordInput {
        r: String::from(&SeededRecording::new(5, 7, 7, vec![Direction::UP])),
        client: "x".to_string(),
    };
    let hash = api.record_start(&big).ok().unwrap();
    assert!(matches!(
        api.record_after_lookup(&big, hash, false),
        RecordStep::Answer(RecordResponse::InvalidGame)
    ));
}

#[test]
fn recordings_at_the_edge_of_the_domain_do_not_fail_hard() {
    let full = vec!["999999"; 36].join(".");
    let half = vec!["2"; 36].join(".");
    let samples = vec![
        "6x1S0.0.0.0.0.2;1".to_string(),
        "1x6S0.0.0.0.0.2;0".to_string(),
        "6x2S0.0.0.0.0.0.0.0.0.0.0.2+5,5.4;3:0.0.0.0.0.0.0.0.0.0.0.2;e".to_string(),
        format!("6x6S{}+5,5.2;1:{}+0,0.4;2:{};e", full, half, half),
        format!("6x6S{};0:{};1:{};f", half, half, full),
        "".to_string(),
        ":".to_string().replace(':', "x"),
        "2x2S;;;:::+1,1.9".to_string(),
        "+5,5.3;0".to_string(),
        "::2:6:6:1:ABCDEFGHIJ".to_string(),
        "::2:1:1:0:////".to_string(),
    ];
    for s in samples {
        assert!(replay_ready(&s), "{}", s);
        let _ = parse_data(s.clone());
        let _ = reconstruct_history(s.clone());
        let _ = get_gamestate(s.clone());
        let api = Api::new();
        let input = RecordInput { r: s.clone(), client: "c".to_string() };
        if let Ok(h) = api.record_start(&input) {
            let _ = api.record_after_lookup(&input, h, false);
        }
    }
}
