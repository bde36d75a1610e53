use oispa_halla_analytics::filter::filter;
use oispa_halla_analytics::game::Game as AnalyzerGame;
use oispa_halla_analytics::io::{is_data_file_extension, merge_data, Data};
use oispa_halla_analytics::server::api::internal_types::Game;
use twothousand_forty_eight::direction::Direction;
use twothousand_forty_eight::v2::recording::SeededRecording;

fn stored(data_raw: &str, hash: &str, created_at: i64) -> Game {
    Game {
        data_raw: data_raw.to_string(),
        hash: hash.to_string(),
        client: None,
        created_at,
    }
}

fn hashes(d: &Data) -> Vec<String> {
    d.data.iter().map(|g| g.hash.clone()).collect()
}

#[test]
fn merging_drops_repeats_and_keeps_order() {
    let a = Data { data: vec![stored("x", "a", 1), stored("y", "b", 2), stored("x", "a", 1)] };
    let b = Data { data: vec![stored("y", "b", 2), stored("z", "c", 3), stored("x", "a", 9)] };
    let merged = merge_data(vec![a, b]);
    assert_eq!(hashes(&merged), vec!["a", "b", "c", "a"]);
    assert_eq!(merged.data[3].created_at, 9);
}

#[test]
fn merging_nothing() {
    assert!(merge_data(vec![]).data.is_empty());
    assert!(merge_data(vec![Data { data: vec![] }]).data.is_empty());
}

#[test]
fn merging_merged_data_changes_nothing() {
    let a = Data { data: vec![stored("x", "a", 1), stored("x", "a", 1), stored("q", "d", 4)] };
    let once = merge_data(vec![a]);
    let twice = merge_data(vec![once.clone()]);
    assert_eq!(hashes(&once), hashes(&twice));
}

#[test]
fn json_files_only() {
    assert!(is_data_file_extension(&Some("json".to_string())));
    assert!(!is_data_file_extension(&Some("txt".to_string())));
    assert!(!is_data_file_extension(&Some("JSON".to_string())));
    assert!(!is_data_file_extension(&None));
}

#[test]
fn stored_games_for_the_analyzer() {
    let g = AnalyzerGame::from_stored(stored("r", "h", 77));
    assert_eq!(g.data_raw, "r");
    assert_eq!(g.hash, "h");
    assert_eq!(g.created_at, Some(77));
}

#[test]
fn filtering_keeps_valid_games_in_order() {
    let empty = String::from(&SeededRecording::new(3, 4, 4, vec![]));
    let ok = twothousand_forty_eight::unified::validate(&empty).is_ok();
    let games = vec![
        AnalyzerGame { data_raw: "garbage".to_string(), hash: "1".to_string(), client: None, created_at: None },
        AnalyzerGame { data_raw: empty.clone(), hash: "2".to_string(), client: None, created_at: None },
        AnalyzerGame { data_raw: "::9:x".to_string(), hash: "3".to_string(), client: None, created_at: None },
    ];
    let kept = filter(games.clone(), true, false);
    let expected: Vec<String> = games
        .iter()
        .filter(|g| twothousand_forty_eight::unified::validate(&g.data_raw).is_ok())
        .map(|g| g.hash.clone())
        .collect();
    assert_eq!(kept.iter().map(|g| g.hash.clone()).collect::<Vec<_>>(), expected);
    assert_eq!(kept.iter().any(|g| g.hash == "2"), ok);
    assert!(!kept.iter().any(|g| g.hash == "3"));
    let again = filter(kept.clone(), false, true);
    assert_eq!(again.len(), kept.len());
    let _ = Direction::UP;
}
