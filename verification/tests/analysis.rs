use oispa_halla_analytics::analyzer::{
    analyze_first_move_vs_score, analyze_frequence_move_first, analyze_frequence_moves,
    analyze_general, try_analyze_first_move_vs_score, try_analyze_frequence_move_first,
    try_analyze_frequence_moves, try_analyze_general, bool_to_r_str, count_move, first_move_frequencies, first_move_score_table,
    general_row, is_round_end, median_operands, move_frequencies, move_rows, move_to_str,
    unpack_game, validation_row, AnalysisError, CountTable, PROGRESS_EVERY,
    SAVE_BATCH, UNPACK_BATCH,
};
use oispa_halla_analytics::game::{client_or_unknown, Game};
use oispa_halla_analytics::libproxy::{
    get_gamestate, get_moves, parse_data, reconstruct_history, Move, Reconstruction,
    ValidationSummary,
};
use twothousand_forty_eight::direction::Direction;
use twothousand_forty_eight::v2::recording::SeededRecording;

/// A version 2 recording with the given moves, whether or not they are legal.
fn recording(moves: Vec<Direction>) -> String {
    String::from(&SeededRecording::new(7, 4, 4, moves))
}

/// A valid recording of a few moves, found by trying the directions in turn.
fn valid_recording(steps: usize) -> (String, Vec<Direction>) {
    let mut moves: Vec<Direction> = vec![];
    for _ in 0..steps {
        for d in [Direction::UP, Direction::RIGHT, Direction::DOWN, Direction::LEFT] {
            let mut tried = moves.clone();
            tried.push(d);
            if twothousand_forty_eight::unified::validate(&recording(tried.clone())).is_ok() {
                moves = tried;
                break;
            }
        }
    }
    (recording(moves.clone()), moves)
}

fn game(data_raw: &str, client: Option<&str>) -> Game {
    Game {
        data_raw: data_raw.to_string(),
        hash: String::new(),
        client: client.map(|c| c.to_string()),
        created_at: None,
    }
}

fn as_move(d: Direction) -> Move {
    match d {
        Direction::UP => Move::Up,
        Direction::RIGHT => Move::Right,
        Direction::DOWN => Move::Down,
        Direction::LEFT => Move::Left,
        Direction::END => Move::End,
        Direction::START => Move::Start,
        Direction::BREAK => Move::Break,
    }
}

fn rows(t: &CountTable) -> Vec<(String, usize, usize)> {
    t.rows.iter().map(|r| (r.label.clone(), r.count, r.divisor)).collect()
}

fn header(t: &CountTable) -> Vec<String> {
    t.header.clone()
}

#[test]
fn bool_texts() {
    assert_eq!(bool_to_r_str(true), "TRUE");
    assert_eq!(bool_to_r_str(false), "FALSE");
}

#[test]
fn move_names() {
    assert_eq!(move_to_str(Move::Up), "Ylös");
    assert_eq!(move_to_str(Move::Right), "Oikealle");
    assert_eq!(move_to_str(Move::Down), "Alas");
    assert_eq!(move_to_str(Move::Left), "Vasemmalle");
    assert_eq!(move_to_str(Move::End), "END");
    assert_eq!(move_to_str(Move::Start), "START");
    assert_eq!(move_to_str(Move::Break), "BREAK");
}

#[test]
fn move_indices_follow_the_engine() {
    let all = [
        Move::Up,
        Move::Right,
        Move::Down,
        Move::Left,
        Move::End,
        Move::Start,
        Move::Break,
    ];
    for (i, m) in all.iter().enumerate() {
        assert_eq!(m.index(), i);
        assert_eq!(Move::from_index(i), *m);
    }
    for d in [
        Direction::UP,
        Direction::RIGHT,
        Direction::DOWN,
        Direction::LEFT,
        Direction::END,
        Direction::START,
        Direction::BREAK,
    ] {
        assert_eq!(as_move(d).index(), d.get_index());
    }
}

#[test]
fn median_of_odd_and_even_lists() {
    assert_eq!(median_operands(&vec![1, 5, 9]), (5, false));
    assert_eq!(median_operands(&vec![1, 4, 6, 9]), (10, true));
    assert_eq!(median_operands(&vec![3]), (3, false));
}

#[test]
fn counting_moves() {
    let moves = vec![Move::Up, Move::Left, Move::Up, Move::End];
    assert_eq!(count_move(&moves, Move::Up), 2);
    assert_eq!(count_move(&moves, Move::Left), 1);
    assert_eq!(count_move(&moves, Move::Down), 0);
    assert_eq!(count_move(&vec![], Move::Up), 0);
}

#[test]
fn move_frequency_table() {
    let moves = vec![Move::Up, Move::Left, Move::Up, Move::End, Move::Down];
    let t = move_frequencies(&moves);
    assert_eq!(header(&t), vec!["Suunta", "f", "f_per"]);
    assert_eq!(
        rows(&t),
        vec![
            ("Ylös".to_string(), 2, 5),
            ("Oikealle".to_string(), 0, 5),
            ("Alas".to_string(), 1, 5),
            ("Vasemmalle".to_string(), 1, 5),
            ("Yhteensä".to_string(), 5, 5),
        ]
    );
    let directions: usize = t.rows[..4].iter().map(|r| r.count).sum();
    assert!(directions <= t.rows[4].count);
}

#[test]
fn first_move_frequency_table() {
    let firsts = vec![Move::Right, Move::Right, Move::Down];
    let t = first_move_frequencies(&firsts);
    assert_eq!(header(&t), vec!["Ensimmäinen siirto", "f", "f%"]);
    assert_eq!(
        rows(&t),
        vec![
            ("Ylös".to_string(), 0, 3),
            ("Oikealle".to_string(), 2, 3),
            ("Alas".to_string(), 1, 3),
            ("Vasemmalle".to_string(), 0, 3),
            ("Yhteensä".to_string(), 3, 3),
        ]
    );
}

#[test]
fn score_table_sums_by_first_move() {
    let firsts = vec![Move::Up, Move::Left, Move::Up, Move::End];
    let scores = vec![100, 40, 60, 1000];
    let t = first_move_score_table(&firsts, &scores);
    assert_eq!(header(&t), vec!["Suunta", "Pisteet", "Pisteet_avg"]);
    assert_eq!(
        rows(&t),
        vec![
            ("Ylös".to_string(), 160, 2),
            ("Oikealle".to_string(), 0, 0),
            ("Alas".to_string(), 0, 0),
            ("Vasemmalle".to_string(), 40, 1),
        ]
    );
    let by_direction: usize = t.rows.iter().map(|r| r.count).sum();
    assert!(by_direction <= scores.iter().sum::<usize>());
}

#[test]
fn general_rows() {
    let row = general_row("web".to_string(), &vec![Move::Up, Move::Left, Move::End], 1234);
    assert_eq!(row.client, "web");
    assert_eq!(row.length, 3);
    assert_eq!(row.score, 1234);
    assert_eq!(row.move_first, "Ylös");
    assert_eq!(row.move_last, "Vasemmalle");
    let row = general_row("x".to_string(), &vec![Move::Down, Move::Right], 0);
    assert_eq!(row.move_last, "Oikealle");
}

#[test]
fn parsing_keeps_the_moves() {
    let dirs = vec![Direction::UP, Direction::LEFT, Direction::DOWN, Direction::RIGHT, Direction::UP];
    let parsed = parse_data(recording(dirs.clone())).unwrap();
    let moves = get_moves(&parsed);
    assert_eq!(moves, dirs.into_iter().map(as_move).collect::<Vec<_>>());
}

#[test]
fn parsing_garbage_fails() {
    assert!(parse_data("::9:nonsense".to_string()).is_err());
    assert!(reconstruct_history("::9:nonsense".to_string()).is_err());
    assert!(get_gamestate("::9:nonsense".to_string()).is_err());
}

#[test]
fn reconstruction_of_a_valid_game() {
    let (data, moves) = valid_recording(4);
    assert!(!moves.is_empty());
    let r = reconstruct_history(data.clone()).unwrap();
    let engine = twothousand_forty_eight::unified::reconstruct(&data).unwrap().validation_data;
    assert_eq!(r.validation_data.score, engine.score);
    assert_eq!(r.validation_data.breaks, engine.breaks);
    assert!(get_gamestate(data).is_ok());
}

#[test]
fn final_state_is_the_engines() {
    let (data, _) = valid_recording(4);
    let g = get_gamestate(data.clone()).unwrap();
    let e = twothousand_forty_eight::unified::get_gamestate(&data).unwrap();
    assert_eq!(g.score_current, e.score_current);
    assert_eq!(g.score_max, e.score_max);
    assert_eq!(g.breaks, e.breaks);
    assert_eq!(g.over, e.over);
    assert_eq!(g.won, e.won);
    assert_eq!(g.width, 4);
    assert_eq!(g.height, 4);
    assert_eq!(g.allowed_moves, e.allowed_moves.iter().map(|d| as_move(*d)).collect::<Vec<_>>());
    assert_eq!(g.tiles.len(), 36);
    for y in 0..6 {
        for x in 0..6 {
            assert_eq!(g.tiles[y * 6 + x], e.board.tiles[y][x].map(|t| t.value));
        }
    }
    assert!(g.tiles.iter().any(|t| matches!(t, Some(v) if *v > 0)));
}

#[test]
fn frequency_of_moves_over_games() {
    let a = recording(vec![Direction::UP, Direction::UP, Direction::LEFT]);
    let b = recording(vec![Direction::DOWN, Direction::UP]);
    let data = vec![game(&a, None), game(&b, Some("c"))];
    let t = try_analyze_frequence_moves(&data).unwrap();
    assert_eq!(
        rows(&t),
        vec![
            ("Ylös".to_string(), 3, 5),
            ("Oikealle".to_string(), 0, 5),
            ("Alas".to_string(), 1, 5),
            ("Vasemmalle".to_string(), 1, 5),
            ("Yhteensä".to_string(), 5, 5),
        ]
    );
    let t = try_analyze_frequence_move_first(&data).unwrap();
    assert_eq!(
        rows(&t),
        vec![
            ("Ylös".to_string(), 1, 2),
            ("Oikealle".to_string(), 0, 2),
            ("Alas".to_string(), 1, 2),
            ("Vasemmalle".to_string(), 0, 2),
            ("Yhteensä".to_string(), 2, 2),
        ]
    );
}

#[test]
fn analyses_fail_on_unparsable_games() {
    let data = vec![game("::9:nonsense", None)];
    assert!(matches!(try_analyze_frequence_moves(&data), Err(AnalysisError::Parse(_))));
    assert!(matches!(try_analyze_frequence_move_first(&data), Err(AnalysisError::Parse(_))));
    assert!(matches!(try_analyze_general(&data), Err(AnalysisError::Parse(_))));
    assert!(matches!(try_analyze_first_move_vs_score(&data), Err(AnalysisError::Parse(_))));
}

#[test]
fn first_move_needs_a_move() {
    let data = vec![game(&recording(vec![]), None)];
    assert!(matches!(try_analyze_frequence_move_first(&data), Err(AnalysisError::EmptyGame)));
}

#[test]
fn score_analyses_of_no_games() {
    let t = try_analyze_general(&vec![]).unwrap();
    assert_eq!(t.header, vec!["client", "game_length", "score", "move_first", "move_last"]);
    assert!(t.rows.is_empty());
    let t = try_analyze_first_move_vs_score(&vec![]).unwrap();
    assert_eq!(
        rows(&t),
        vec![
            ("Ylös".to_string(), 0, 0),
            ("Oikealle".to_string(), 0, 0),
            ("Alas".to_string(), 0, 0),
            ("Vasemmalle".to_string(), 0, 0),
        ]
    );
}

#[test]
fn score_analyses_use_each_games_own_score() {
    let (a, ma) = valid_recording(3);
    let (b, mb) = valid_recording(2);
    let score = |r: &str| twothousand_forty_eight::unified::reconstruct(r).unwrap().validation_data.score;
    let (sa, sb) = (score(&a), score(&b));
    let games = vec![game(&a, Some("web")), game(&b, None)];
    let t = try_analyze_general(&games).unwrap();
    assert_eq!(t.header, vec!["client", "game_length", "score", "move_first", "move_last"]);
    assert_eq!(t.rows.len(), 2);
    assert_eq!(t.rows[0].client, "web");
    assert_eq!(t.rows[1].client, "unknown");
    assert_eq!(t.rows[0].length, ma.len());
    assert_eq!(t.rows[1].length, mb.len());
    assert_eq!(t.rows[0].score, sa);
    assert_eq!(t.rows[1].score, sb);
    assert_eq!(t.rows[0].move_first, move_to_str(as_move(ma[0])));
    assert_eq!(t.rows[0].move_last, move_to_str(as_move(ma[ma.len() - 1])));
    let t = try_analyze_first_move_vs_score(&games).unwrap();
    let mut expected = vec![0usize; 4];
    let mut counts = vec![0usize; 4];
    for (m, s) in [(ma[0], sa), (mb[0], sb)] {
        let i = match m {
            Direction::UP => 0,
            Direction::RIGHT => 1,
            Direction::DOWN => 2,
            _ => 3,
        };
        expected[i] += s;
        counts[i] += 1;
    }
    let got = rows(&t);
    for i in 0..4 {
        assert_eq!(got[i].1, expected[i]);
        assert_eq!(got[i].2, counts[i]);
    }
    assert_eq!(analyze_first_move_vs_score(&games).rows[0].count, expected[0]);
    assert_eq!(analyze_general(&games).rows[1].score, sb);
}

#[test]
fn score_analyses_need_a_move() {
    let games = vec![game(&recording(vec![]), None)];
    assert!(matches!(try_analyze_general(&games), Err(AnalysisError::EmptyGame)));
    assert!(matches!(try_analyze_first_move_vs_score(&games), Err(AnalysisError::EmptyGame)));
}


#[test]
fn unpacking_a_game() {
    let (data, dirs) = valid_recording(3);
    let u = unpack_game(data.clone()).unwrap();
    assert_eq!(u.moves, dirs.iter().map(|d| as_move(*d)).collect::<Vec<_>>());
    let engine = twothousand_forty_eight::unified::reconstruct(&data).unwrap().validation_data;
    assert_eq!(u.validation.score, engine.score);
    assert_eq!(u.validation.score_end, engine.score_end);
    assert!(matches!(unpack_game("::9:x".to_string()), Err(AnalysisError::Parse(_))));
}

#[test]
fn stored_rows() {
    let rows = move_rows(&vec![Move::Left, Move::Up, Move::Break]);
    assert_eq!(rows, vec![(3, 0), (0, 1), (6, 2)]);
    let v = ValidationSummary { score: 12, score_end: 8, score_margin: 4, breaks: 1 };
    assert_eq!(validation_row(&v), (12, 8, 4, 1));
}

#[test]
fn rounds() {
    assert!(is_round_end(0, UNPACK_BATCH));
    assert!(!is_round_end(199, UNPACK_BATCH));
    assert!(is_round_end(400, SAVE_BATCH));
    assert!(is_round_end(300, PROGRESS_EVERY));
    assert!(!is_round_end(301, PROGRESS_EVERY));
}

#[test]
fn unknown_clients() {
    assert_eq!(client_or_unknown(&None), "unknown");
    assert_eq!(client_or_unknown(&Some("oispahalla".to_string())), "oispahalla");
}

#[test]
fn all_moves_count_as_the_sum_over_games() {
    let a = recording(vec![Direction::UP, Direction::LEFT, Direction::LEFT]);
    let b = recording(vec![Direction::RIGHT, Direction::LEFT]);
    let both = try_analyze_frequence_moves(&vec![game(&a, None), game(&b, None)]).unwrap();
    let only_a = try_analyze_frequence_moves(&vec![game(&a, None)]).unwrap();
    let only_b = try_analyze_frequence_moves(&vec![game(&b, None)]).unwrap();
    for i in 0..5 {
        assert_eq!(both.rows[i].count, only_a.rows[i].count + only_b.rows[i].count);
    }
    let seven: usize = [Move::Up, Move::Right, Move::Down, Move::Left, Move::End, Move::Start, Move::Break]
        .iter()
        .map(|m| count_move(&vec![Move::Up, Move::End, Move::Break, Move::Up], *m))
        .sum();
    assert_eq!(seven, 4);
}

#[test]
fn analyses_on_the_games_they_are_defined_for() {
    let a = recording(vec![Direction::UP, Direction::LEFT]);
    let b = recording(vec![Direction::DOWN]);
    let data = vec![game(&a, None), game(&b, None)];
    let t = analyze_frequence_moves(&data);
    assert_eq!(t.rows[4].count, 3);
    let t = analyze_frequence_move_first(&data);
    assert_eq!(t.rows[0].count, 1);
    assert_eq!(t.rows[2].count, 1);
    assert!(analyze_general(&vec![]).rows.is_empty());
    assert_eq!(analyze_first_move_vs_score(&vec![]).rows.len(), 4);
}
