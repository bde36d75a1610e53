//! The analyses of recorded games: how often each direction is played, how
//! games begin and end, what the first move scores, and what is stored of a
//! game when it is unpacked into the database.

use vstd::prelude::*;

use crate::game::{client_name, client_or_unknown, Game};
use crate::libproxy::{
    gamestate_result, get_gamestate, EngineStateView, GameSummary, get_moves, moves_of_indices, parse_data, parse_result,
    reconstruct_history, reconstruct_result, Move, ParsedGame, Reconstruction, ValidationSummary,
};

verus! {

// ---------------------------------------------------------------------------
// Texts
// ---------------------------------------------------------------------------

/// `"TRUE"` or `"FALSE"`.
pub fn bool_to_r_str(boolean: bool) -> (s: String)
    ensures
        s@ == (if boolean { "TRUE"@ } else { "FALSE"@ }),
{
    if boolean {
        "TRUE".to_owned()
    } else {
        "FALSE".to_owned()
    }
}

/// The name of a move in a table: the four directions in Finnish, the other
/// moves by the engine's name.
pub open spec fn move_label(m: Move) -> Seq<char> {
    match m {
        Move::Up => "Ylös"@,
        Move::Right => "Oikealle"@,
        Move::Down => "Alas"@,
        Move::Left => "Vasemmalle"@,
        Move::End => "END"@,
        Move::Start => "START"@,
        Move::Break => "BREAK"@,
    }
}

/// The name of a move in a table.
pub fn move_to_str(mv: Move) -> (s: String)
    ensures
        s@ == move_label(mv),
{
    match mv {
        Move::Up => "Ylös".to_owned(),
        Move::Right => "Oikealle".to_owned(),
        Move::Down => "Alas".to_owned(),
        Move::Left => "Vasemmalle".to_owned(),
        Move::End => "END".to_owned(),
        Move::Start => "START".to_owned(),
        Move::Break => "BREAK".to_owned(),
    }
}

/// The middle of a sorted list, before it is halved: for an even length the
/// sum of the two middle elements and `true` (to be halved), for an odd
/// length the middle element and `false`.
pub fn median_operands(array: &Vec<usize>) -> (res: (usize, bool))
    requires
        array.len() > 0,
        array.len() % 2 == 0 ==> array@[array.len() as int / 2 - 1] + array@[array.len() as int / 2]
            <= usize::MAX,
    ensures
        array.len() % 2 == 0 ==> res == (
            (array@[array.len() as int / 2 - 1] + array@[array.len() as int / 2]) as usize,
            true,
        ),
        array.len() % 2 == 1 ==> res == (array@[array.len() as int / 2], false),
{
    if array.len() % 2 == 0 {
        let ind_left = array.len() / 2 - 1;
        let ind_right = array.len() / 2;
        (array[ind_left] + array[ind_right], true)
    } else {
        (array[array.len() / 2], false)
    }
}

// ---------------------------------------------------------------------------
// Counting
// ---------------------------------------------------------------------------

/// How often a move occurs in a list of moves.
pub open spec fn count_moves(s: Seq<Move>, m: Move) -> nat
    decreases s.len(),
{
    if s.len() == 0 {
        0
    } else {
        count_moves(s.drop_last(), m) + if s.last() == m {
            1nat
        } else {
            0nat
        }
    }
}

/// A move occurs at most as often as the list is long.
pub proof fn lemma_count_bounded(s: Seq<Move>, m: Move)
    ensures
        count_moves(s, m) <= s.len(),
    decreases s.len(),
{
    if s.len() > 0 {
        lemma_count_bounded(s.drop_last(), m);
    }
}

/// How often a move occurs in a list.
pub fn count_move(moves: &Vec<Move>, m: Move) -> (c: usize)
    ensures
        c == count_moves(moves@, m),
{
    let n = moves.len();
    let mut c: usize = 0;
    for k in 0..n
        invariant
            n == moves.len(),
            c == count_moves(moves@.take(k as int), m),
            c <= k,
    {
        assert(moves@.take(k + 1).drop_last() =~= moves@.take(k as int));
        if moves[k] == m {
            c = c + 1;
        }
    }
    assert(moves@.take(n as int) =~= moves@);
    c
}

// ---------------------------------------------------------------------------
// Tables
// ---------------------------------------------------------------------------

/// A row of a table of counts: a label, a count, and what the count is to be
/// divided by for its share or mean.
pub struct CountRow {
    pub label: String,
    pub count: usize,
    pub divisor: usize,
}

/// A table of counts under a header of three titles.
pub struct CountTable {
    pub header: Vec<String>,
    pub rows: Vec<CountRow>,
}

pub open spec fn row_is(r: CountRow, label: Seq<char>, count: int, divisor: int) -> bool {
    &&& r.label@ == label
    &&& r.count == count
    &&& r.divisor == divisor
}

pub open spec fn header_is(h: Seq<String>, a: Seq<char>, b: Seq<char>, c: Seq<char>) -> bool {
    &&& h.len() == 3
    &&& h[0]@ == a
    &&& h[1]@ == b
    &&& h[2]@ == c
}

/// The table of how often each direction occurs among `moves`: a row for up,
/// right, down and left with its count out of all moves, then the total.
pub open spec fn frequency_table_is(
    t: CountTable,
    moves: Seq<Move>,
    title: Seq<char>,
    share_title: Seq<char>,
) -> bool {
    let n = moves.len() as int;
    &&& header_is(t.header@, title, "f"@, share_title)
    &&& t.rows.len() == 5
    &&& row_is(t.rows@[0], "Ylös"@, count_moves(moves, Move::Up) as int, n)
    &&& row_is(t.rows@[1], "Oikealle"@, count_moves(moves, Move::Right) as int, n)
    &&& row_is(t.rows@[2], "Alas"@, count_moves(moves, Move::Down) as int, n)
    &&& row_is(t.rows@[3], "Vasemmalle"@, count_moves(moves, Move::Left) as int, n)
    &&& row_is(t.rows@[4], "Yhteensä"@, n, n)
}

fn text(s: &str) -> (r: String)
    ensures
        r@ == s@,
{
    s.to_owned()
}

fn header(a: &str, b: &str, c: &str) -> (h: Vec<String>)
    ensures
        header_is(h@, a@, b@, c@),
{
    let mut h: Vec<String> = Vec::new();
    h.push(text(a));
    h.push(text(b));
    h.push(text(c));
    h
}

fn count_row(label: &str, count: usize, divisor: usize) -> (r: CountRow)
    ensures
        row_is(r, label@, count as int, divisor as int),
{
    CountRow { label: text(label), count, divisor }
}

fn frequency_table(moves: &Vec<Move>, title: &str, share_title: &str) -> (t: CountTable)
    ensures
        frequency_table_is(t, moves@, title@, share_title@),
{
    let c = moves.len();
    let mut rows: Vec<CountRow> = Vec::new();
    rows.push(count_row("Ylös", count_move(moves, Move::Up), c));
    rows.push(count_row("Oikealle", count_move(moves, Move::Right), c));
    rows.push(count_row("Alas", count_move(moves, Move::Down), c));
    rows.push(count_row("Vasemmalle", count_move(moves, Move::Left), c));
    rows.push(count_row("Yhteensä", c, c));
    CountTable { header: header(title, "f", share_title), rows }
}

/// The table of first moves: how often each direction opens a game, out of
/// all games.
pub fn first_move_frequencies(first_moves: &Vec<Move>) -> (t: CountTable)
    ensures
        frequency_table_is(t, first_moves@, "Ensimmäinen siirto"@, "f%"@),
{
    frequency_table(first_moves, "Ensimmäinen siirto", "f%")
}

/// The table of all moves: how often each direction is played, out of all
/// moves.
pub fn move_frequencies(moves: &Vec<Move>) -> (t: CountTable)
    ensures
        frequency_table_is(t, moves@, "Suunta"@, "f_per"@),
{
    frequency_table(moves, "Suunta", "f_per")
}

// ---------------------------------------------------------------------------
// Scores by first move
// ---------------------------------------------------------------------------

/// The summed score of the games that open with `m`.
pub open spec fn score_sum(first_moves: Seq<Move>, scores: Seq<usize>, m: Move) -> nat
    decreases first_moves.len(),
{
    if first_moves.len() == 0 {
        0
    } else {
        score_sum(first_moves.drop_last(), scores.drop_last(), m) + if first_moves.last() == m {
            scores.last() as nat
        } else {
            0nat
        }
    }
}

/// The sum of all scores.
pub open spec fn total_score(scores: Seq<usize>) -> nat
    decreases scores.len(),
{
    if scores.len() == 0 {
        0
    } else {
        total_score(scores.drop_last()) + scores.last() as nat
    }
}

/// The table of scores by first move: for up, right, down and left the summed
/// score of the games that open with it, to be divided by how many do.
pub open spec fn score_table_is(t: CountTable, first_moves: Seq<Move>, scores: Seq<usize>) -> bool {
    &&& header_is(t.header@, "Suunta"@, "Pisteet"@, "Pisteet_avg"@)
    &&& t.rows.len() == 4
    &&& row_is(
        t.rows@[0],
        "Ylös"@,
        score_sum(first_moves, scores, Move::Up) as int,
        count_moves(first_moves, Move::Up) as int,
    )
    &&& row_is(
        t.rows@[1],
        "Oikealle"@,
        score_sum(first_moves, scores, Move::Right) as int,
        count_moves(first_moves, Move::Right) as int,
    )
    &&& row_is(
        t.rows@[2],
        "Alas"@,
        score_sum(first_moves, scores, Move::Down) as int,
        count_moves(first_moves, Move::Down) as int,
    )
    &&& row_is(
        t.rows@[3],
        "Vasemmalle"@,
        score_sum(first_moves, scores, Move::Left) as int,
        count_moves(first_moves, Move::Left) as int,
    )
}

/// No direction's summed score is above `usize::MAX`.
pub open spec fn score_sums_fit(first_moves: Seq<Move>, scores: Seq<usize>) -> bool {
    forall|m: Move| #[trigger] score_sum(first_moves, scores, m) <= usize::MAX
}

/// The summed score of a prefix is at most that of the whole list.
proof fn lemma_score_sum_prefix(first_moves: Seq<Move>, scores: Seq<usize>, m: Move, k: int)
    requires
        first_moves.len() == scores.len(),
        0 <= k <= scores.len(),
    ensures
        score_sum(first_moves.take(k), scores.take(k), m) <= score_sum(first_moves, scores, m),
    decreases scores.len() - k,
{
    if k < scores.len() {
        lemma_score_sum_prefix(first_moves, scores, m, k + 1);
        assert(first_moves.take(k + 1).drop_last() =~= first_moves.take(k));
        assert(scores.take(k + 1).drop_last() =~= scores.take(k));
    } else {
        assert(first_moves.take(k) =~= first_moves);
        assert(scores.take(k) =~= scores);
    }
}

/// The summed score of the games that open with `m`, or `None` where it is
/// above `usize::MAX`.
fn score_sum_checked(first_moves: &Vec<Move>, scores: &Vec<usize>, m: Move) -> (r: Option<usize>)
    requires
        first_moves.len() == scores.len(),
    ensures
        match r {
            Some(s) => s == score_sum(first_moves@, scores@, m),
            None => score_sum(first_moves@, scores@, m) > usize::MAX,
        },
{
    let n = first_moves.len();
    let mut sum: usize = 0;
    for k in 0..n
        invariant
            n == first_moves.len(),
            n == scores.len(),
            sum == score_sum(first_moves@.take(k as int), scores@.take(k as int), m),
    {
        assert(first_moves@.take(k + 1).drop_last() =~= first_moves@.take(k as int));
        assert(scores@.take(k + 1).drop_last() =~= scores@.take(k as int));
        if first_moves[k] == m {
            match sum.checked_add(scores[k]) {
                Some(t) => {
                    sum = t;
                },
                None => {
                    proof {
                        lemma_score_sum_prefix(first_moves@, scores@, m, k + 1);
                    }
                    return None;
                },
            }
        }
    }
    assert(first_moves@.take(n as int) =~= first_moves@);
    assert(scores@.take(n as int) =~= scores@);
    Some(sum)
}

/// Whether no direction's summed score is above `usize::MAX`.
fn score_sums_fit_exec(first_moves: &Vec<Move>, scores: &Vec<usize>) -> (b: bool)
    requires
        first_moves.len() == scores.len(),
    ensures
        b == score_sums_fit(first_moves@, scores@),
{
    let all = [Move::Up, Move::Right, Move::Down, Move::Left, Move::End, Move::Start, Move::Break];
    let mut k: usize = 0;
    while k < 7
        invariant
            all@ == seq![Move::Up, Move::Right, Move::Down, Move::Left, Move::End, Move::Start, Move::Break],
            k <= 7,
            forall|j: int| 0 <= j < k ==> score_sum(first_moves@, scores@, #[trigger] all@[j]) <= usize::MAX,
            first_moves.len() == scores.len(),
        decreases 7 - k,
    {
        if score_sum_checked(first_moves, scores, all[k]).is_none() {
            assert(!(score_sum(first_moves@, scores@, all@[k as int]) <= usize::MAX));
            return false;
        }
        k = k + 1;
    }
    assert forall|m: Move| #[trigger] score_sum(first_moves@, scores@, m) <= usize::MAX by {
        match m {
            Move::Up => assert(all@[0] == m),
            Move::Right => assert(all@[1] == m),
            Move::Down => assert(all@[2] == m),
            Move::Left => assert(all@[3] == m),
            Move::End => assert(all@[4] == m),
            Move::Start => assert(all@[5] == m),
            Move::Break => assert(all@[6] == m),
        }
    }
    true
}

/// The table of scores by first move, for games whose first moves and scores
/// are given in the same order.
pub fn first_move_score_table(first_moves: &Vec<Move>, scores: &Vec<usize>) -> (t: CountTable)
    requires
        first_moves.len() == scores.len(),
        score_sums_fit(first_moves@, scores@),
    ensures
        score_table_is(t, first_moves@, scores@),
{
    let s_up = checked_sum(first_moves, scores, Move::Up);
    let s_right = checked_sum(first_moves, scores, Move::Right);
    let s_down = checked_sum(first_moves, scores, Move::Down);
    let s_left = checked_sum(first_moves, scores, Move::Left);
    let mut rows: Vec<CountRow> = Vec::new();
    rows.push(count_row("Ylös", s_up, count_move(first_moves, Move::Up)));
    rows.push(count_row("Oikealle", s_right, count_move(first_moves, Move::Right)));
    rows.push(count_row("Alas", s_down, count_move(first_moves, Move::Down)));
    rows.push(count_row("Vasemmalle", s_left, count_move(first_moves, Move::Left)));
    CountTable { header: header("Suunta", "Pisteet", "Pisteet_avg"), rows }
}

fn checked_sum(first_moves: &Vec<Move>, scores: &Vec<usize>, m: Move) -> (s: usize)
    requires
        first_moves.len() == scores.len(),
        score_sums_fit(first_moves@, scores@),
    ensures
        s == score_sum(first_moves@, scores@, m),
{
    match score_sum_checked(first_moves, scores, m) {
        Some(s) => s,
        None => {
            assert(score_sum(first_moves@, scores@, m) <= usize::MAX);
            0
        },
    }
}

// ---------------------------------------------------------------------------
// From games to moves, scores and states
// ---------------------------------------------------------------------------

/// Why an analysis of a list of games could not be completed.
#[derive(Debug)]
pub enum AnalysisError {
    /// A recording did not parse; the engine's message.
    Parse(String),
    /// A recording did not reconstruct; the engine's message.
    Reconstruct(String),
    /// The final state of a recording could not be computed; the engine's message.
    GameState(String),
    /// A game has no move to read where the analysis reads one.
    EmptyGame,
    /// The summed score of a direction is above `usize::MAX`.
    ScoreOverflow,
}

/// The moves of a game's recording, as the engine parses them (none when it
/// does not parse).
pub open spec fn recorded_moves(g: Game) -> Seq<Move> {
    match parse_result(g.data_raw@) {
        Ok(ix) => moves_of_indices(ix),
        Err(_) => Seq::empty(),
    }
}

pub open spec fn all_parse(data: Seq<Game>) -> bool {
    forall|i: int| 0 <= i < data.len() ==> (#[trigger] parse_result(data[i].data_raw@)) is Ok
}

/// The first game whose recording does not parse fails with `e`.
pub open spec fn fails_to_parse_with(data: Seq<Game>, e: Seq<char>) -> bool {
    exists|i: int|
        0 <= i < data.len() && #[trigger] parse_result(data[i].data_raw@) == Err::<
            Seq<usize>,
            Seq<char>,
        >(e) && all_parse(data.take(i))
}

pub open spec fn all_reconstruct(data: Seq<Game>) -> bool {
    forall|i: int| 0 <= i < data.len() ==> (#[trigger] reconstruct_result(data[i].data_raw@)) is Ok
}

/// The first game whose recording does not reconstruct fails with `e`.
pub open spec fn fails_to_reconstruct_with(data: Seq<Game>, e: Seq<char>) -> bool {
    exists|i: int|
        0 <= i < data.len() && #[trigger] reconstruct_result(data[i].data_raw@) == Err::<
            ValidationSummary,
            Seq<char>,
        >(e) && all_reconstruct(data.take(i))
}

pub open spec fn all_have_state(data: Seq<Game>) -> bool {
    forall|i: int| 0 <= i < data.len() ==> (#[trigger] gamestate_result(data[i].data_raw@)) is Ok
}

/// The first game without a final state fails with `e`.
pub open spec fn fails_state_with(data: Seq<Game>, e: Seq<char>) -> bool {
    exists|i: int|
        0 <= i < data.len() && #[trigger] gamestate_result(data[i].data_raw@) == Err::<EngineStateView, Seq<char>>(e)
            && all_have_state(data.take(i))
}

/// Every game has at least one move.
pub open spec fn all_nonempty(data: Seq<Game>) -> bool {
    forall|i: int| 0 <= i < data.len() ==> (#[trigger] recorded_moves(data[i])).len() > 0
}

/// The first move of each game.
pub open spec fn first_moves(data: Seq<Game>) -> Seq<Move> {
    data.map_values(|g: Game| recorded_moves(g)[0])
}

/// The moves of all games, game after game.
pub open spec fn all_moves(data: Seq<Game>) -> Seq<Move>
    decreases data.len(),
{
    if data.len() == 0 {
        Seq::empty()
    } else {
        all_moves(data.drop_last()) + recorded_moves(data.last())
    }
}

fn parse_all(data: &Vec<Game>) -> (res: Result<Vec<ParsedGame>, String>)
    ensures
        res is Ok <==> all_parse(data@),
        res matches Ok(ps) ==> ps.len() == data.len() && forall|i: int|
            0 <= i < data.len() ==> (#[trigger] ps@[i]).moves@ == recorded_moves(data@[i]),
        res matches Err(e) ==> fails_to_parse_with(data@, e@),
{
    let n = data.len();
    let mut ps: Vec<ParsedGame> = Vec::new();
    for k in 0..n
        invariant
            n == data.len(),
            ps.len() == k,
            forall|i: int| 0 <= i < k ==> (#[trigger] parse_result(data@[i].data_raw@)) is Ok,
            forall|i: int| 0 <= i < k ==> (#[trigger] ps@[i]).moves@ == recorded_moves(data@[i]),
    {
        match parse_data(data[k].data_raw.clone()) {
            Ok(p) => {
                ps.push(p);
                assert(ps@[k as int] == p);
            },
            Err(e) => {
                assert(parse_result(data@[k as int].data_raw@) == Err::<Seq<usize>, Seq<char>>(e@));
                assert(all_parse(data@.take(k as int)));
                return Err(e);
            },
        }
    }
    Ok(ps)
}

fn reconstruct_all(data: &Vec<Game>) -> (res: Result<Vec<Reconstruction>, String>)
    ensures
        res is Ok <==> all_reconstruct(data@),
        res matches Ok(rs) ==> rs.len() == data.len() && forall|i: int|
            0 <= i < data.len() ==> reconstruct_result(data@[i].data_raw@) == Ok::<
                ValidationSummary,
                Seq<char>,
            >((#[trigger] rs@[i]).validation_data),
        res matches Err(e) ==> fails_to_reconstruct_with(data@, e@),
{
    let n = data.len();
    let mut rs: Vec<Reconstruction> = Vec::new();
    for k in 0..n
        invariant
            n == data.len(),
            rs.len() == k,
            forall|i: int|
                0 <= i < k ==> reconstruct_result(data@[i].data_raw@) == Ok::<
                    ValidationSummary,
                    Seq<char>,
                >((#[trigger] rs@[i]).validation_data),
    {
        match reconstruct_history(data[k].data_raw.clone()) {
            Ok(r) => {
                rs.push(r);
                assert(rs@[k as int] == r);
            },
            Err(e) => {
                assert(reconstruct_result(data@[k as int].data_raw@) == Err::<
                    ValidationSummary,
                    Seq<char>,
                >(e@));
                assert(all_reconstruct(data@.take(k as int))) by {
                    assert forall|i: int| 0 <= i < k implies (#[trigger] reconstruct_result(
                        data@.take(k as int)[i].data_raw@,
                    )) is Ok by {
                        assert(data@.take(k as int)[i] == data@[i]);
                        assert(reconstruct_result(data@[i].data_raw@) == Ok::<
                            ValidationSummary,
                            Seq<char>,
                        >(rs@[i].validation_data));
                    }
                }
                return Err(e);
            },
        }
    }
    proof {
        assert forall|i: int| 0 <= i < data.len() implies (#[trigger] reconstruct_result(
            data@[i].data_raw@,
        )) is Ok by {
            assert(reconstruct_result(data@[i].data_raw@) == Ok::<ValidationSummary, Seq<char>>(
                rs@[i].validation_data,
            ));
        }
    }
    Ok(rs)
}

fn gamestate_all(data: &Vec<Game>) -> (res: Result<Vec<GameSummary>, String>)
    ensures
        res is Ok <==> all_have_state(data@),
        res matches Err(e) ==> fails_state_with(data@, e@),
{
    let n = data.len();
    let mut states: Vec<GameSummary> = Vec::new();
    for k in 0..n
        invariant
            n == data.len(),
            forall|i: int| 0 <= i < k ==> (#[trigger] gamestate_result(data@[i].data_raw@)) is Ok,
    {
        match get_gamestate(data[k].data_raw.clone()) {
            Ok(st) => states.push(st),
            Err(e) => {
                assert(gamestate_result(data@[k as int].data_raw@) == Err::<EngineStateView, Seq<char>>(e@));
                assert(all_have_state(data@.take(k as int)));
                return Err(e);
            },
        }
    }
    Ok(states)
}

/// The score of a game: the highest score of its reconstruction (0 where
/// it does not reconstruct).
pub open spec fn recorded_score(g: Game) -> usize {
    match reconstruct_result(g.data_raw@) {
        Ok(v) => v.score,
        Err(_) => 0,
    }
}

/// The score of each game.
pub open spec fn game_scores(data: Seq<Game>) -> Seq<usize> {
    data.map_values(|g: Game| recorded_score(g))
}

// ---------------------------------------------------------------------------
// The analyses
// ---------------------------------------------------------------------------

/// How often each direction opens a game. Fails when a recording does not
/// parse, or when a game has no move.
pub fn try_analyze_frequence_move_first(data: &Vec<Game>) -> (res: Result<CountTable, AnalysisError>)
    ensures
        !all_parse(data@) <==> (res matches Err(AnalysisError::Parse(_))),
        res matches Err(AnalysisError::Parse(e)) ==> fails_to_parse_with(data@, e@),
        all_parse(data@) ==> (res is Ok <==> all_nonempty(data@)),
        all_parse(data@) && !all_nonempty(data@) ==> res matches Err(AnalysisError::EmptyGame),
        res matches Ok(t) ==> frequency_table_is(t, first_moves(data@), "Ensimmäinen siirto"@, "f%"@),
{
    let recordings = match parse_all(data) {
        Ok(r) => r,
        Err(e) => return Err(AnalysisError::Parse(e)),
    };
    let n = data.len();
    let mut moves_first: Vec<Move> = Vec::new();
    for k in 0..n
        invariant
            n == data.len(),
            recordings.len() == n,
            forall|i: int| 0 <= i < n ==> (#[trigger] recordings@[i]).moves@ == recorded_moves(data@[i]),
            moves_first.len() == k,
            all_parse(data@),
            forall|i: int| 0 <= i < k ==> (#[trigger] recorded_moves(data@[i])).len() > 0,
            forall|i: int| 0 <= i < k ==> moves_first@[i] == (#[trigger] recorded_moves(data@[i]))[0],
    {
        let moves = get_moves(&recordings[k]);
        assert(moves@ == recorded_moves(data@[k as int]));
        if moves.len() == 0 {
            return Err(AnalysisError::EmptyGame);
        }
        moves_first.push(moves[0]);
    }
    assert(moves_first@ =~= first_moves(data@));
    Ok(first_move_frequencies(&moves_first))
}

/// How often each direction is played over all games. Fails when a
/// recording does not parse.
pub fn try_analyze_frequence_moves(data: &Vec<Game>) -> (res: Result<CountTable, AnalysisError>)
    ensures
        res is Ok <==> all_parse(data@),
        res matches Err(e) ==> (e matches AnalysisError::Parse(m) && fails_to_parse_with(data@, m@)),
        res matches Ok(t) ==> frequency_table_is(t, all_moves(data@), "Suunta"@, "f_per"@),
{
    let recordings = match parse_all(data) {
        Ok(r) => r,
        Err(e) => return Err(AnalysisError::Parse(e)),
    };
    let n = data.len();
    let mut moves: Vec<Move> = Vec::new();
    for k in 0..n
        invariant
            n == data.len(),
            recordings.len() == n,
            forall|i: int| 0 <= i < n ==> (#[trigger] recordings@[i]).moves@ == recorded_moves(data@[i]),
            moves@ == all_moves(data@.take(k as int)),
    {
        let mut rec_moves = get_moves(&recordings[k]);
        assert(data@.take(k + 1).drop_last() =~= data@.take(k as int));
        moves.append(&mut rec_moves);
    }
    assert(data@.take(n as int) =~= data@);
    Ok(move_frequencies(&moves))
}

/// The summed and averaged score of the games by their first move, each
/// game with the score of its own reconstruction. Fails when a recording
/// does not parse, else when one does not reconstruct, else when one has no
/// final state, else when a game has no move, else when a summed score is
/// too large.
pub fn try_analyze_first_move_vs_score(data: &Vec<Game>) -> (res: Result<CountTable, AnalysisError>)
    ensures
        !all_parse(data@) <==> (res matches Err(AnalysisError::Parse(_))),
        res matches Err(AnalysisError::Parse(e)) ==> fails_to_parse_with(data@, e@),
        all_parse(data@) && !all_reconstruct(data@) <==> (res matches Err(AnalysisError::Reconstruct(_))),
        res matches Err(AnalysisError::Reconstruct(e)) ==> fails_to_reconstruct_with(data@, e@),
        all_parse(data@) && all_reconstruct(data@) && !all_have_state(data@) <==> res matches Err(
            AnalysisError::GameState(_),
        ),
        res matches Err(AnalysisError::GameState(e)) ==> fails_state_with(data@, e@),
        all_parse(data@) && all_reconstruct(data@) && all_have_state(data@) ==> ((res matches Err(
            AnalysisError::EmptyGame,
        )) <==> !all_nonempty(data@)),
        all_parse(data@) && all_reconstruct(data@) && all_have_state(data@) && all_nonempty(data@)
            ==> (res is Ok <==> score_sums_fit(first_moves(data@), game_scores(data@))),
        res matches Ok(t) ==> score_table_is(t, first_moves(data@), game_scores(data@)),
{
    let recordings = match parse_all(data) {
        Ok(r) => r,
        Err(e) => return Err(AnalysisError::Parse(e)),
    };
    let reconstructions = match reconstruct_all(data) {
        Ok(r) => r,
        Err(e) => return Err(AnalysisError::Reconstruct(e)),
    };
    match gamestate_all(data) {
        Ok(_) => {},
        Err(e) => return Err(AnalysisError::GameState(e)),
    }
    let n = data.len();
    let mut moves_first: Vec<Move> = Vec::new();
    let mut scores: Vec<usize> = Vec::new();
    for k in 0..n
        invariant
            n == data.len(),
            recordings.len() == n,
            reconstructions.len() == n,
            forall|i: int| 0 <= i < n ==> (#[trigger] recordings@[i]).moves@ == recorded_moves(data@[i]),
            forall|i: int|
                0 <= i < n ==> reconstruct_result(data@[i].data_raw@) == Ok::<
                    ValidationSummary,
                    Seq<char>,
                >((#[trigger] reconstructions@[i]).validation_data),
            moves_first.len() == k,
            scores.len() == k,
            all_parse(data@),
            all_reconstruct(data@),
            all_have_state(data@),
            forall|i: int| 0 <= i < k ==> (#[trigger] recorded_moves(data@[i])).len() > 0,
            forall|i: int| 0 <= i < k ==> moves_first@[i] == (#[trigger] recorded_moves(data@[i]))[0],
            forall|i: int| 0 <= i < k ==> scores@[i] == #[trigger] recorded_score(data@[i]),
    {
        let moves = get_moves(&recordings[k]);
        assert(moves@ == recorded_moves(data@[k as int]));
        if moves.len() == 0 {
            return Err(AnalysisError::EmptyGame);
        }
        moves_first.push(moves[0]);
        assert(reconstruct_result(data@[k as int].data_raw@) == Ok::<ValidationSummary, Seq<char>>(
            reconstructions@[k as int].validation_data,
        ));
        scores.push(reconstructions[k].validation_data.score);
    }
    assert(moves_first@ =~= first_moves(data@));
    assert(scores@ =~= game_scores(data@));
    if !score_sums_fit_exec(&moves_first, &scores) {
        return Err(AnalysisError::ScoreOverflow);
    }
    Ok(first_move_score_table(&moves_first, &scores))
}

/// A row of the general table: the client, the number of moves, the score,
/// and the names of the first and of the last played move.
pub struct GeneralRow {
    pub client: String,
    pub length: usize,
    pub score: usize,
    pub move_first: String,
    pub move_last: String,
}

/// The general table: its five titles and a row per game.
pub struct GeneralTable {
    pub header: Vec<String>,
    pub rows: Vec<GeneralRow>,
}

/// The last move that was played: the last move, or the one before it when
/// the last marks the end of the game.
pub open spec fn last_played(moves: Seq<Move>) -> Move {
    if moves.last() == Move::End {
        moves[moves.len() - 2]
    } else {
        moves.last()
    }
}

/// Moves of which a general row can be made: at least one, and at least two
/// where the last marks the end.
pub open spec fn row_ready(moves: Seq<Move>) -> bool {
    moves.len() > 0 && (moves.last() == Move::End ==> moves.len() >= 2)
}

pub open spec fn all_rows_ready(data: Seq<Game>) -> bool {
    forall|i: int| 0 <= i < data.len() ==> row_ready(#[trigger] recorded_moves(data[i]))
}

/// The general row of a game: its client, its number of moves, its score,
/// its first and its last played move.
pub open spec fn general_row_is(r: GeneralRow, g: Game) -> bool {
    let moves = recorded_moves(g);
    &&& r.client@ == client_name(g.client)
    &&& r.length == moves.len()
    &&& r.score == recorded_score(g)
    &&& r.move_first@ == move_label(moves[0])
    &&& r.move_last@ == move_label(last_played(moves))
}

/// The general row of a game.
pub fn general_row(client: String, moves: &Vec<Move>, score: usize) -> (row: GeneralRow)
    requires
        row_ready(moves@),
    ensures
        row.client == client,
        row.length == moves.len(),
        row.score == score,
        row.move_first@ == move_label(moves@[0]),
        row.move_last@ == move_label(last_played(moves@)),
{
    let length = moves.len();
    let move_first = moves[0];
    let move_last = if moves[length - 1] == Move::End {
        moves[length - 2]
    } else {
        moves[length - 1]
    };
    GeneralRow {
        client,
        length,
        score,
        move_first: move_to_str(move_first),
        move_last: move_to_str(move_last),
    }
}

pub open spec fn general_header_is(h: Seq<String>) -> bool {
    &&& h.len() == 5
    &&& h[0]@ == "client"@
    &&& h[1]@ == "game_length"@
    &&& h[2]@ == "score"@
    &&& h[3]@ == "move_first"@
    &&& h[4]@ == "move_last"@
}

/// The general table of a list of games: a row per game, each with the
/// score of its own reconstruction. Fails when a recording does not parse,
/// else when one does not reconstruct, else when a game has no move, or
/// ends with the end mark alone.
pub fn try_analyze_general(data: &Vec<Game>) -> (res: Result<GeneralTable, AnalysisError>)
    ensures
        !all_parse(data@) <==> (res matches Err(AnalysisError::Parse(_))),
        res matches Err(AnalysisError::Parse(e)) ==> fails_to_parse_with(data@, e@),
        all_parse(data@) && !all_reconstruct(data@) <==> (res matches Err(AnalysisError::Reconstruct(_))),
        res matches Err(AnalysisError::Reconstruct(e)) ==> fails_to_reconstruct_with(data@, e@),
        all_parse(data@) && all_reconstruct(data@) ==> (res is Ok <==> all_rows_ready(data@)),
        all_parse(data@) && all_reconstruct(data@) && !all_rows_ready(data@) ==> res matches Err(
            AnalysisError::EmptyGame,
        ),
        res matches Ok(t) ==> general_header_is(t.header@) && t.rows.len() == data.len() && forall|
            i: int,
        | 0 <= i < data.len() ==> general_row_is(#[trigger] t.rows@[i], data@[i]),
{
    let recordings = match parse_all(data) {
        Ok(r) => r,
        Err(e) => return Err(AnalysisError::Parse(e)),
    };
    let reconstructions = match reconstruct_all(data) {
        Ok(r) => r,
        Err(e) => return Err(AnalysisError::Reconstruct(e)),
    };
    let n = data.len();
    let mut rows: Vec<GeneralRow> = Vec::new();
    for k in 0..n
        invariant
            n == data.len(),
            recordings.len() == n,
            reconstructions.len() == n,
            forall|i: int| 0 <= i < n ==> (#[trigger] recordings@[i]).moves@ == recorded_moves(data@[i]),
            forall|i: int|
                0 <= i < n ==> reconstruct_result(data@[i].data_raw@) == Ok::<
                    ValidationSummary,
                    Seq<char>,
                >((#[trigger] reconstructions@[i]).validation_data),
            rows.len() == k,
            all_parse(data@),
            all_reconstruct(data@),
            forall|i: int| 0 <= i < k ==> row_ready(#[trigger] recorded_moves(data@[i])),
            forall|i: int| 0 <= i < k ==> general_row_is(#[trigger] rows@[i], data@[i]),
    {
        let moves = get_moves(&recordings[k]);
        assert(moves@ == recorded_moves(data@[k as int]));
        let len = moves.len();
        if len == 0 || (moves[len - 1] == Move::End && len < 2) {
            return Err(AnalysisError::EmptyGame);
        }
        let client = client_or_unknown(&data[k].client);
        assert(reconstruct_result(data@[k as int].data_raw@) == Ok::<ValidationSummary, Seq<char>>(
            reconstructions@[k as int].validation_data,
        ));
        let row = general_row(client, &moves, reconstructions[k].validation_data.score);
        rows.push(row);
        assert(rows@[k as int] == row);
    }
    let mut h: Vec<String> = Vec::new();
    h.push(text("client"));
    h.push(text("game_length"));
    h.push(text("score"));
    h.push(text("move_first"));
    h.push(text("move_last"));
    Ok(GeneralTable { header: h, rows })
}

// ---------------------------------------------------------------------------
// The analyses on the games for which they are defined
// ---------------------------------------------------------------------------

/// How often each direction opens a game, for games that all parse and all
/// have a move.
pub fn analyze_frequence_move_first(data: &Vec<Game>) -> (t: CountTable)
    requires
        all_parse(data@),
        all_nonempty(data@),
    ensures
        frequency_table_is(t, first_moves(data@), "Ensimmäinen siirto"@, "f%"@),
{
    match try_analyze_frequence_move_first(data) {
        Ok(t) => t,
        Err(_) => {
            assert(false);
            first_move_frequencies(&Vec::new())
        },
    }
}

/// How often each direction is played over all games, for games that all
/// parse.
pub fn analyze_frequence_moves(data: &Vec<Game>) -> (t: CountTable)
    requires
        all_parse(data@),
    ensures
        frequency_table_is(t, all_moves(data@), "Suunta"@, "f_per"@),
{
    match try_analyze_frequence_moves(data) {
        Ok(t) => t,
        Err(_) => {
            assert(false);
            move_frequencies(&Vec::new())
        },
    }
}

/// The scores by first move, for games that all parse, reconstruct and
/// have a final state and a move, with summed scores that fit.
pub fn analyze_first_move_vs_score(data: &Vec<Game>) -> (t: CountTable)
    requires
        all_parse(data@),
        all_reconstruct(data@),
        all_have_state(data@),
        all_nonempty(data@),
        score_sums_fit(first_moves(data@), game_scores(data@)),
    ensures
        score_table_is(t, first_moves(data@), game_scores(data@)),
{
    match try_analyze_first_move_vs_score(data) {
        Ok(t) => t,
        Err(_) => {
            assert(false);
            first_move_score_table(&Vec::new(), &Vec::new())
        },
    }
}

/// The general table, for games that all parse and reconstruct and of each
/// of which a row can be made.
pub fn analyze_general(data: &Vec<Game>) -> (t: GeneralTable)
    requires
        all_parse(data@),
        all_reconstruct(data@),
        all_rows_ready(data@),
    ensures
        general_header_is(t.header@),
        t.rows.len() == data.len(),
        forall|i: int| 0 <= i < data.len() ==> general_row_is(#[trigger] t.rows@[i], data@[i]),
{
    match try_analyze_general(data) {
        Ok(t) => t,
        Err(_) => {
            assert(false);
            GeneralTable { header: Vec::new(), rows: Vec::new() }
        },
    }
}

// ---------------------------------------------------------------------------
// Unpacking games into the database
// ---------------------------------------------------------------------------

/// What is stored of a recorded game: its moves and its validation data.
pub struct UnpackedGame {
    pub moves: Vec<Move>,
    pub validation: ValidationSummary,
}

/// Parses and reconstructs a recording. Fails with the engine's message when
/// it does not parse, else when it does not reconstruct.
pub fn unpack_game(data_raw: String) -> (res: Result<UnpackedGame, AnalysisError>)
    ensures
        match parse_result(data_raw@) {
            Err(e) => res matches Err(AnalysisError::Parse(m)) && m@ == e,
            Ok(ix) => match reconstruct_result(data_raw@) {
                Err(e) => res matches Err(AnalysisError::Reconstruct(m)) && m@ == e,
                Ok(v) => res matches Ok(u) && u.moves@ == moves_of_indices(ix) && u.validation == v,
            },
        },
{
    let parsed = match parse_data(data_raw.clone()) {
        Ok(p) => p,
        Err(e) => return Err(AnalysisError::Parse(e)),
    };
    let moves = get_moves(&parsed);
    let history = match reconstruct_history(data_raw) {
        Ok(h) => h,
        Err(e) => return Err(AnalysisError::Reconstruct(e)),
    };
    Ok(UnpackedGame { moves, validation: history.validation_data })
}

/// The rows stored for the moves of a game: for each move its engine index
/// and its position in the game.
pub fn move_rows(moves: &Vec<Move>) -> (rows: Vec<(i64, i64)>)
    ensures
        rows.len() == moves.len(),
        forall|i: int|
            0 <= i < moves.len() ==> #[trigger] rows@[i] == (
                moves@[i].index_of() as i64,
                i as i64,
            ),
{
    let n = moves.len();
    let mut rows: Vec<(i64, i64)> = Vec::new();
    for k in 0..n
        invariant
            n == moves.len(),
            rows.len() == k,
            forall|i: int|
                0 <= i < k ==> #[trigger] rows@[i] == (moves@[i].index_of() as i64, i as i64),
    {
        let dir_index = moves[k].index();
        rows.push((dir_index as i64, k as i64));
    }
    rows
}

/// The stored validation data: score, end score, score margin and breaks.
pub fn validation_row(validation: &ValidationSummary) -> (row: (i64, i64, i64, i64))
    ensures
        row == (
            validation.score as i64,
            validation.score_end as i64,
            validation.score_margin as i64,
            validation.breaks as i64,
        ),
{
    (
        validation.score as i64,
        validation.score_end as i64,
        validation.score_margin as i64,
        validation.breaks as i64,
    )
}

/// Every how many games unpacking reports its progress.
pub const PROGRESS_EVERY: usize = 100;

/// Every how many games unpacking waits for its pending writes.
pub const UNPACK_BATCH: usize = 200;

/// Every how many games saving waits for its pending writes.
pub const SAVE_BATCH: usize = 400;

/// Whether the game at position `i` closes a round of `every` games: it
/// does at every multiple of `every`, the first game included.
pub fn is_round_end(i: usize, every: usize) -> (due: bool)
    requires
        every > 0,
    ensures
        due == (i % every == 0),
{
    i % every == 0
}

// ---------------------------------------------------------------------------
// Laws
// ---------------------------------------------------------------------------

/// Each move is counted once: the counts of the seven moves add up to the
/// number of moves.
pub proof fn lemma_counts_partition(s: Seq<Move>)
    ensures
        count_moves(s, Move::Up) + count_moves(s, Move::Right) + count_moves(s, Move::Down)
            + count_moves(s, Move::Left) + count_moves(s, Move::End) + count_moves(s, Move::Start)
            + count_moves(s, Move::Break) == s.len(),
    decreases s.len(),
{
    if s.len() > 0 {
        lemma_counts_partition(s.drop_last());
    }
}

/// The counts of a list of moves appended to another are the sums of their
/// counts.
pub proof fn lemma_count_append(a: Seq<Move>, b: Seq<Move>, m: Move)
    ensures
        count_moves(a + b, m) == count_moves(a, m) + count_moves(b, m),
    decreases b.len(),
{
    if b.len() == 0 {
        assert(a + b =~= a);
    } else {
        lemma_count_append(a, b.drop_last(), m);
        assert((a + b).drop_last() =~= a + b.drop_last());
        assert((a + b).last() == b.last());
    }
}

/// In a table of moves the four directions together count at most the total.
pub proof fn lemma_frequency_rows_within_total(t: CountTable, moves: Seq<Move>, title: Seq<char>, share_title: Seq<char>)
    requires
        frequency_table_is(t, moves, title, share_title),
    ensures
        t.rows@[0].count + t.rows@[1].count + t.rows@[2].count + t.rows@[3].count
            <= t.rows@[4].count,
{
    lemma_counts_partition(moves);
}

/// How often a direction is played over all games is the sum, over the
/// games, of how often each plays it.
pub proof fn lemma_all_moves_count(data: Seq<Game>, m: Move)
    ensures
        count_moves(all_moves(data), m) == games_count(data, m),
    decreases data.len(),
{
    if data.len() > 0 {
        lemma_all_moves_count(data.drop_last(), m);
        lemma_count_append(all_moves(data.drop_last()), recorded_moves(data.last()), m);
    }
}

/// How often a move is played, summed over the games one by one.
pub open spec fn games_count(data: Seq<Game>, m: Move) -> nat
    decreases data.len(),
{
    if data.len() == 0 {
        0
    } else {
        games_count(data.drop_last(), m) + count_moves(recorded_moves(data.last()), m)
    }
}

/// The number of all moves is the sum of the games' lengths.
pub proof fn lemma_all_moves_len(data: Seq<Game>)
    ensures
        all_moves(data).len() == games_len(data),
    decreases data.len(),
{
    if data.len() > 0 {
        lemma_all_moves_len(data.drop_last());
    }
}

/// The lengths of the games, summed.
pub open spec fn games_len(data: Seq<Game>) -> nat
    decreases data.len(),
{
    if data.len() == 0 {
        0
    } else {
        games_len(data.drop_last()) + recorded_moves(data.last()).len()
    }
}

/// The scores summed by first move add up to at most all scores.
pub proof fn lemma_score_sums_within_total(first_moves: Seq<Move>, scores: Seq<usize>)
    requires
        first_moves.len() == scores.len(),
    ensures
        score_sum(first_moves, scores, Move::Up) + score_sum(first_moves, scores, Move::Right)
            + score_sum(first_moves, scores, Move::Down) + score_sum(first_moves, scores, Move::Left)
            <= total_score(scores),
    decreases first_moves.len(),
{
    if first_moves.len() > 0 {
        lemma_score_sums_within_total(first_moves.drop_last(), scores.drop_last());
    }
}

/// A move's engine index gives the move back: the stored index of a move
/// identifies it.
pub proof fn lemma_index_round_trip(m: Move)
    ensures
        Move::with_index(m.index_of()) == m,
        m.index_of() <= 6,
{
}

/// The last played move of a game is the move just before a final end
/// mark, and otherwise the game's last move, whatever the game's length.
pub proof fn lemma_last_played_before_end(s: Seq<Move>, x: Move)
    ensures
        last_played(s.push(x).push(Move::End)) == x,
        x != Move::End ==> last_played(s.push(x)) == x,
{
    let t = s.push(x).push(Move::End);
    assert(t[t.len() - 2] == x);
}

/// The opening move of each game is the move at index 0 of its recording:
/// there is one opening move per game, in the games' order, and adding a
/// game adds its first move.
pub proof fn lemma_first_moves_open_each_game(data: Seq<Game>, g: Game)
    ensures
        first_moves(data).len() == data.len(),
        forall|i: int|
            0 <= i < data.len() ==> #[trigger] first_moves(data)[i] == recorded_moves(data[i])[0],
        first_moves(data.push(g)) == first_moves(data).push(recorded_moves(g)[0]),
{
    assert(first_moves(data.push(g)) =~= first_moves(data).push(recorded_moves(g)[0]));
}

} // verus!
