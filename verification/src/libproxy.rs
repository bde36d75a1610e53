//! The game engine's view of a recording: its moves, its validation data,
//! whether it validates and its hash, each obtained from
//! `twothousand_forty_eight`.

use twothousand_forty_eight::unified::ParseResult;
use vstd::prelude::*;

use crate::engine_input::{parse_domain, parse_ready, replay_domain, replay_ready};

verus! {

/// A move of a recorded game, in the engine's own order
/// (up, right, down, left, end, start, break).
#[derive(Clone, Copy, Debug, PartialEq, Eq, Structural)]
pub enum Move {
    Up,
    Right,
    Down,
    Left,
    End,
    Start,
    Break,
}

impl Move {
    /// The engine's index of a move: up 0, right 1, down 2, left 3,
    /// end 4, start 5, break 6.
    pub open spec fn index_of(self) -> nat {
        match self {
            Move::Up => 0,
            Move::Right => 1,
            Move::Down => 2,
            Move::Left => 3,
            Move::End => 4,
            Move::Start => 5,
            Move::Break => 6,
        }
    }

    /// The move with a given engine index; every index above 6 stands for a break.
    pub open spec fn with_index(i: nat) -> Move {
        if i == 0 {
            Move::Up
        } else if i == 1 {
            Move::Right
        } else if i == 2 {
            Move::Down
        } else if i == 3 {
            Move::Left
        } else if i == 4 {
            Move::End
        } else if i == 5 {
            Move::Start
        } else {
            Move::Break
        }
    }

    /// The engine's index of this move.
    pub fn index(&self) -> (i: usize)
        ensures
            i == self.index_of(),
    {
        match self {
            Move::Up => 0,
            Move::Right => 1,
            Move::Down => 2,
            Move::Left => 3,
            Move::End => 4,
            Move::Start => 5,
            Move::Break => 6,
        }
    }

    /// The move that the engine numbers `i`, for `i` at most 6.
    pub fn from_index(i: usize) -> (m: Move)
        requires
            i <= 6,
        ensures
            m == Move::with_index(i as nat),
            m.index_of() == i,
    {
        if i == 0 {
            Move::Up
        } else if i == 1 {
            Move::Right
        } else if i == 2 {
            Move::Down
        } else if i == 3 {
            Move::Left
        } else if i == 4 {
            Move::End
        } else if i == 5 {
            Move::Start
        } else {
            Move::Break
        }
    }
}

/// The moves that a sequence of engine indices stands for.
pub open spec fn moves_of_indices(ix: Seq<usize>) -> Seq<Move> {
    ix.map_values(|i: usize| Move::with_index(i as nat))
}

/// What `twothousand_forty_eight::unified::parse` makes of a recording:
/// the engine indices of its moves, or the text of its error.
pub uninterp spec fn parse_outcome(data: Seq<char>) -> Result<Seq<usize>, Seq<char>>;

/// Calls `twothousand_forty_eight::unified::parse` and keeps of the parsed
/// recording the index (`Direction::get_index`) of each move: the moves of a
/// version 1 recording are the directions of its history, those of a version 2
/// recording its `moves`. The contract claims that the result is the one named
/// by `parse_outcome` for the text, and, as `get_index` shows, that no index is
/// above 6. Which recordings parse is not stated. It is called only on the
/// recordings of `parse_domain`, on which the engine does not panic.
#[verifier::external_body]
pub(crate) fn unified_parse(data: &str) -> (res: Result<Vec<usize>, String>)
    requires
        parse_domain(data@),
    ensures
        match res {
            Ok(ix) => parse_outcome(data@) == Ok::<Seq<usize>, Seq<char>>(ix@)
                && forall|i: int| 0 <= i < ix.len() ==> ix@[i] <= 6,
            Err(e) => parse_outcome(data@) == Err::<Seq<usize>, Seq<char>>(e@),
        },
{
    match twothousand_forty_eight::unified::parse(data) {
        Ok(ParseResult::V1(rec)) => Ok(rec.history.iter().map(|step| step.1.get_index()).collect()),
        Ok(ParseResult::V2(rec)) => Ok(rec.moves.iter().map(|d| d.get_index()).collect()),
        Err(e) => Err(e.to_string()),
    }
}

/// A parsed recording, as far as the analyses read it: its moves in order.
pub struct ParsedGame {
    pub moves: Vec<Move>,
}

/// The text with which a recording outside the engine's domain is refused.
pub open spec fn unsupported_message() -> Seq<char> {
    "unsupported recording"@
}

fn unsupported() -> (m: String)
    ensures
        m@ == unsupported_message(),
{
    "unsupported recording".to_owned()
}

/// What parsing a recording gives: the engine's outcome on the recordings it
/// can parse, else the refusal.
pub open spec fn parse_result(data: Seq<char>) -> Result<Seq<usize>, Seq<char>> {
    if parse_domain(data) {
        parse_outcome(data)
    } else {
        Err(unsupported_message())
    }
}

/// Parses a recording. A recording outside the engine's domain is refused;
/// otherwise, on success the moves are those that the engine parsed, in
/// order, and on failure the error is the engine's message.
pub fn parse_data(data: String) -> (res: Result<ParsedGame, String>)
    ensures
        match parse_result(data@) {
            Ok(ix) => res matches Ok(p) && p.moves@ == moves_of_indices(ix),
            Err(e) => res matches Err(m) && m@ == e,
        },
{
    if !parse_ready(data.as_str()) {
        return Err(unsupported());
    }
    match unified_parse(data.as_str()) {
        Ok(ix) => {
            let mut moves: Vec<Move> = Vec::new();
            let n = ix.len();
            for k in 0..n
                invariant
                    n == ix.len(),
                    forall|i: int| 0 <= i < ix.len() ==> ix@[i] <= 6,
                    moves@ == moves_of_indices(ix@.take(k as int)),
            {
                moves.push(Move::from_index(ix[k]));
                assert(moves_of_indices(ix@.take(k + 1)) =~= moves_of_indices(ix@.take(k as int)).push(
                    Move::with_index(ix@[k as int] as nat),
                ));
            }
            assert(ix@.take(n as int) =~= ix@);
            Ok(ParsedGame { moves })
        },
        Err(e) => Err(e),
    }
}

/// The validation data of a reconstructed game, as far as it is stored and analysed.
#[derive(Clone, Copy, Debug, PartialEq, Eq, Structural)]
pub struct ValidationSummary {
    /// The highest score reached during the game.
    pub score: usize,
    /// The score at the end of the game.
    pub score_end: usize,
    /// The error margin of the score.
    pub score_margin: usize,
    /// How many breaks were used.
    pub breaks: usize,
}

/// A reconstructed history, as far as the analyses read it.
#[derive(Clone, Copy, Debug, PartialEq, Eq, Structural)]
pub struct Reconstruction {
    pub validation_data: ValidationSummary,
}

/// What `twothousand_forty_eight::unified::reconstruct` makes of a recording:
/// the validation data of the reconstructed history, or the text of its error.
pub uninterp spec fn reconstruct_outcome(data: Seq<char>) -> Result<ValidationSummary, Seq<char>>;

/// Calls `twothousand_forty_eight::unified::reconstruct` and keeps the four
/// counters of the reconstruction's `validation_data`. The contract claims that
/// the result is the one named by `reconstruct_outcome` for the text. Which
/// recordings reconstruct, and the values of the counters, are not stated.
/// It is called only on the recordings of `replay_domain`, on which the
/// engine does not panic.
#[verifier::external_body]
fn unified_reconstruct(data: &str) -> (res: Result<ValidationSummary, String>)
    requires
        replay_domain(data@),
    ensures
        match res {
            Ok(v) => reconstruct_outcome(data@) == Ok::<ValidationSummary, Seq<char>>(v),
            Err(e) => reconstruct_outcome(data@) == Err::<ValidationSummary, Seq<char>>(e@),
        },
{
    match twothousand_forty_eight::unified::reconstruct(data) {
        Ok(h) => Ok(ValidationSummary {
            score: h.validation_data.score,
            score_end: h.validation_data.score_end,
            score_margin: h.validation_data.score_margin,
            breaks: h.validation_data.breaks,
        }),
        Err(e) => Err(e.to_string()),
    }
}

/// What reconstructing a recording gives: the engine's outcome on the
/// recordings it can replay, else the refusal.
pub open spec fn reconstruct_result(data: Seq<char>) -> Result<ValidationSummary, Seq<char>> {
    if replay_domain(data) {
        reconstruct_outcome(data)
    } else {
        Err(unsupported_message())
    }
}

/// Reconstructs the history of a recording. A recording outside the engine's
/// domain is refused; otherwise on success the validation data is the
/// engine's, and on failure the error is the engine's message.
pub fn reconstruct_history(data: String) -> (res: Result<Reconstruction, String>)
    ensures
        match reconstruct_result(data@) {
            Ok(v) => res == Ok::<Reconstruction, String>(Reconstruction { validation_data: v }),
            Err(e) => res matches Err(m) && m@ == e,
        },
{
    if !replay_ready(data.as_str()) {
        return Err(unsupported());
    }
    match unified_reconstruct(data.as_str()) {
        Ok(v) => Ok(Reconstruction { validation_data: v }),
        Err(e) => Err(e),
    }
}

/// The final state of a game as the engine reports it: the scores, the
/// breaks, the engine indices of the moves still allowed, whether the game is
/// over or won, the board's size, and the tile values of the engine's 6 by 6
/// tile array, row after row (`None` where the array holds no tile).
pub struct EngineState {
    pub score_current: usize,
    pub score_max: usize,
    pub breaks: usize,
    pub allowed_moves: Vec<usize>,
    pub over: bool,
    pub won: bool,
    pub width: usize,
    pub height: usize,
    pub tiles: Vec<Option<usize>>,
}

/// An engine state by its plain values.
pub struct EngineStateView {
    pub score_current: usize,
    pub score_max: usize,
    pub breaks: usize,
    pub allowed_moves: Seq<usize>,
    pub over: bool,
    pub won: bool,
    pub width: usize,
    pub height: usize,
    pub tiles: Seq<Option<usize>>,
}

pub open spec fn engine_state_view(e: EngineState) -> EngineStateView {
    EngineStateView {
        score_current: e.score_current,
        score_max: e.score_max,
        breaks: e.breaks,
        allowed_moves: e.allowed_moves@,
        over: e.over,
        won: e.won,
        width: e.width,
        height: e.height,
        tiles: e.tiles@,
    }
}

/// What `twothousand_forty_eight::unified::get_gamestate` makes of a
/// recording: the final state, or the text of its error.
pub uninterp spec fn gamestate_outcome(data: Seq<char>) -> Result<EngineStateView, Seq<char>>;

/// Calls `twothousand_forty_eight::unified::get_gamestate` and keeps the
/// state's `score_current`, `score_max`, `breaks`, `over` and `won`, the
/// index (`Direction::get_index`) of each of its `allowed_moves`, its board's
/// `width` and `height`, and the value of each entry of the board's tile
/// array, row after row. The contract claims that the result is the one named
/// by `gamestate_outcome` for the text, that no index is above 6 (as
/// `get_index` shows), and that the array has 36 entries (`Tiles` is 6 by 6).
/// It is called only on the recordings of `replay_domain`, on which the
/// engine does not panic.
#[verifier::external_body]
fn unified_gamestate(data: &str) -> (res: Result<EngineState, String>)
    requires
        replay_domain(data@),
    ensures
        match res {
            Ok(g) => gamestate_outcome(data@) == Ok::<EngineStateView, Seq<char>>(engine_state_view(g))
                && g.tiles.len() == 36
                && forall|i: int| 0 <= i < g.allowed_moves.len() ==> g.allowed_moves@[i] <= 6,
            Err(e) => gamestate_outcome(data@) == Err::<EngineStateView, Seq<char>>(e@),
        },
{
    match twothousand_forty_eight::unified::get_gamestate(data) {
        Ok(g) => Ok(EngineState {
            score_current: g.score_current,
            score_max: g.score_max,
            breaks: g.breaks,
            allowed_moves: g.allowed_moves.iter().map(|d| d.get_index()).collect(),
            over: g.over,
            won: g.won,
            width: g.board.width,
            height: g.board.height,
            tiles: g.board.tiles.iter().flatten().map(|t| t.as_ref().map(|t| t.value)).collect(),
        }),
        Err(e) => Err(e.to_string()),
    }
}

/// The final state of a recorded game.
pub struct GameSummary {
    /// The score at the end.
    pub score_current: usize,
    /// The highest score reached.
    pub score_max: usize,
    /// The breaks used.
    pub breaks: usize,
    /// The moves still allowed.
    pub allowed_moves: Vec<Move>,
    /// Whether no move is possible any more.
    pub over: bool,
    /// Whether a tile of 2048 or more was reached.
    pub won: bool,
    pub width: usize,
    pub height: usize,
    /// The tile values of the 6 by 6 tile array, row after row; `None`
    /// where there is no tile.
    pub tiles: Vec<Option<usize>>,
}

/// A summary that shows the engine's state.
pub open spec fn summary_of(g: GameSummary, v: EngineStateView) -> bool {
    &&& g.score_current == v.score_current
    &&& g.score_max == v.score_max
    &&& g.breaks == v.breaks
    &&& g.allowed_moves@ == moves_of_indices(v.allowed_moves)
    &&& g.over == v.over
    &&& g.won == v.won
    &&& g.width == v.width
    &&& g.height == v.height
    &&& g.tiles@ == v.tiles
}

/// What computing the final state of a recording gives: the engine's outcome
/// on the recordings it can replay, else the refusal.
pub open spec fn gamestate_result(data: Seq<char>) -> Result<EngineStateView, Seq<char>> {
    if replay_domain(data) {
        gamestate_outcome(data)
    } else {
        Err(unsupported_message())
    }
}

/// Computes the final state of a recorded game. A recording outside the
/// engine's domain is refused; otherwise on success the state is the
/// engine's, and on failure the error is the engine's message.
pub fn get_gamestate(data: String) -> (res: Result<GameSummary, String>)
    ensures
        match gamestate_result(data@) {
            Ok(v) => res matches Ok(g) && summary_of(g, v),
            Err(e) => res matches Err(m) && m@ == e,
        },
{
    if !replay_ready(data.as_str()) {
        return Err(unsupported());
    }
    match unified_gamestate(data.as_str()) {
        Ok(g) => {
            let ix = g.allowed_moves;
            let mut moves: Vec<Move> = Vec::new();
            let n = ix.len();
            for k in 0..n
                invariant
                    n == ix.len(),
                    forall|i: int| 0 <= i < ix.len() ==> ix@[i] <= 6,
                    moves@ == moves_of_indices(ix@.take(k as int)),
            {
                moves.push(Move::from_index(ix[k]));
                assert(moves_of_indices(ix@.take(k + 1)) =~= moves_of_indices(ix@.take(k as int)).push(
                    Move::with_index(ix@[k as int] as nat),
                ));
            }
            assert(ix@.take(n as int) =~= ix@);
            Ok(GameSummary {
                score_current: g.score_current,
                score_max: g.score_max,
                breaks: g.breaks,
                allowed_moves: moves,
                over: g.over,
                won: g.won,
                width: g.width,
                height: g.height,
                tiles: g.tiles,
            })
        },
        Err(e) => Err(e),
    }
}

/// Whether `twothousand_forty_eight::unified::validate` accepts a recording.
pub uninterp spec fn validates(data: Seq<char>) -> bool;

/// Calls `twothousand_forty_eight::unified::validate` and tells whether it
/// succeeded. The contract claims that the answer is the one named by
/// `validates` for the text; which recordings validate is not stated. It is
/// called only on the recordings of `replay_domain`, on which the engine
/// does not panic.
#[verifier::external_body]
fn validate_recording(data: &str) -> (ok: bool)
    requires
        replay_domain(data@),
    ensures
        ok == validates(data@),
{
    twothousand_forty_eight::unified::validate(data).is_ok()
}

/// A recording that the engine can replay and validates.
pub open spec fn accepted(data: Seq<char>) -> bool {
    replay_domain(data) && validates(data)
}

/// Whether a recording is in the engine's domain and validates.
pub fn is_valid_recording(data: &str) -> (ok: bool)
    ensures
        ok == accepted(data@),
{
    replay_ready(data) && validate_recording(data)
}

/// What `twothousand_forty_eight::unified::hash` makes of a recording: its
/// hash, or `None` when it fails.
pub uninterp spec fn hash_outcome(data: Seq<char>) -> Option<Seq<char>>;

/// Calls `twothousand_forty_eight::unified::hash`, dropping the error. The
/// contract claims that the result is the one named by `hash_outcome` for the
/// text; the hash's form is not stated. It is called only on the recordings
/// of `parse_domain`, on which the engine does not panic.
#[verifier::external_body]
fn hash_recording(data: &str) -> (res: Option<String>)
    requires
        parse_domain(data@),
    ensures
        match res {
            Some(h) => hash_outcome(data@) == Some(h@),
            None => hash_outcome(data@) is None,
        },
{
    twothousand_forty_eight::unified::hash(data).ok()
}

/// What hashing a recording gives: the engine's hash on the recordings it can
/// parse; `None` for the others and where the engine fails.
pub open spec fn hash_result(data: Seq<char>) -> Option<Seq<char>> {
    if parse_domain(data) {
        hash_outcome(data)
    } else {
        None
    }
}

/// The hash of a recording, or `None` when it is outside the engine's domain
/// or the engine cannot hash it.
pub fn hash_of_recording(data: &str) -> (res: Option<String>)
    ensures
        match res {
            Some(h) => hash_result(data@) == Some(h@),
            None => hash_result(data@) is None,
        },
{
    if !parse_ready(data) {
        return None;
    }
    hash_recording(data)
}

/// The moves of a parsed recording, in order.
pub fn get_moves(rec: &ParsedGame) -> (moves: Vec<Move>)
    ensures
        moves@ == rec.moves@,
{
    let mut moves: Vec<Move> = Vec::new();
    let n = rec.moves.len();
    for k in 0..n
        invariant
            n == rec.moves.len(),
            moves@ == rec.moves@.take(k as int),
    {
        moves.push(rec.moves[k]);
        assert(rec.moves@.take(k + 1) =~= rec.moves@.take(k as int).push(rec.moves@[k as int]));
    }
    assert(rec.moves@.take(n as int) =~= rec.moves@);
    moves
}

} // verus!
