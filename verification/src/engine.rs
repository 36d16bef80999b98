//! The rules engine as the library sees it.
//!
//! Board representation, move generation and the detection of mate and draws
//! belong to the `chess` crate. The library speaks to it in plain values:
//! position texts, square numbers, small enums. The functions that call the
//! engine are believed, not proved. Each states what the engine's source
//! shows of the call it makes, and where the result takes pages to describe,
//! a name stands for it.

use vstd::prelude::*;
use core::str::FromStr;
use crate::position::plausible;

verus! {

/// One of the two sides.
#[derive(Clone, Copy, Debug, PartialEq, Eq, Structural)]
pub enum Side {
    White,
    Black,
}

/// Whether play can go on from a position.
#[derive(Clone, Copy, Debug, PartialEq, Eq, Structural)]
pub enum Status {
    Ongoing,
    Stalemate,
    Checkmate,
}

/// How a game ended.
#[derive(Clone, Copy, Debug, PartialEq, Eq, Structural)]
pub enum GameResult {
    WhiteCheckmates,
    WhiteResigns,
    BlackCheckmates,
    BlackResigns,
    Stalemate,
    DrawAccepted,
    DrawDeclared,
}

/// A move: the square a piece leaves, the square it reaches, and the piece a
/// pawn turns into on the last rank.
///
/// Squares are numbered from 0 (a1) along the ranks to 63 (h8); pieces from
/// 0 (pawn) through knight, bishop, rook and queen to 5 (king).
#[derive(Clone, Copy, Debug, PartialEq, Eq, Structural)]
pub struct Move {
    pub from: u8,
    pub to: u8,
    pub promotion: Option<u8>,
}

impl Move {
    /// Whether the squares and the piece are numbers that the engine knows.
    pub open spec fn in_range(self) -> bool {
        &&& self.from < 64
        &&& self.to < 64
        &&& self.promotion matches Some(piece) ==> piece < 6
    }

    /// Whether the squares and the piece are numbers that the engine knows.
    pub fn is_in_range(&self) -> (r: bool)
        ensures
            r == self.in_range(),
    {
        self.from < 64 && self.to < 64 && match self.promotion {
            Some(piece) => piece < 6,
            None => true,
        }
    }
}

/// One entry in the record of a game.
#[derive(Clone, Copy, Debug, PartialEq, Eq, Structural)]
pub enum Action {
    MakeMove(Move),
    OfferDraw(Side),
    AcceptDraw,
    DeclareDraw,
    Resign(Side),
}

/// Whether the engine reads `text` as a position and finds it sound.
pub uninterp spec fn engine_accepts(text: Seq<u8>) -> bool;

/// Whose turn it is in the position `text`.
pub uninterp spec fn side_to_move_of(text: Seq<u8>) -> Side;

/// Whether play can go on from the position `text`.
pub uninterp spec fn status_of(text: Seq<u8>) -> Status;

/// The legal moves in the position `text`, in the order in which the engine
/// lists them.
pub uninterp spec fn legal_moves_of(text: Seq<u8>) -> Seq<Move>;

/// The text of the position that the move `m` leads to from `text`.
pub uninterp spec fn position_after(text: Seq<u8>, m: Move) -> Seq<u8>;

/// `chess::Board::from_str`: whether the engine takes `text` for a position.
/// The answer depends on the text alone. The caller has checked the board
/// field, because the engine looks for the king of the side to move before it
/// has made sure that there is one.
#[verifier::external_body]
pub(crate) fn engine_accepts_text(text: &[u8]) -> (r: bool)
    requires
        plausible(text@),
    ensures
        r == engine_accepts(text@),
{
    match core::str::from_utf8(text) {
        Ok(s) => chess::Board::from_str(s).is_ok(),
        Err(_) => false,
    }
}

/// `chess::Board::side_to_move`, on the board that the engine reads from
/// `text`.
#[verifier::external_body]
pub(crate) fn engine_side_to_move(text: &[u8]) -> (r: Side)
    requires
        plausible(text@),
        engine_accepts(text@),
    ensures
        r == side_to_move_of(text@),
{
    let board = chess::Board::from_str(core::str::from_utf8(text).unwrap()).unwrap();
    match board.side_to_move() {
        chess::Color::White => Side::White,
        chess::Color::Black => Side::Black,
    }
}

/// `chess::Board::status`, on the board that the engine reads from `text`.
#[verifier::external_body]
pub(crate) fn engine_status(text: &[u8]) -> (r: Status)
    requires
        plausible(text@),
        engine_accepts(text@),
    ensures
        r == status_of(text@),
{
    let board = chess::Board::from_str(core::str::from_utf8(text).unwrap()).unwrap();
    match board.status() {
        chess::BoardStatus::Ongoing => Status::Ongoing,
        chess::BoardStatus::Stalemate => Status::Stalemate,
        chess::BoardStatus::Checkmate => Status::Checkmate,
    }
}

/// `chess::MoveGen::new_legal`, walked to its end, on the board that the
/// engine reads from `text`. The moves come in the engine's own order. Their
/// squares and promotion pieces are the engine's, so they are in range. The
/// caller has checked that neither side has more than sixteen pieces: the
/// engine writes the movers into a list of eighteen entries without looking
/// at its length.
#[verifier::external_body]
pub(crate) fn engine_legal_moves(text: &[u8]) -> (r: Vec<Move>)
    requires
        plausible(text@),
        engine_accepts(text@),
    ensures
        r@ == legal_moves_of(text@),
        forall|i: int| 0 <= i < r@.len() ==> (#[trigger] r@[i]).in_range(),
{
    let board = chess::Board::from_str(core::str::from_utf8(text).unwrap()).unwrap();
    chess::MoveGen::new_legal(&board).map(|m| Move {
        from: m.get_source().to_int(),
        to: m.get_dest().to_int(),
        promotion: m.get_promotion().map(|p| p.to_index() as u8),
    }).collect()
}

/// `chess::Board::make_move_new`, on the board that the engine reads from
/// `text`, and the text that the engine writes for the board it returns. The
/// engine does not check the move, so the caller hands over a legal one.
#[verifier::external_body]
pub(crate) fn engine_make_move(text: &[u8], m: Move) -> (r: Vec<u8>)
    requires
        plausible(text@),
        engine_accepts(text@),
        m.in_range(),
        legal_moves_of(text@).contains(m),
    ensures
        r@ == position_after(text@, m),
{
    let board = chess::Board::from_str(core::str::from_utf8(text).unwrap()).unwrap();
    let mv = chess::ChessMove::new(
        chess::ALL_SQUARES[m.from as usize],
        chess::ALL_SQUARES[m.to as usize],
        m.promotion.map(|p| chess::ALL_PIECES[p as usize]),
    );
    board.make_move_new(mv).to_string().into_bytes()
}

#[verifier::external_type_specification]
#[verifier::external_body]
pub struct ExGame(chess::Game);

/// The record of a game: every action taken in it, oldest first.
pub uninterp spec fn game_record(game: chess::Game) -> Seq<Action>;

/// Whether a game began from the initial position of chess.
pub uninterp spec fn began_at_start(game: chess::Game) -> bool;

/// How a game that began at the initial position and has the record `record`
/// has ended, if it has.
pub uninterp spec fn result_after(record: Seq<Action>) -> Option<GameResult>;

/// The text of the position that a game that began at the initial position
/// has reached with the record `record`.
pub uninterp spec fn position_reached(record: Seq<Action>) -> Seq<u8>;

/// Whether a game that began at the initial position and has the record
/// `record` takes `m` as its next move: the game is not over and the move is
/// legal.
pub uninterp spec fn move_accepted(record: Seq<Action>, m: Move) -> bool;

/// Whether a draw may be declared in a game that began at the initial
/// position and has the record `record`: the game is not over, and a
/// position has come up three times or fifty moves have passed without a
/// capture or a pawn move.
pub uninterp spec fn draw_claimable(record: Seq<Action>) -> bool;

/// `chess::Game::new`: a game at the initial position, with nothing on
/// record.
#[verifier::external_body]
pub(crate) fn game_new() -> (game: chess::Game)
    ensures
        began_at_start(game),
        game_record(game) == Seq::<Action>::empty(),
{
    chess::Game::new()
}

/// `chess::Game::result`. The engine computes it from the starting position
/// and the record.
#[verifier::external_body]
pub(crate) fn game_result(game: &chess::Game) -> (r: Option<GameResult>)
    requires
        began_at_start(*game),
    ensures
        r == result_after(game_record(*game)),
{
    game.result().map(|r| match r {
        chess::GameResult::WhiteCheckmates => GameResult::WhiteCheckmates,
        chess::GameResult::WhiteResigns => GameResult::WhiteResigns,
        chess::GameResult::BlackCheckmates => GameResult::BlackCheckmates,
        chess::GameResult::BlackResigns => GameResult::BlackResigns,
        chess::GameResult::Stalemate => GameResult::Stalemate,
        chess::GameResult::DrawAccepted => GameResult::DrawAccepted,
        chess::GameResult::DrawDeclared => GameResult::DrawDeclared,
    })
}

/// `chess::Game::current_position`, and the text that the engine writes for
/// that board. The engine replays the record from the starting position.
#[verifier::external_body]
pub(crate) fn game_position(game: &chess::Game) -> (r: Vec<u8>)
    requires
        began_at_start(*game),
    ensures
        r@ == position_reached(game_record(*game)),
{
    game.current_position().to_string().into_bytes()
}

/// `chess::Game::make_move`. The engine puts the move on record and returns
/// `true` if the game is not over and the move is legal; otherwise it
/// returns `false` and leaves the game as it was.
#[verifier::external_body]
pub(crate) fn game_make_move(game: &mut chess::Game, m: Move) -> (r: bool)
    requires
        began_at_start(*old(game)),
        m.in_range(),
    ensures
        began_at_start(*final(game)),
        r == move_accepted(game_record(*old(game)), m),
        game_record(*final(game)) == if r {
            game_record(*old(game)).push(Action::MakeMove(m))
        } else {
            game_record(*old(game))
        },
{
    game.make_move(chess::ChessMove::new(
        chess::ALL_SQUARES[m.from as usize],
        chess::ALL_SQUARES[m.to as usize],
        m.promotion.map(|p| chess::ALL_PIECES[p as usize]),
    ))
}

/// `chess::Game::declare_draw`. The engine puts the declaration on record and
/// returns `true` if a draw may be declared; otherwise it returns `false`
/// and leaves the game as it was.
#[verifier::external_body]
pub(crate) fn game_declare_draw(game: &mut chess::Game) -> (r: bool)
    requires
        began_at_start(*old(game)),
    ensures
        began_at_start(*final(game)),
        r == draw_claimable(game_record(*old(game))),
        game_record(*final(game)) == if r {
            game_record(*old(game)).push(Action::DeclareDraw)
        } else {
            game_record(*old(game))
        },
{
    game.declare_draw()
}

} // verus!
