//! The players: two policies that choose their own moves, and the remote
//! player, whose moves arrive in frames.

use vstd::prelude::*;
use vstd::string::StringSliceAdditionalSpecFns;
use vstd::utf8::valid_utf8;
use rand::Rng;
use crate::bytes::{append_bytes, same_bytes};
use crate::engine::{
    engine_legal_moves, engine_make_move, engine_side_to_move, legal_moves_of,
    position_after, side_to_move_of, GameResult, Move, Side,
};
use crate::evaluator::{board_score, position_score};
use crate::frame::{encode, frame_of, FrameError, MAX_PAYLOAD};
use crate::position::{acceptable, Position};
use crate::transcript::{reference, reference_of};

verus! {

/// Why a player has no move to give.
#[derive(Clone, Copy, Debug, PartialEq, Eq, Structural)]
pub enum PlayerError {
    /// The position has no legal move.
    NoLegalMove,
    /// The engine wrote a position that cannot be handed back to it.
    EngineFault,
}

/// What a remote player sent that the protocol does not allow.
#[derive(Clone, Copy, Debug, PartialEq, Eq, Structural)]
pub enum ProtocolError {
    /// The payload is not UTF-8 text.
    NotText,
    /// The text names no kind of opponent.
    UnknownOpponent,
    /// A move does not have four characters.
    UnexpectedLength,
    /// A move names something that is not a square.
    MalformedMove,
}

/// The kind of opponent that a remote player asks for.
#[derive(Clone, Copy, Debug, PartialEq, Eq, Structural)]
pub enum OpponentKind {
    Random,
    Greedy,
    Network,
}

/// How a peek at a socket that was told not to block came out.
#[derive(Clone, Copy, Debug, PartialEq, Eq, Structural)]
pub enum Probe {
    /// Nothing to read yet: the call would have blocked.
    WouldBlock,
    /// The call returned, with or without bytes.
    Returned,
    /// The call failed in any other way.
    Failed,
}

/// What a player can be asked for and told.
pub trait Player {
    /// The player's move in `position`.
    fn get_move(&mut self, position: &Position) -> Result<Move, PlayerError>;

    /// The line that records the end of the game for this player, to be put
    /// in the log. (A remote player is told in frames instead.)
    fn inform_of_result(&mut self, position: &Position, result: GameResult, filename: &[u8]) -> (r:
        Vec<u8>)
        ensures
            r@ == notice_of(position@, result, filename@),
    {
        result_notice(position, result, filename)
    }
}

/// The name of a result.
pub open spec fn result_name_of(result: GameResult) -> Seq<u8> {
    match result {
        GameResult::WhiteCheckmates => "WhiteCheckmates".spec_bytes(),
        GameResult::WhiteResigns => "WhiteResigns".spec_bytes(),
        GameResult::BlackCheckmates => "BlackCheckmates".spec_bytes(),
        GameResult::BlackResigns => "BlackResigns".spec_bytes(),
        GameResult::Stalemate => "Stalemate".spec_bytes(),
        GameResult::DrawAccepted => "DrawAccepted".spec_bytes(),
        GameResult::DrawDeclared => "DrawDeclared".spec_bytes(),
    }
}

/// The line that records the end of a game for a player on this machine.
pub open spec fn notice_of(position: Seq<u8>, result: GameResult, filename: Seq<u8>) -> Seq<u8> {
    "Final board state ".spec_bytes() + position + " result ".spec_bytes() + result_name_of(result)
        + " at ".spec_bytes() + filename
}

/// The name of a result.
pub fn result_name(result: GameResult) -> (r: &'static [u8])
    ensures
        r@ == result_name_of(result),
{
    match result {
        GameResult::WhiteCheckmates => "WhiteCheckmates".as_bytes(),
        GameResult::WhiteResigns => "WhiteResigns".as_bytes(),
        GameResult::BlackCheckmates => "BlackCheckmates".as_bytes(),
        GameResult::BlackResigns => "BlackResigns".as_bytes(),
        GameResult::Stalemate => "Stalemate".as_bytes(),
        GameResult::DrawAccepted => "DrawAccepted".as_bytes(),
        GameResult::DrawDeclared => "DrawDeclared".as_bytes(),
    }
}

/// The line that records the end of a game for a player on this machine.
pub fn result_notice(position: &Position, result: GameResult, filename: &[u8]) -> (r: Vec<u8>)
    ensures
        r@ == notice_of(position@, result, filename@),
{
    let mut out: Vec<u8> = Vec::new();
    append_bytes(&mut out, "Final board state ".as_bytes());
    append_bytes(&mut out, position.text());
    append_bytes(&mut out, " result ".as_bytes());
    append_bytes(&mut out, result_name(result));
    append_bytes(&mut out, " at ".as_bytes());
    append_bytes(&mut out, filename);
    out
}

/// A player that picks any legal move, each as likely as the next.
#[derive(Clone, Copy, Debug)]
pub struct RandomPlayer;

/// A player that picks the move after which the position scores best for
/// its side.
#[derive(Clone, Copy, Debug)]
pub struct GreedyPlayer;

/// A player at the other end of a connection.
#[derive(Debug)]
pub struct NetworkPlayer<C> {
    pub socket: C,
    pub color: Side,
}

/// `rand::Rng::gen_range` on `rand::thread_rng()`: some number from 0 up to,
/// and not including, `bound`. Which one is left open. The generator panics
/// on an empty range.
#[verifier::external_body]
fn random_below(bound: usize) -> (r: usize)
    requires
        bound > 0,
    ensures
        r < bound,
{
    rand::thread_rng().gen_range(0, bound)
}

impl RandomPlayer {
    /// The move at `index` among `moves`, if there is one.
    pub fn pick(moves: &Vec<Move>, index: usize) -> (r: Option<Move>)
        ensures
            index < moves@.len() ==> r == Some(moves@[index as int]),
            index >= moves@.len() ==> r is None,
    {
        if index < moves.len() {
            Some(moves[index])
        } else {
            None
        }
    }
}

impl Player for RandomPlayer {
    /// One of the legal moves in `position`; none if there is none.
    fn get_move(&mut self, position: &Position) -> (r: Result<Move, PlayerError>)
        ensures
            legal_moves_of(position@).len() == 0 ==> r == Err::<Move, PlayerError>(
                PlayerError::NoLegalMove,
            ),
            legal_moves_of(position@).len() > 0 ==> r is Ok && legal_moves_of(position@).contains(
                r->Ok_0,
            ),
    {
        let moves = engine_legal_moves(position.text());
        if moves.len() == 0 {
            return Err(PlayerError::NoLegalMove);
        }
        let index = random_below(moves.len());
        match RandomPlayer::pick(&moves, index) {
            Some(m) => Ok(m),
            None => Err(PlayerError::NoLegalMove),
        }
    }
}

/// Whether the score `a` is better for `mover` than the score `b`: White
/// wants it high, Black low.
pub open spec fn better(a: int, b: int, mover: Side) -> bool {
    match mover {
        Side::White => a > b,
        Side::Black => a < b,
    }
}

/// Whether `k` is the greedy choice among `scores`: the first place that
/// holds the best score. Every earlier score is worse, and no later score is
/// better.
pub open spec fn is_greedy_choice(scores: Seq<int>, mover: Side, k: int) -> bool {
    &&& 0 <= k < scores.len()
    &&& forall|j: int| 0 <= j < k ==> better(scores[k], #[trigger] scores[j], mover)
    &&& forall|j: int| k < j < scores.len() ==> !better(#[trigger] scores[j], scores[k], mover)
}

/// The greedy choice among `scores`.
pub open spec fn greedy_choice(scores: Seq<int>, mover: Side) -> int {
    choose|k: int| is_greedy_choice(scores, mover, k)
}

/// The scores as numbers without a width.
pub open spec fn widened(scores: Seq<i32>) -> Seq<int> {
    Seq::new(scores.len(), |i: int| scores[i] as int)
}

/// There is one greedy choice at most: the same scores always give the same
/// move.
pub proof fn lemma_greedy_choice_unique(scores: Seq<int>, mover: Side, a: int, b: int)
    requires
        is_greedy_choice(scores, mover, a),
        is_greedy_choice(scores, mover, b),
    ensures
        a == b,
{
    if a < b {
        assert(better(scores[b], scores[a], mover));
    } else if b < a {
        assert(better(scores[a], scores[b], mover));
    }
}

/// The greedy choice holds the best score, and of two places with the best
/// score it is the earlier.
pub proof fn lemma_greedy_choice_is_first_best(scores: Seq<int>, mover: Side, k: int, j: int)
    requires
        is_greedy_choice(scores, mover, k),
        0 <= j < scores.len(),
    ensures
        !better(scores[j], scores[k], mover),
        scores[j] == scores[k] ==> k <= j,
{
    if j < k {
        assert(better(scores[k], scores[j], mover));
    } else if j > k {
        assert(!better(scores[j], scores[k], mover));
    }
}

impl GreedyPlayer {
    /// The place of the best score for `mover` among `scores`, and the first
    /// such place if several hold it.
    pub fn select(scores: &Vec<i32>, mover: Side) -> (r: Option<usize>)
        ensures
            scores@.len() == 0 <==> r is None,
            r matches Some(k) ==> is_greedy_choice(widened(scores@), mover, k as int) && k
                == greedy_choice(widened(scores@), mover),
    {
        if scores.len() == 0 {
            return None;
        }
        let ghost all = widened(scores@);
        let mut best: usize = 0;
        let mut i: usize = 1;
        while i < scores.len()
            invariant
                all == widened(scores@),
                1 <= i <= scores@.len(),
                best < i,
                forall|j: int| 0 <= j < best ==> better(all[best as int], #[trigger] all[j], mover),
                forall|j: int| best < j < i ==> !better(#[trigger] all[j], all[best as int], mover),
            decreases scores@.len() - i,
        {
            let is_better = match mover {
                Side::White => scores[i] > scores[best],
                Side::Black => scores[i] < scores[best],
            };
            if is_better {
                assert forall|j: int| 0 <= j < i implies better(
                    all[i as int],
                    #[trigger] all[j],
                    mover,
                ) by {
                    if j < best {
                        assert(better(all[best as int], all[j], mover));
                    } else if j > best {
                        assert(!better(all[j], all[best as int], mover));
                    }
                }
                best = i;
            }
            i += 1;
        }
        proof {
            assert(is_greedy_choice(all, mover, best as int));
            lemma_greedy_choice_unique(all, mover, best as int, greedy_choice(all, mover));
        }
        Some(best)
    }
}

/// Whether every legal move in the position `text` leads to a position that
/// the library hands to the engine.
pub open spec fn successors_acceptable(text: Seq<u8>) -> bool {
    forall|i: int|
        0 <= i < legal_moves_of(text).len() ==> acceptable(
            position_after(text, #[trigger] legal_moves_of(text)[i]),
        )
}

/// The scores of the positions that the legal moves in `text` lead to, in the
/// order of the moves.
pub open spec fn successor_scores(text: Seq<u8>) -> Seq<int> {
    Seq::new(
        legal_moves_of(text).len(),
        |i: int| position_score(position_after(text, legal_moves_of(text)[i])),
    )
}

impl Player for GreedyPlayer {
    /// The legal move in `position` after which the position scores best for
    /// the side to move; of several such moves, the one that the engine lists
    /// first.
    fn get_move(&mut self, position: &Position) -> (r: Result<Move, PlayerError>)
        ensures
            legal_moves_of(position@).len() == 0 ==> r == Err::<Move, PlayerError>(
                PlayerError::NoLegalMove,
            ),
            legal_moves_of(position@).len() > 0 && !successors_acceptable(position@) ==> r == Err::<
                Move,
                PlayerError,
            >(PlayerError::EngineFault),
            legal_moves_of(position@).len() > 0 && successors_acceptable(position@) ==> r == Ok::<
                Move,
                PlayerError,
            >(
                legal_moves_of(position@)[greedy_choice(
                    successor_scores(position@),
                    side_to_move_of(position@),
                )],
            ),
    {
        let text = position.text();
        let moves = engine_legal_moves(text);
        let mover = engine_side_to_move(text);
        let mut scores: Vec<i32> = Vec::new();
        let mut i: usize = 0;
        while i < moves.len()
            invariant
                text@ == position@,
                acceptable(text@),
                moves@ == legal_moves_of(text@),
                forall|j: int| 0 <= j < moves@.len() ==> (#[trigger] moves@[j]).in_range(),
                i <= moves@.len(),
                scores@.len() == i,
                forall|j: int|
                    0 <= j < i ==> acceptable(position_after(text@, #[trigger] moves@[j])),
                forall|j: int|
                    0 <= j < i ==> scores@[j] == position_score(
                        position_after(text@, #[trigger] moves@[j]),
                    ),
            decreases moves@.len() - i,
        {
            let m = moves[i];
            assert(moves@[i as int].in_range());
            assert(legal_moves_of(text@).contains(m));
            let next = engine_make_move(text, m);
            match Position::parse(next.as_slice()) {
                None => {
                    assert(!acceptable(position_after(text@, moves@[i as int])));
                    return Err(PlayerError::EngineFault);
                },
                Some(successor) => {
                    scores.push(board_score(&successor));
                },
            }
            i += 1;
        }
        match GreedyPlayer::select(&scores, mover) {
            None => Err(PlayerError::NoLegalMove),
            Some(k) => {
                assert(widened(scores@) =~= successor_scores(position@));
                Ok(moves[k])
            },
        }
    }
}

/// `core::str::from_utf8`: whether `bytes` are UTF-8 text.
#[verifier::external_body]
fn is_text(bytes: &[u8]) -> (r: bool)
    ensures
        r == valid_utf8(bytes@),
{
    core::str::from_utf8(bytes).is_ok()
}

/// The kind of opponent that the payload `payload` asks for.
pub open spec fn opponent_of(payload: Seq<u8>) -> Result<OpponentKind, ProtocolError> {
    if payload == "Random".spec_bytes() {
        Ok(OpponentKind::Random)
    } else if payload == "Greedy".spec_bytes() {
        Ok(OpponentKind::Greedy)
    } else if payload == "Network".spec_bytes() {
        Ok(OpponentKind::Network)
    } else if !valid_utf8(payload) {
        Err(ProtocolError::NotText)
    } else {
        Err(ProtocolError::UnknownOpponent)
    }
}

/// The number of the square in the file `file` (`a` to `h`) and the rank
/// `rank` (`1` to `8`), if these are a file and a rank.
pub open spec fn square_of(file: u8, rank: u8) -> Option<u8> {
    if 'a' as u8 <= file <= 'h' as u8 && '1' as u8 <= rank <= '8' as u8 {
        Some(((rank - '1' as u8) * 8 + (file - 'a' as u8)) as u8)
    } else {
        None
    }
}

/// The move that the payload `payload` writes: four characters, the square
/// left and the square reached, and no promotion.
pub open spec fn move_of(payload: Seq<u8>) -> Result<Move, ProtocolError> {
    if !valid_utf8(payload) {
        Err(ProtocolError::NotText)
    } else if payload.len() != 4 {
        Err(ProtocolError::UnexpectedLength)
    } else {
        match (square_of(payload[0], payload[1]), square_of(payload[2], payload[3])) {
            (Some(from), Some(to)) => Ok(Move { from, to, promotion: None }),
            _ => Err(ProtocolError::MalformedMove),
        }
    }
}

/// Who won, if anyone did.
pub open spec fn winner_of(result: GameResult) -> Option<Side> {
    match result {
        GameResult::WhiteCheckmates | GameResult::BlackResigns => Some(Side::White),
        GameResult::BlackCheckmates | GameResult::WhiteResigns => Some(Side::Black),
        _ => None,
    }
}

/// The code that tells a player of the side `color` how the game ended: `W`
/// for a win, `L` for a loss, `D` for a draw.
pub open spec fn result_code_of(result: GameResult, color: Side) -> u8 {
    match winner_of(result) {
        None => 'D' as u8,
        Some(side) => if side == color {
            'W' as u8
        } else {
            'L' as u8
        },
    }
}

/// What a remote player is sent at the end of a game: three frames, with the
/// code, the final position and the reference to the transcript.
pub open spec fn result_frames_of(code: u8, position: Seq<u8>, filename: Seq<u8>) -> Seq<u8> {
    frame_of(seq![code]) + frame_of(position) + frame_of(reference_of(filename))
}

/// The number of the square in the file `file` and the rank `rank`.
pub fn square(file: u8, rank: u8) -> (r: Option<u8>)
    ensures
        r == square_of(file, rank),
        r matches Some(n) ==> n < 64,
{
    if 'a' as u8 <= file && file <= 'h' as u8 && '1' as u8 <= rank && rank <= '8' as u8 {
        Some((rank - '1' as u8) * 8 + (file - 'a' as u8))
    } else {
        None
    }
}

/// The code that tells a player of the side `color` how the game ended.
pub fn result_code(result: GameResult, color: Side) -> (r: u8)
    ensures
        r == result_code_of(result, color),
{
    let white_won = match result {
        GameResult::WhiteCheckmates | GameResult::BlackResigns => true,
        _ => false,
    };
    let black_won = match result {
        GameResult::BlackCheckmates | GameResult::WhiteResigns => true,
        _ => false,
    };
    let is_white = match color {
        Side::White => true,
        Side::Black => false,
    };
    if white_won {
        if is_white {
            'W' as u8
        } else {
            'L' as u8
        }
    } else if black_won {
        if is_white {
            'L' as u8
        } else {
            'W' as u8
        }
    } else {
        'D' as u8
    }
}

impl<C> NetworkPlayer<C> {
    /// The player at the other end of `socket`. A remote player is White to
    /// itself, whichever side of the board it is given.
    pub fn new(socket: C) -> (r: NetworkPlayer<C>)
        ensures
            r.socket == socket,
            r.color == Side::White,
    {
        NetworkPlayer { socket, color: Side::White }
    }

    /// Reads the payload of the first frame of a connection: the kind of
    /// opponent that the player asks for.
    pub fn get_opponent(&self, payload: &[u8]) -> (r: Result<OpponentKind, ProtocolError>)
        ensures
            r == opponent_of(payload@),
    {
        if same_bytes(payload, "Random".as_bytes()) {
            Ok(OpponentKind::Random)
        } else if same_bytes(payload, "Greedy".as_bytes()) {
            Ok(OpponentKind::Greedy)
        } else if same_bytes(payload, "Network".as_bytes()) {
            Ok(OpponentKind::Network)
        } else if !is_text(payload) {
            Err(ProtocolError::NotText)
        } else {
            Err(ProtocolError::UnknownOpponent)
        }
    }

    /// Whether the player is still there, judged by a peek at its socket: a
    /// peer that is connected and silent makes the peek block, and nothing
    /// else does.
    pub fn alive(&self, probe: Probe) -> (r: bool)
        ensures
            r == (probe == Probe::WouldBlock),
    {
        match probe {
            Probe::WouldBlock => true,
            _ => false,
        }
    }

    /// The frame that asks the player for its move in `position`.
    pub fn move_request(&self, position: &Position) -> (r: Result<Vec<u8>, FrameError>)
        ensures
            position@.len() <= MAX_PAYLOAD ==> r is Ok && r->Ok_0@ == frame_of(position@),
            position@.len() > MAX_PAYLOAD ==> r == Err::<Vec<u8>, FrameError>(FrameError::TooLong),
    {
        encode(position.text())
    }

    /// Reads the payload of the frame in which the player answers a request
    /// for its move.
    pub fn read_move(&self, payload: &[u8]) -> (r: Result<Move, ProtocolError>)
        ensures
            r == move_of(payload@),
            r matches Ok(m) ==> m.in_range(),
    {
        if !is_text(payload) {
            return Err(ProtocolError::NotText);
        }
        if payload.len() != 4 {
            return Err(ProtocolError::UnexpectedLength);
        }
        match (square(payload[0], payload[1]), square(payload[2], payload[3])) {
            (Some(from), Some(to)) => Ok(Move { from, to, promotion: None }),
            _ => Err(ProtocolError::MalformedMove),
        }
    }

    /// The bytes that tell the player how the game ended: the code for its
    /// side, the final position and the reference to the transcript, a frame
    /// each.
    pub fn inform_of_result(&self, position: &Position, result: GameResult, filename: &[u8]) -> (r:
        Result<Vec<u8>, FrameError>)
        ensures
            position@.len() <= MAX_PAYLOAD && reference_of(filename@).len() <= MAX_PAYLOAD ==> r
                is Ok && r->Ok_0@ == result_frames_of(
                result_code_of(result, self.color),
                position@,
                filename@,
            ),
            position@.len() > MAX_PAYLOAD || reference_of(filename@).len() > MAX_PAYLOAD ==> r
                == Err::<Vec<u8>, FrameError>(FrameError::TooLong),
    {
        let mut code: Vec<u8> = Vec::new();
        code.push(result_code(result, self.color));
        assert(code@ =~= seq![result_code_of(result, self.color)]);
        let link = reference(filename);
        let mut out = match encode(code.as_slice()) {
            Ok(bytes) => bytes,
            Err(e) => {
                return Err(e);
            },
        };
        match encode(position.text()) {
            Ok(bytes) => {
                append_bytes(&mut out, bytes.as_slice());
            },
            Err(e) => {
                return Err(e);
            },
        }
        match encode(link.as_slice()) {
            Ok(bytes) => {
                append_bytes(&mut out, bytes.as_slice());
            },
            Err(e) => {
                return Err(e);
            },
        }
        Ok(out)
    }
}

} // verus!
