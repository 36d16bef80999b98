//! One game from its first position to its result.
//!
//! The coordinator owns the game and decides what happens next. It neither
//! asks the players nor writes the transcript: its owner does both, as the
//! steps say, and hands each move back.

use vstd::prelude::*;
use crate::engine::{
    draw_claimable, engine_side_to_move, game_declare_draw, game_make_move, game_new,
    game_position, game_record, game_result, began_at_start, move_accepted, position_reached,
    result_after, side_to_move_of, Action, GameResult, Move, Side,
};
use crate::position::{acceptable, Position};
use crate::transcript::{
    all_transcripts, file_name, file_name_of, highest_index, next_index, path, path_of,
    TranscriptError, MAX_INDEX,
};

verus! {

/// Why a game cannot go on.
#[derive(Clone, Copy, Debug, PartialEq, Eq, Structural)]
pub enum SessionError {
    /// The engine does not take the move: it is not legal, or the game is
    /// over.
    IllegalMove,
    /// The engine wrote a position that cannot be handed back to it.
    EngineFault,
}

/// What the owner of a game does next.
#[derive(Debug)]
pub enum Step {
    /// Append `position` to the transcript, ask the player of `mover` for a
    /// move, and hand that move over.
    AwaitMove { position: Position, mover: Side },
    /// Append `position`, the last, to the transcript and tell both players
    /// the result. The game is over.
    Finished { position: Position, result: GameResult },
}

impl Step {
    /// The step for a game that has reached `position` with `mover` to move
    /// and the result `result`: the end if there is a result, and a move
    /// from `mover` if there is none.
    pub fn of(position: Position, mover: Side, result: Option<GameResult>) -> (step: Step)
        ensures
            step == match result {
                None => Step::AwaitMove { position, mover },
                Some(outcome) => Step::Finished { position, result: outcome },
            },
    {
        match result {
            None => Step::AwaitMove { position, mover },
            Some(outcome) => Step::Finished { position, result: outcome },
        }
    }
}

/// A game in progress, and the name under which it is written down.
pub struct GameCoordinator {
    game: chess::Game,
    filename: Vec<u8>,
}

/// The record after the move `m` was played on `record`: the move, and after
/// it the declaration of a draw if one may then be declared.
pub open spec fn record_after_move(record: Seq<Action>, m: Move) -> Seq<Action> {
    let played = record.push(Action::MakeMove(m));
    if draw_claimable(played) {
        played.push(Action::DeclareDraw)
    } else {
        played
    }
}

/// Whether a game with the record `record` takes the move `m`.
pub open spec fn takes_move(record: Seq<Action>, m: Move) -> bool {
    m.in_range() && move_accepted(record, m)
}

/// Whether the event `event` is a move that a game with the record `record`
/// does not take.
pub open spec fn is_refused(record: Seq<Action>, event: Option<Move>) -> bool {
    event matches Some(m) && !takes_move(record, m)
}

/// The record after the event `event`: a move that the game takes is
/// played, and anything else leaves the record as it was.
pub open spec fn record_after(record: Seq<Action>, event: Option<Move>) -> Seq<Action> {
    match event {
        Some(m) if takes_move(record, m) => record_after_move(record, m),
        _ => record,
    }
}

/// Whether `step` is what a game with the record `record` asks for: a move
/// from the side to move while there is no result, the end once there is
/// one, and the position reached in either case.
pub open spec fn step_fits(record: Seq<Action>, step: Step) -> bool {
    match result_after(record) {
        None => step matches Step::AwaitMove { position, mover } && position@ == position_reached(
            record,
        ) && mover == side_to_move_of(position_reached(record)),
        Some(outcome) => step matches Step::Finished { position, result } && position@
            == position_reached(record) && result == outcome,
    }
}

impl GameCoordinator {
    #[verifier::type_invariant]
    spec fn wf(&self) -> bool {
        began_at_start(self.game)
    }

    /// Everything done in the game so far, oldest first.
    pub closed spec fn record(&self) -> Seq<Action> {
        game_record(self.game)
    }

    /// Where the transcript lies: the client's directory and the name of the
    /// file in it.
    pub closed spec fn transcript(&self) -> Seq<u8> {
        self.filename@
    }

    /// A new game for `client`, whose directory holds the files `existing`.
    /// Its transcript gets the number after the highest there.
    pub fn new(client: &[u8], existing: &Vec<Vec<u8>>) -> (r: Result<
        GameCoordinator,
        TranscriptError,
    >)
        ensures
            !all_transcripts(existing.deep_view()) ==> r matches Err(TranscriptError::ForeignName),
            all_transcripts(existing.deep_view()) && highest_index(existing.deep_view())
                == MAX_INDEX ==> r matches Err(TranscriptError::Exhausted),
            all_transcripts(existing.deep_view()) && highest_index(existing.deep_view())
                < MAX_INDEX ==> (r matches Ok(coordinator) && coordinator.record() == Seq::<
                Action,
            >::empty() && coordinator.transcript() == path_of(
                client@,
                file_name_of(highest_index(existing.deep_view()) + 1),
            )),
    {
        match next_index(existing) {
            Err(e) => Err(e),
            Ok(n) => {
                let name = file_name(n);
                Ok(GameCoordinator { game: game_new(), filename: path(client, name.as_slice()) })
            },
        }
    }

    /// Where the transcript lies.
    pub fn filename(&self) -> (r: &[u8])
        ensures
            r@ == self.transcript(),
    {
        self.filename.as_slice()
    }

    /// Takes the event, a move from the player who was asked or nothing at
    /// the start, and gives the game after it and what to do next.
    ///
    /// A move that the engine takes is played, and a draw is declared at once
    /// if one may be. A move that it does not take changes nothing and is an
    /// error.
    pub fn run(self, event: Option<Move>) -> (r: (GameCoordinator, Result<Step, SessionError>))
        ensures
            r.0.transcript() == self.transcript(),
            r.0.record() == record_after(self.record(), event),
            is_refused(self.record(), event) ==> r.1 matches Err(SessionError::IllegalMove),
            !is_refused(self.record(), event) && !acceptable(position_reached(r.0.record())) ==> r.1
                matches Err(SessionError::EngineFault),
            !is_refused(self.record(), event) && acceptable(position_reached(r.0.record())) ==> (
            r.1 matches Ok(step) && step_fits(r.0.record(), step)),
    {
        proof {
            use_type_invariant(&self);
        }
        let GameCoordinator { mut game, filename } = self;
        match event {
            None => {},
            Some(m) => {
                if !m.is_in_range() || !game_make_move(&mut game, m) {
                    return (GameCoordinator { game, filename }, Err(SessionError::IllegalMove));
                }
                game_declare_draw(&mut game);
            },
        }
        let text = game_position(&game);
        let result = game_result(&game);
        let next = GameCoordinator { game, filename };
        let position = match Position::parse(text.as_slice()) {
            Some(position) => position,
            None => {
                return (next, Err(SessionError::EngineFault));
            },
        };
        let mover = engine_side_to_move(position.text());
        (next, Ok(Step::of(position, mover, result)))
    }
}

/// A game's record only grows: what was on record stays, in its place, and
/// an event adds one move at most.
pub proof fn lemma_record_only_grows(record: Seq<Action>, event: Option<Move>)
    ensures
        record.len() <= record_after(record, event).len() <= record.len() + 2,
        record_after(record, event).subrange(0, record.len() as int) == record,
        is_refused(record, event) || event is None ==> record_after(record, event) == record,
        event matches Some(m) ==> (takes_move(record, m) ==> record_after(
            record,
            event,
        )[record.len() as int] == Action::MakeMove(m)),
{
    assert(record_after(record, event).subrange(0, record.len() as int) =~= record);
}

} // verus!
