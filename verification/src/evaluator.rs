//! The static evaluation of a position, from White's point of view.

use vstd::prelude::*;
use crate::engine::{
    engine_legal_moves, engine_side_to_move, engine_status, legal_moves_of, side_to_move_of,
    status_of, Side, Status,
};
use crate::position::{
    board_field, board_field_end, board_field_len, census, plausible, Census, Position,
};

verus! {

/// What one byte of a board field is worth: a piece letter its value, positive
/// for White and negative for Black, and every other byte nothing.
pub open spec fn piece_value(b: u8) -> int {
    if b == 'P' as u8 {
        1
    } else if b == 'N' as u8 || b == 'B' as u8 {
        3
    } else if b == 'R' as u8 {
        5
    } else if b == 'Q' as u8 {
        9
    } else if b == 'p' as u8 {
        -1
    } else if b == 'n' as u8 || b == 'b' as u8 {
        -3
    } else if b == 'r' as u8 {
        -5
    } else if b == 'q' as u8 {
        -9
    } else {
        0
    }
}

/// The values of the bytes of `field`, added up.
pub open spec fn material_sum(field: Seq<u8>) -> int
    decreases field.len(),
{
    if field.len() == 0 {
        0
    } else {
        material_sum(field.drop_last()) + piece_value(field.last())
    }
}

/// The material balance of the position `text`: the values of the pieces in
/// its board field.
pub open spec fn material(text: Seq<u8>) -> int {
    material_sum(board_field(text))
}

/// `v`, or the nearest number that a score can hold.
pub open spec fn saturated(v: int) -> int {
    if v > i32::MAX {
        i32::MAX as int
    } else if v < i32::MIN {
        i32::MIN as int
    } else {
        v
    }
}

/// The score of a position with the given status, side to move, text and
/// number of legal moves. Mate is worth the largest score to the side that
/// gave it; anything else a hundred times the material balance, plus the
/// number of legal moves.
pub open spec fn score_of(status: Status, mover: Side, text: Seq<u8>, mobility: nat) -> int {
    if status == Status::Checkmate {
        if mover == Side::White {
            i32::MIN as int
        } else {
            i32::MAX as int
        }
    } else {
        saturated(material(text) * 100 + mobility)
    }
}

/// The score of the position `text` as the engine describes it.
pub open spec fn position_score(text: Seq<u8>) -> int {
    score_of(status_of(text), side_to_move_of(text), text, legal_moves_of(text).len())
}

fn value_of_byte(b: u8) -> (r: i8)
    ensures
        r == piece_value(b),
{
    if b == 'P' as u8 {
        1
    } else if b == 'N' as u8 || b == 'B' as u8 {
        3
    } else if b == 'R' as u8 {
        5
    } else if b == 'Q' as u8 {
        9
    } else if b == 'p' as u8 {
        -1
    } else if b == 'n' as u8 || b == 'b' as u8 {
        -3
    } else if b == 'r' as u8 {
        -5
    } else if b == 'q' as u8 {
        -9
    } else {
        0
    }
}

/// Scores a position from what the engine says of it.
pub fn score(status: Status, mover: Side, text: &[u8], mobility: usize) -> (r: i32)
    ensures
        r == score_of(status, mover, text@, mobility as nat),
{
    match status {
        Status::Checkmate => {
            return match mover {
                Side::White => i32::MIN,
                Side::Black => i32::MAX,
            };
        },
        _ => {},
    }
    let end: usize = board_field_end(text);
    let ghost field = board_field(text@);
    let mut sum: i128 = 0;
    let mut i: usize = 0;
    assert(field.subrange(0, 0) =~= Seq::<u8>::empty());
    while i < end
        invariant
            end == board_field_len(text@),
            end <= text@.len(),
            field == board_field(text@),
            i <= end,
            sum == material_sum(field.subrange(0, i as int)),
            -9 * i <= sum <= 9 * i,
        decreases end - i,
    {
        assert(field.subrange(0, i + 1).drop_last() =~= field.subrange(0, i as int));
        assert(field.subrange(0, i + 1).last() == text@[i as int]);
        sum = sum + value_of_byte(text[i]) as i128;
        i += 1;
    }
    assert(field.subrange(0, end as int) =~= field);
    let total: i128 = sum * 100 + mobility as i128;
    if total > i32::MAX as i128 {
        i32::MAX
    } else if total < i32::MIN as i128 {
        i32::MIN
    } else {
        total as i32
    }
}

/// Scores `position`: mate first, then material and mobility.
pub fn board_score(position: &Position) -> (r: i32)
    ensures
        r == position_score(position@),
{
    let text = position.text();
    let status = engine_status(text);
    let mover = engine_side_to_move(text);
    let moves = engine_legal_moves(text);
    score(status, mover, text, moves.len())
}

/// The material balance is no larger than nine times the number of pieces.
pub proof fn lemma_material_within_census(field: Seq<u8>)
    ensures
        -9 * census(field, Census::Black) <= material_sum(field) <= 9 * census(
            field,
            Census::White,
        ),
    decreases field.len(),
{
    if field.len() > 0 {
        lemma_material_within_census(field.drop_last());
    }
}

/// On a position that the engine may be asked about, nothing is cut off: with
/// no mate on the board and a number of legal moves below a million, the
/// score is a hundred times the material balance plus the number of legal
/// moves.
pub proof fn lemma_score_exact(status: Status, mover: Side, text: Seq<u8>, mobility: nat)
    requires
        plausible(text),
        status != Status::Checkmate,
        mobility < 1_000_000,
    ensures
        score_of(status, mover, text, mobility) == material(text) * 100 + mobility,
{
    lemma_material_within_census(board_field(text));
}

/// A position in which White is a queen ahead and nobody is mated scores 900
/// plus the number of legal moves.
pub proof fn lemma_queen_ahead(status: Status, mover: Side, text: Seq<u8>, mobility: nat)
    requires
        plausible(text),
        status != Status::Checkmate,
        mobility < 1_000_000,
        material(text) == 9,
    ensures
        score_of(status, mover, text, mobility) == 900 + mobility,
{
    lemma_score_exact(status, mover, text, mobility);
}

/// A position in which Black is mated scores the largest score there is, and
/// one in which White is mated the smallest, whatever else is on the board;
/// no other position scores beyond them.
pub proof fn lemma_mate_overrides(status: Status, mover: Side, text: Seq<u8>, mobility: nat)
    ensures
        score_of(Status::Checkmate, Side::Black, text, mobility) == i32::MAX,
        score_of(Status::Checkmate, Side::White, text, mobility) == i32::MIN,
        i32::MIN <= score_of(status, mover, text, mobility) <= i32::MAX,
{
}

} // verus!
