//! Position texts: the one-line form in which the rules engine reads and
//! writes a position, and the check a text must pass before the engine is
//! asked about it.
//!
//! The engine keeps the movable pieces of the side to move in a list of fixed
//! size and looks the kings up without asking whether they are there. It is
//! therefore only ever handed a text whose board field describes eight ranks
//! of eight squares with one king and at most sixteen pieces a side.

use vstd::prelude::*;
use crate::engine::{engine_accepts, engine_accepts_text};

verus! {

/// The groups of piece letters that the census of a board field counts.
#[derive(Clone, Copy, Debug, PartialEq, Eq, Structural)]
pub enum Census {
    /// Every white piece: `P N B R Q K`.
    White,
    /// Every black piece: `p n b r q k`.
    Black,
    /// The white king, `K`.
    WhiteKing,
    /// The black king, `k`.
    BlackKing,
}

/// Whether `b` is the letter of a white piece.
pub open spec fn is_white_piece(b: u8) -> bool {
    b == 'P' as u8 || b == 'N' as u8 || b == 'B' as u8 || b == 'R' as u8 || b == 'Q' as u8 || b
        == 'K' as u8
}

/// Whether `b` is the letter of a black piece.
pub open spec fn is_black_piece(b: u8) -> bool {
    b == 'p' as u8 || b == 'n' as u8 || b == 'b' as u8 || b == 'r' as u8 || b == 'q' as u8 || b
        == 'k' as u8
}

/// Whether `b` is a digit that stands for a run of empty squares.
pub open spec fn is_gap(b: u8) -> bool {
    '1' as u8 <= b <= '8' as u8
}

/// Whether the census `group` counts the byte `b`.
pub open spec fn counts(group: Census, b: u8) -> bool {
    match group {
        Census::White => is_white_piece(b),
        Census::Black => is_black_piece(b),
        Census::WhiteKing => b == 'K' as u8,
        Census::BlackKing => b == 'k' as u8,
    }
}

/// How many bytes of `field` the census `group` counts.
pub open spec fn census(field: Seq<u8>, group: Census) -> nat
    decreases field.len(),
{
    if field.len() == 0 {
        0
    } else {
        census(field.drop_last(), group) + if counts(group, field.last()) {
            1nat
        } else {
            0nat
        }
    }
}

/// How many squares the byte `b` of a board field covers.
pub open spec fn squares_of(b: u8) -> int {
    if is_white_piece(b) || is_black_piece(b) {
        1
    } else if is_gap(b) {
        b - '0' as u8
    } else {
        0
    }
}

/// How many squares the last rank of `field` covers so far: those of the
/// bytes after its last `/`.
pub open spec fn rank_width(field: Seq<u8>) -> int
    decreases field.len(),
{
    if field.len() == 0 || field.last() == '/' as u8 {
        0
    } else {
        rank_width(field.drop_last()) + squares_of(field.last())
    }
}

/// How many `/` the field holds.
pub open spec fn rank_breaks(field: Seq<u8>) -> nat
    decreases field.len(),
{
    if field.len() == 0 {
        0
    } else {
        rank_breaks(field.drop_last()) + if field.last() == '/' as u8 {
            1nat
        } else {
            0nat
        }
    }
}

/// Whether `field` describes eight ranks of eight squares each: nothing but
/// piece letters, gap digits and `/`, seven `/`, and eight squares before
/// each `/` and before the end.
pub open spec fn is_board_field(field: Seq<u8>) -> bool {
    &&& forall|i: int|
        0 <= i < field.len() ==> is_white_piece(#[trigger] field[i]) || is_black_piece(field[i])
            || is_gap(field[i]) || field[i] == '/' as u8
    &&& rank_breaks(field) == 7
    &&& forall|i: int|
        0 <= i < field.len() && #[trigger] field[i] == '/' as u8 ==> rank_width(
            field.subrange(0, i),
        ) == 8
    &&& rank_width(field) == 8
}

/// How long the board field of `text` is: the bytes before its first space.
pub open spec fn board_field_len(text: Seq<u8>) -> int
    decreases text.len(),
{
    if text.len() == 0 || text[0] == ' ' as u8 {
        0
    } else {
        1 + board_field_len(text.drop_first())
    }
}

/// The board field of `text`: what stands before its first space.
pub open spec fn board_field(text: Seq<u8>) -> Seq<u8> {
    text.subrange(0, board_field_len(text))
}

/// Whether the engine may be asked about `text`: its board field describes a
/// whole board with one king and at most sixteen pieces a side.
pub open spec fn plausible(text: Seq<u8>) -> bool {
    let field = board_field(text);
    &&& is_board_field(field)
    &&& census(field, Census::WhiteKing) == 1
    &&& census(field, Census::BlackKing) == 1
    &&& census(field, Census::White) <= 16
    &&& census(field, Census::Black) <= 16
}

/// The board field ends at the first space, or with the text.
pub proof fn lemma_board_field_len(text: Seq<u8>, n: int)
    requires
        0 <= n <= text.len(),
        forall|j: int| 0 <= j < n ==> text[j] != ' ' as u8,
        n == text.len() || text[n] == ' ' as u8,
    ensures
        board_field_len(text) == n,
    decreases n,
{
    if n > 0 {
        let rest = text.drop_first();
        assert forall|j: int| 0 <= j < n - 1 implies rest[j] != ' ' as u8 by {
            assert(rest[j] == text[j + 1]);
        }
        lemma_board_field_len(rest, n - 1);
    }
}

/// Where the board field of `text` ends.
pub fn board_field_end(text: &[u8]) -> (n: usize)
    ensures
        n == board_field_len(text@),
        n <= text@.len(),
{
    let mut n: usize = 0;
    while n < text.len() && text[n] != ' ' as u8
        invariant
            n <= text@.len(),
            forall|j: int| 0 <= j < n ==> text@[j] != ' ' as u8,
        decreases text@.len() - n,
    {
        n += 1;
    }
    proof {
        lemma_board_field_len(text@, n as int);
    }
    n
}

fn byte_is_white_piece(b: u8) -> (r: bool)
    ensures
        r == is_white_piece(b),
{
    b == 'P' as u8 || b == 'N' as u8 || b == 'B' as u8 || b == 'R' as u8 || b == 'Q' as u8 || b
        == 'K' as u8
}

fn byte_is_black_piece(b: u8) -> (r: bool)
    ensures
        r == is_black_piece(b),
{
    b == 'p' as u8 || b == 'n' as u8 || b == 'b' as u8 || b == 'r' as u8 || b == 'q' as u8 || b
        == 'k' as u8
}

/// Whether the engine may be asked about `text`.
pub fn is_plausible(text: &[u8]) -> (r: bool)
    ensures
        r == plausible(text@),
{
    let end: usize = board_field_end(text);
    let ghost field = board_field(text@);
    let mut i: usize = 0;
    let mut width: u8 = 0;
    let mut breaks: u8 = 0;
    let mut white: u8 = 0;
    let mut black: u8 = 0;
    let mut white_kings: u8 = 0;
    let mut black_kings: u8 = 0;
    assert(field.subrange(0, 0) =~= Seq::<u8>::empty());
    while i < end
        invariant
            end == board_field_len(text@),
            end <= text@.len(),
            field == board_field(text@),
            i <= end,
            forall|j: int|
                0 <= j < i ==> is_white_piece(#[trigger] field[j]) || is_black_piece(field[j])
                    || is_gap(field[j]) || field[j] == '/' as u8,
            forall|j: int|
                0 <= j < i && #[trigger] field[j] == '/' as u8 ==> rank_width(
                    field.subrange(0, j),
                ) == 8,
            width == rank_width(field.subrange(0, i as int)),
            width <= 8,
            breaks == rank_breaks(field.subrange(0, i as int)),
            breaks <= 7,
            white == census(field.subrange(0, i as int), Census::White),
            black == census(field.subrange(0, i as int), Census::Black),
            white_kings == census(field.subrange(0, i as int), Census::WhiteKing),
            black_kings == census(field.subrange(0, i as int), Census::BlackKing),
            white <= 16,
            black <= 16,
            white_kings <= 1,
            black_kings <= 1,
        decreases end - i,
    {
        let b: u8 = text[i];
        let ghost before = field.subrange(0, i as int);
        let ghost after = field.subrange(0, i + 1);
        assert(after.drop_last() =~= before);
        assert(after.last() == b);
        assert(field[i as int] == b);
        let step: u8 = if byte_is_white_piece(b) || byte_is_black_piece(b) {
            1
        } else if '1' as u8 <= b && b <= '8' as u8 {
            b - '0' as u8
        } else {
            0
        };
        if b == '/' as u8 {
            if width != 8 || breaks == 7 {
                proof {
                    lemma_counts_grow(field, i + 1);
                }
                return false;
            }
            width = 0;
            breaks += 1;
        } else if step == 0 || step > 8 - width {
            proof {
                if step != 0 {
                    lemma_width_grows(field, i + 1);
                }
            }
            return false;
        } else {
            width += step;
            if byte_is_white_piece(b) {
                if white == 16 || (b == 'K' as u8 && white_kings == 1) {
                    proof {
                        lemma_counts_grow(field, i + 1);
                    }
                    return false;
                }
                white += 1;
                if b == 'K' as u8 {
                    white_kings += 1;
                }
            } else if byte_is_black_piece(b) {
                if black == 16 || (b == 'k' as u8 && black_kings == 1) {
                    proof {
                        lemma_counts_grow(field, i + 1);
                    }
                    return false;
                }
                black += 1;
                if b == 'k' as u8 {
                    black_kings += 1;
                }
            }
        }
        i += 1;
    }
    assert(field.subrange(0, end as int) =~= field);
    width == 8 && breaks == 7 && white_kings == 1 && black_kings == 1
}

/// Counts never fall when a field is read further.
pub proof fn lemma_counts_grow(field: Seq<u8>, n: int)
    requires
        0 <= n <= field.len(),
    ensures
        rank_breaks(field.subrange(0, n)) <= rank_breaks(field),
        census(field.subrange(0, n), Census::White) <= census(field, Census::White),
        census(field.subrange(0, n), Census::Black) <= census(field, Census::Black),
        census(field.subrange(0, n), Census::WhiteKing) <= census(field, Census::WhiteKing),
        census(field.subrange(0, n), Census::BlackKing) <= census(field, Census::BlackKing),
    decreases field.len() - n,
{
    if n < field.len() {
        assert(field.subrange(0, n + 1).drop_last() =~= field.subrange(0, n));
        lemma_counts_grow(field, n + 1);
    } else {
        assert(field.subrange(0, n) =~= field);
    }
}

/// A rank that is already too wide stays so: either its width is what the
/// whole field ends with, or a `/` follows it.
pub proof fn lemma_width_grows(field: Seq<u8>, n: int)
    requires
        0 <= n <= field.len(),
        rank_width(field.subrange(0, n)) > 8,
    ensures
        rank_width(field) > 8 || exists|j: int|
            0 <= j < field.len() && #[trigger] field[j] == '/' as u8 && rank_width(
                field.subrange(0, j),
            ) > 8,
    decreases field.len() - n,
{
    if n < field.len() {
        assert(field.subrange(0, n + 1).drop_last() =~= field.subrange(0, n));
        if field[n] == '/' as u8 {
        } else {
            lemma_width_grows(field, n + 1);
        }
    } else {
        assert(field.subrange(0, n) =~= field);
    }
}

/// Whether `text` can stand for a position: it passes the library's check of
/// the board field, and the engine accepts it.
pub open spec fn acceptable(text: Seq<u8>) -> bool {
    plausible(text) && engine_accepts(text)
}

/// A position that the engine accepts, held as its text.
#[derive(Debug)]
pub struct Position {
    text: Vec<u8>,
}

impl View for Position {
    type V = Seq<u8>;

    /// The bytes of the text.
    closed spec fn view(&self) -> Seq<u8> {
        self.text@
    }
}

impl Position {
    #[verifier::type_invariant]
    spec fn accepted(&self) -> bool {
        acceptable(self.text@)
    }

    /// Takes `text` for a position if it passes the library's own check of
    /// the board field and the engine accepts it.
    pub fn parse(text: &[u8]) -> (r: Option<Position>)
        ensures
            r is Some <==> acceptable(text@),
            r matches Some(position) ==> position@ == text@,
    {
        if !is_plausible(text) {
            return None;
        }
        if !engine_accepts_text(text) {
            return None;
        }
        Some(Position { text: vstd::slice::slice_to_vec(text) })
    }

    /// The text of the position.
    pub fn text(&self) -> (r: &[u8])
        ensures
            r@ == self@,
            acceptable(r@),
    {
        proof {
            use_type_invariant(self);
        }
        self.text.as_slice()
    }
}

} // verus!
