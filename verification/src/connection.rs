//! What happens to a connection once its player has said whom it wants to
//! play.

use vstd::prelude::*;
use crate::player::{GreedyPlayer, OpponentKind, RandomPlayer};
use crate::rendezvous::{outcome_of, Pairing, Rendezvous};

verus! {

/// The player on the other side of the board.
pub enum Opponent<P> {
    Random(RandomPlayer),
    Greedy(GreedyPlayer),
    Remote(P),
}

/// What to do with a connection.
pub enum Seating<P> {
    /// Start a game between the player and the opponent.
    Play { player: P, opponent: Opponent<P> },
    /// Start nothing: the player now waits in the slot, and the connection
    /// that takes it from there will start its game.
    Wait,
}

/// The slot after, and the seating for, a player who asked for an opponent of
/// the kind `kind` while the slot held `waiting`.
///
/// The two policies are at hand at once and leave the slot alone. A remote
/// opponent comes from the slot or not at all.
pub open spec fn seating_of<P>(
    kind: OpponentKind,
    player: P,
    waiting: Option<P>,
    occupant_alive: bool,
) -> (Option<P>, Seating<P>) {
    match kind {
        OpponentKind::Random => (
            waiting,
            Seating::Play { player, opponent: Opponent::Random(RandomPlayer) },
        ),
        OpponentKind::Greedy => (
            waiting,
            Seating::Play { player, opponent: Opponent::Greedy(GreedyPlayer) },
        ),
        OpponentKind::Network => match outcome_of(waiting, player, occupant_alive).1 {
            Pairing::Paired { opponent, .. } => (
                outcome_of(waiting, player, occupant_alive).0,
                Seating::Play { player, opponent: Opponent::Remote(opponent) },
            ),
            Pairing::Waiting => (outcome_of(waiting, player, occupant_alive).0, Seating::Wait),
        },
    }
}

/// Finds the opponent for `player`, who asked for one of the kind `kind`.
/// `occupant_alive` says whether the player who waits in `slot`, if one does,
/// is still there.
pub fn handle_connection<P>(
    kind: OpponentKind,
    player: P,
    slot: &mut Rendezvous<P>,
    occupant_alive: bool,
) -> (seating: Seating<P>)
    ensures
        (final(slot)@, seating) == seating_of(kind, player, old(slot)@, occupant_alive),
{
    match kind {
        OpponentKind::Random => Seating::Play { player, opponent: Opponent::Random(RandomPlayer) },
        OpponentKind::Greedy => Seating::Play { player, opponent: Opponent::Greedy(GreedyPlayer) },
        OpponentKind::Network => match slot.request(player, occupant_alive) {
            Pairing::Paired { player, opponent } => Seating::Play {
                player,
                opponent: Opponent::Remote(opponent),
            },
            Pairing::Waiting => Seating::Wait,
        },
    }
}

} // verus!
