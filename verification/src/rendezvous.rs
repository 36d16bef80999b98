//! The matchmaking slot: room for one remote player who waits for another.
//!
//! The slot does no locking of its own. Its owner puts it behind one lock and
//! makes each request, the look at the waiting player included, while holding
//! that lock.

use vstd::prelude::*;

verus! {

/// The slot, empty or holding the player who waits.
pub struct Rendezvous<P> {
    waiting: Option<P>,
}

/// What a request comes to.
pub enum Pairing<P> {
    /// No opponent yet: the requester now waits in the slot.
    Waiting,
    /// The requester, and the opponent found for it.
    Paired { player: P, opponent: P },
}

/// What a request does to a slot that holds `waiting`: the slot afterwards,
/// and what the request comes to.
///
/// An empty slot takes the requester in. So does a slot whose occupant is
/// gone; the occupant is dropped. An occupant who is still there leaves the
/// slot and becomes the requester's opponent.
pub open spec fn outcome_of<P>(waiting: Option<P>, requester: P, occupant_alive: bool) -> (
    Option<P>,
    Pairing<P>,
) {
    match waiting {
        Some(occupant) if occupant_alive => (
            None,
            Pairing::Paired { player: requester, opponent: occupant },
        ),
        _ => (Some(requester), Pairing::Waiting),
    }
}

impl<P> View for Rendezvous<P> {
    type V = Option<P>;

    /// The player who waits, if one does.
    closed spec fn view(&self) -> Option<P> {
        self.waiting
    }
}

impl<P> Rendezvous<P> {
    /// An empty slot.
    pub fn new() -> (r: Rendezvous<P>)
        ensures
            r@ is None,
    {
        Rendezvous { waiting: None }
    }

    /// The player who waits, for the owner to look at.
    pub fn occupant(&self) -> (r: Option<&P>)
        ensures
            r is Some <==> self@ is Some,
            r matches Some(p) ==> self@ == Some(*p),
    {
        self.waiting.as_ref()
    }

    /// Handles one request for a remote opponent. `occupant_alive` says
    /// whether the player who waits, if one does, is still there. The
    /// requester ends up in the slot, or gets the occupant and leaves the
    /// slot empty.
    pub fn request(&mut self, requester: P, occupant_alive: bool) -> (pairing: Pairing<P>)
        ensures
            (final(self)@, pairing) == outcome_of(old(self)@, requester, occupant_alive),
    {
        let waiting = self.waiting.take();
        match waiting {
            Some(occupant) => {
                if occupant_alive {
                    Pairing::Paired { player: requester, opponent: occupant }
                } else {
                    self.waiting = Some(requester);
                    Pairing::Waiting
                }
            },
            None => {
                self.waiting = Some(requester);
                Pairing::Waiting
            },
        }
    }
}

/// The first request on an empty slot finds no opponent and stays in the
/// slot. A second request, made while the first player is still there, gets
/// that player and leaves the slot empty.
pub proof fn lemma_two_requests_pair<P>(first: P, second: P, probe: bool)
    ensures
        outcome_of(None::<P>, first, probe) == (Some(first), Pairing::<P>::Waiting),
        outcome_of(outcome_of(None::<P>, first, probe).0, second, true) == (
            None::<P>,
            Pairing::Paired { player: second, opponent: first },
        ),
{
}

/// A request that finds an occupant who is gone drops the occupant and takes
/// its place: the slot stays occupied, now by the requester.
pub proof fn lemma_stale_occupant_is_replaced<P>(occupant: P, requester: P)
    ensures
        outcome_of(Some(occupant), requester, false) == (Some(requester), Pairing::<P>::Waiting),
{
}

/// No player is handed out and kept: an occupant who becomes an opponent has
/// left the slot, and whoever is in the slot after a request is the
/// requester.
pub proof fn lemma_occupant_leaves_once<P>(waiting: Option<P>, requester: P, occupant_alive: bool)
    ensures
        outcome_of(waiting, requester, occupant_alive).1 matches Pairing::Paired {
            player,
            opponent,
        } ==> outcome_of(waiting, requester, occupant_alive).0 is None && waiting == Some(opponent)
            && player == requester,
        outcome_of(waiting, requester, occupant_alive).1 is Waiting ==> outcome_of(
            waiting,
            requester,
            occupant_alive,
        ).0 == Some(requester),
{
}

} // verus!
