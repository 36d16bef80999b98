//! Length-prefixed frames: one length byte, then that many payload bytes.

use vstd::prelude::*;
use crate::bytes::append_bytes;

verus! {

/// The longest payload that one frame can carry.
pub const MAX_PAYLOAD: usize = 255;

/// Why a frame could not be written or read.
#[derive(Clone, Copy, Debug, PartialEq, Eq, Structural)]
pub enum FrameError {
    /// The payload is longer than one length byte can announce.
    TooLong,
    /// The bytes end before the frame does.
    Truncated,
}

/// The bytes of the frame that carries `payload`.
pub open spec fn frame_of(payload: Seq<u8>) -> Seq<u8>
    recommends
        payload.len() <= MAX_PAYLOAD,
{
    seq![payload.len() as u8] + payload
}

/// How many bytes the frame that starts `stream` takes, once its length byte
/// is there.
pub open spec fn frame_len(stream: Seq<u8>) -> int
    recommends
        stream.len() > 0,
{
    1 + stream[0] as int
}

/// Whether `stream` starts with a whole frame.
pub open spec fn starts_with_frame(stream: Seq<u8>) -> bool {
    stream.len() > 0 && stream.len() >= frame_len(stream)
}

/// The payload of the frame that starts `stream`.
pub open spec fn first_payload(stream: Seq<u8>) -> Seq<u8>
    recommends
        starts_with_frame(stream),
{
    stream.subrange(1, frame_len(stream))
}

/// What follows the frame that starts `stream`.
pub open spec fn after_first_frame(stream: Seq<u8>) -> Seq<u8>
    recommends
        starts_with_frame(stream),
{
    stream.subrange(frame_len(stream), stream.len() as int)
}

/// Writes `payload` as one frame.
pub fn encode(payload: &[u8]) -> (r: Result<Vec<u8>, FrameError>)
    ensures
        payload@.len() <= MAX_PAYLOAD ==> r is Ok && r->Ok_0@ == frame_of(payload@),
        payload@.len() > MAX_PAYLOAD ==> r == Err::<Vec<u8>, FrameError>(FrameError::TooLong),
{
    if payload.len() > MAX_PAYLOAD {
        return Err(FrameError::TooLong);
    }
    let mut out: Vec<u8> = Vec::new();
    out.push(payload.len() as u8);
    append_bytes(&mut out, payload);
    Ok(out)
}

/// Reads the frame that starts `stream`: its payload, and how many bytes of
/// `stream` the frame took.
pub fn decode(stream: &[u8]) -> (r: Result<(Vec<u8>, usize), FrameError>)
    ensures
        starts_with_frame(stream@) ==> r is Ok && r->Ok_0.0@ == first_payload(stream@)
            && r->Ok_0.1 == frame_len(stream@),
        !starts_with_frame(stream@) ==> r == Err::<(Vec<u8>, usize), FrameError>(
            FrameError::Truncated,
        ),
{
    if stream.len() == 0 {
        return Err(FrameError::Truncated);
    }
    let len: usize = stream[0] as usize;
    if stream.len() - 1 < len {
        return Err(FrameError::Truncated);
    }
    let mut payload: Vec<u8> = Vec::new();
    append_bytes(&mut payload, vstd::slice::slice_subrange(stream, 1, 1 + len));
    Ok((payload, 1 + len))
}

/// Reading back what was written gives the payload, and leaves what came
/// after the frame.
pub proof fn lemma_frame_round_trip(payload: Seq<u8>, rest: Seq<u8>)
    requires
        payload.len() <= MAX_PAYLOAD,
    ensures
        starts_with_frame(frame_of(payload) + rest),
        first_payload(frame_of(payload) + rest) == payload,
        after_first_frame(frame_of(payload) + rest) == rest,
        frame_len(frame_of(payload) + rest) == payload.len() + 1,
{
    let stream = frame_of(payload) + rest;
    assert(stream[0] == payload.len() as u8);
    assert(first_payload(stream) =~= payload);
    assert(after_first_frame(stream) =~= rest);
}

/// A frame being read from a stream that hands over its bytes in pieces.
///
/// The reader keeps what has arrived of the frame, length byte included, and
/// says how many bytes are still to come.
pub struct FrameReader {
    received: Vec<u8>,
}

/// Whether `received` can be the beginning of one frame: nothing, or a length
/// byte and no more bytes after it than it announces.
pub open spec fn is_frame_prefix(received: Seq<u8>) -> bool {
    received.len() > 0 ==> received.len() <= frame_len(received)
}

/// How many bytes a reader that holds `received` must still be given before
/// it can tell more: the length byte first, then the rest of the payload.
pub open spec fn missing_after(received: Seq<u8>) -> int {
    if received.len() == 0 {
        1
    } else {
        frame_len(received) - received.len()
    }
}

impl View for FrameReader {
    type V = Seq<u8>;

    /// The bytes of the frame that have arrived.
    closed spec fn view(&self) -> Seq<u8> {
        self.received@
    }
}

impl FrameReader {
    #[verifier::type_invariant]
    spec fn within_frame(&self) -> bool {
        is_frame_prefix(self.received@)
    }

    /// A reader that has received nothing.
    pub fn new() -> (r: FrameReader)
        ensures
            r@ == Seq::<u8>::empty(),
    {
        FrameReader { received: Vec::new() }
    }

    /// How many bytes to ask the stream for next. Zero means the frame is
    /// whole.
    pub fn missing(&self) -> (n: usize)
        ensures
            n == missing_after(self@),
            is_frame_prefix(self@),
    {
        proof {
            use_type_invariant(self);
        }
        if self.received.len() == 0 {
            1
        } else {
            1 + self.received[0] as usize - self.received.len()
        }
    }

    /// Whether the whole frame has arrived.
    pub fn is_complete(&self) -> (r: bool)
        ensures
            r == (missing_after(self@) == 0),
            r ==> starts_with_frame(self@),
    {
        self.missing() == 0
    }

    /// Takes from the front of `chunk` the bytes that still belong to the
    /// frame and returns how many it took: all of `chunk`, unless the frame
    /// ends inside it, and never a byte beyond the frame.
    pub fn accept(&mut self, chunk: &[u8]) -> (taken: usize)
        ensures
            taken <= chunk@.len(),
            final(self)@ == old(self)@ + chunk@.subrange(0, taken as int),
            is_frame_prefix(final(self)@),
            taken == chunk@.len() || missing_after(final(self)@) == 0,
    {
        proof {
            use_type_invariant(&*self);
        }
        let mut holder = FrameReader::new();
        core::mem::swap(self, &mut holder);
        let mut received: Vec<u8> = holder.received;
        let mut taken: usize = 0;
        while taken < chunk.len() && (received.len() == 0 || received.len() <= received[0] as usize)
            invariant
                taken <= chunk@.len(),
                is_frame_prefix(received@),
                received@ == old(self)@ + chunk@.subrange(0, taken as int),
            decreases chunk@.len() - taken,
        {
            let ghost before = received@;
            received.push(chunk[taken]);
            assert(chunk@.subrange(0, taken + 1) =~= chunk@.subrange(0, taken as int).push(
                chunk@[taken as int],
            ));
            assert(before.len() > 0 ==> received@[0] == before[0]);
            taken += 1;
        }
        *self = FrameReader { received };
        taken
    }

    /// Ends the reading: the payload if the whole frame has arrived, and
    /// `Truncated` if the stream ended inside it.
    pub fn finish(self) -> (r: Result<Vec<u8>, FrameError>)
        ensures
            missing_after(self@) == 0 ==> r is Ok && r->Ok_0@ == first_payload(self@),
            missing_after(self@) != 0 ==> r == Err::<Vec<u8>, FrameError>(FrameError::Truncated),
    {
        if !self.is_complete() {
            return Err(FrameError::Truncated);
        }
        let mut payload: Vec<u8> = Vec::new();
        let n: usize = self.received.len();
        append_bytes(&mut payload, vstd::slice::slice_subrange(self.received.as_slice(), 1, n));
        Ok(payload)
    }
}

/// What a reader takes of a chunk is settled by what it holds and by the
/// chunk: it stops where the frame ends, and nowhere else.
pub proof fn lemma_accept_is_settled(held: Seq<u8>, chunk: Seq<u8>, a: int, b: int)
    requires
        0 <= a <= chunk.len(),
        0 <= b <= chunk.len(),
        is_frame_prefix(held),
        is_frame_prefix(held + chunk.subrange(0, a)),
        is_frame_prefix(held + chunk.subrange(0, b)),
        a == chunk.len() || missing_after(held + chunk.subrange(0, a)) == 0,
        b == chunk.len() || missing_after(held + chunk.subrange(0, b)) == 0,
    ensures
        a == b,
{
    let x = held + chunk.subrange(0, a);
    let y = held + chunk.subrange(0, b);
    if a < b {
        assert(x.len() > 0);
        assert(y[0] == x[0]) by {
            if held.len() > 0 {
            } else {
                assert(x[0] == chunk[0] && y[0] == chunk[0]);
            }
        }
    } else if b < a {
        assert(y.len() > 0);
        assert(y[0] == x[0]) by {
            if held.len() > 0 {
            } else {
                assert(x[0] == chunk[0] && y[0] == chunk[0]);
            }
        }
    }
}

/// A reader that has been given a frame piece by piece, in whatever pieces,
/// holds that frame: if what it has received is the frame of `payload`, it is
/// complete and its payload is `payload`.
pub proof fn lemma_reader_round_trip(received: Seq<u8>, payload: Seq<u8>)
    requires
        payload.len() <= MAX_PAYLOAD,
        received == frame_of(payload),
    ensures
        missing_after(received) == 0,
        first_payload(received) == payload,
{
    lemma_frame_round_trip(payload, Seq::<u8>::empty());
    assert(frame_of(payload) + Seq::<u8>::empty() =~= frame_of(payload));
}

} // verus!
