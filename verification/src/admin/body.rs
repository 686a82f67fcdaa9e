//! Reading request bodies within limits.

use crate::text;
use crate::text::parse_usize;
use vstd::prelude::*;

verus! {

/// The largest request body that is kept.
pub const MAX_CONFIG_BODY_BYTES: usize = 1048576;

/// How much of a larger body is read, and dropped, before the connection is given up: a client
/// that may finish writing gets to see the answer.
pub const MAX_DRAIN_BYTES: usize = 8388608;

/// Why a request body could not be read.
#[derive(Debug, Clone, Copy, PartialEq, Eq, Structural)]
pub enum BodyError {
    /// There is more of it than [`MAX_CONFIG_BODY_BYTES`].
    TooLarge,
    /// It ended early.
    Incomplete,
}

/// Whether a body of the declared length is not worth reading.
pub open spec fn hopeless(declared: Option<Seq<char>>) -> bool {
    match declared {
        Some(length) => match text::as_usize(length) {
            Some(n) => n > MAX_DRAIN_BYTES,
            None => false,
        },
        None => false,
    }
}

/// Whether a body whose declared length is `declared` is refused before any of it is read.
pub fn is_hopeless(declared: Option<&str>) -> (r: bool)
    ensures
        r == hopeless(
            match declared {
                Some(length) => Some(length@),
                None => None,
            },
        ),
{
    match declared {
        Some(length) => match parse_usize(length) {
            Some(n) => n > MAX_DRAIN_BYTES,
            None => false,
        },
        None => false,
    }
}

/// One piece of a body as it arrives.
pub enum Frame {
    Data(Vec<u8>),
    Trailers,
    /// The transfer failed.
    Failed,
}

/// The mathematical value of a [`Frame`].
#[verifier::ext_equal]
pub enum FrameV {
    Data(Seq<u8>),
    Trailers,
    Failed,
}

impl View for Frame {
    type V = FrameV;

    open spec fn view(&self) -> FrameV {
        match self {
            Frame::Data(chunk) => FrameV::Data(chunk@),
            Frame::Trailers => FrameV::Trailers,
            Frame::Failed => FrameV::Failed,
        }
    }
}

/// What to do after a frame.
#[derive(Debug, Clone, Copy, PartialEq, Eq, Structural)]
pub enum Flow {
    /// Read the next frame.
    Continue,
    /// Stop reading.
    Finish,
    /// Give up: the body is incomplete.
    Abort,
}

/// A body that is being read.
pub struct BodyReader {
    collected: Vec<u8>,
    seen: usize,
    too_large: bool,
}

/// The mathematical value of a [`BodyReader`].
#[verifier::ext_equal]
pub struct BodyV {
    /// What is kept so far.
    pub kept: Seq<u8>,
    /// How many bytes have arrived.
    pub seen: nat,
    /// Whether they were too many.
    pub too_large: bool,
}

impl View for BodyReader {
    type V = BodyV;

    closed spec fn view(&self) -> BodyV {
        BodyV { kept: self.collected@, seen: self.seen as nat, too_large: self.too_large }
    }
}

/// Nothing has arrived yet.
pub open spec fn untouched() -> BodyV {
    BodyV { kept: Seq::empty(), seen: 0, too_large: false }
}

/// The state after a frame, and what to do then. Past the limit nothing is kept, but reading
/// goes on for a while.
pub open spec fn after(s: BodyV, frame: FrameV) -> (BodyV, Flow) {
    match frame {
        FrameV::Trailers => (s, Flow::Continue),
        FrameV::Failed => (s, Flow::Abort),
        FrameV::Data(chunk) => {
            let seen = s.seen + chunk.len();
            if seen > MAX_CONFIG_BODY_BYTES {
                (
                    BodyV { kept: Seq::empty(), seen, too_large: true },
                    if seen > MAX_DRAIN_BYTES {
                        Flow::Finish
                    } else {
                        Flow::Continue
                    },
                )
            } else {
                (BodyV { kept: s.kept + chunk, seen, too_large: s.too_large }, Flow::Continue)
            }
        },
    }
}

/// What a body that has ended comes to.
pub open spec fn ended(s: BodyV) -> Result<Seq<u8>, BodyError> {
    if s.too_large {
        Err(BodyError::TooLarge)
    } else {
        Ok(s.kept)
    }
}

impl BodyReader {
    /// A reader that has seen nothing.
    pub fn new() -> (r: BodyReader)
        ensures
            r@ == untouched(),
    {
        BodyReader { collected: Vec::new(), seen: 0, too_large: false }
    }

    /// Takes the next frame. The number of bytes in all must fit into a `usize`.
    pub fn accept(&mut self, frame: Frame) -> (r: Flow)
        requires
            frame matches Frame::Data(chunk) ==> old(self)@.seen + chunk@.len() <= usize::MAX,
        ensures
            (final(self)@, r) == after(old(self)@, frame@),
    {
        match frame {
            Frame::Trailers => Flow::Continue,
            Frame::Failed => Flow::Abort,
            Frame::Data(chunk) => {
                self.seen = self.seen + chunk.len();
                if self.seen > MAX_CONFIG_BODY_BYTES {
                    self.too_large = true;
                    self.collected = Vec::new();
                    if self.seen > MAX_DRAIN_BYTES {
                        return Flow::Finish;
                    }
                    return Flow::Continue;
                }
                let mut chunk = chunk;
                self.collected.append(&mut chunk);
                Flow::Continue
            },
        }
    }

    /// The body, once it has ended.
    pub fn finish(self) -> (r: Result<Vec<u8>, BodyError>)
        ensures
            match r {
                Ok(bytes) => ended(self@) == Ok::<Seq<u8>, BodyError>(bytes@),
                Err(e) => ended(self@) == Err::<Seq<u8>, BodyError>(e),
            },
    {
        if self.too_large {
            return Err(BodyError::TooLarge);
        }
        Ok(self.collected)
    }
}

// ---------------------------------------------------------------------------
// Laws
// ---------------------------------------------------------------------------
/// What reading these frames comes to, from the state `s` on.
pub open spec fn reading(s: BodyV, frames: Seq<FrameV>) -> Result<Seq<u8>, BodyError>
    decreases frames.len(),
{
    if frames.len() == 0 {
        ended(s)
    } else {
        let (next, flow) = after(s, frames[0]);
        match flow {
            Flow::Continue => reading(next, frames.skip(1)),
            Flow::Finish => ended(next),
            Flow::Abort => Err(BodyError::Incomplete),
        }
    }
}

/// The bytes in these frames.
pub open spec fn payload(frames: Seq<FrameV>) -> Seq<u8>
    decreases frames.len(),
{
    if frames.len() == 0 {
        Seq::empty()
    } else {
        (match frames[0] {
            FrameV::Data(chunk) => chunk,
            _ => Seq::empty(),
        }) + payload(frames.skip(1))
    }
}

/// No frame is a failure.
pub open spec fn intact(frames: Seq<FrameV>) -> bool {
    forall|i: int| 0 <= i < frames.len() ==> !((#[trigger] frames[i]) is Failed)
}

proof fn lemma_reading(s: BodyV, frames: Seq<FrameV>)
    requires
        intact(frames),
        s.too_large <==> s.seen > MAX_CONFIG_BODY_BYTES,
    ensures
        reading(s, frames) == if s.seen + payload(frames).len() > MAX_CONFIG_BODY_BYTES {
            Err::<Seq<u8>, BodyError>(BodyError::TooLarge)
        } else {
            Ok::<Seq<u8>, BodyError>(s.kept + payload(frames))
        },
    decreases frames.len(),
{
    if frames.len() == 0 {
        assert(s.kept + payload(frames) =~= s.kept);
    } else {
        let rest = frames.skip(1);
        let (next, flow) = after(s, frames[0]);
        assert(!(frames[0] is Failed));
        assert forall|i: int| 0 <= i < rest.len() implies !((#[trigger] rest[i]) is Failed) by {
            assert(rest[i] == frames[i + 1]);
        }
        lemma_reading(next, rest);
        match frames[0] {
            FrameV::Data(chunk) => {
                assert((s.kept + chunk) + payload(rest) =~= s.kept + (chunk + payload(rest)));
            },
            _ => {
                assert(Seq::<u8>::empty() + payload(rest) =~= payload(rest));
            },
        }
    }
}

/// A body that arrives whole is read back as it was sent if it keeps to the limit, and is
/// refused as too large if it does not.
pub proof fn a_body_is_read_whole_or_refused(frames: Seq<FrameV>)
    requires
        intact(frames),
    ensures
        reading(untouched(), frames) == if payload(frames).len() > MAX_CONFIG_BODY_BYTES {
            Err::<Seq<u8>, BodyError>(BodyError::TooLarge)
        } else {
            Ok::<Seq<u8>, BodyError>(payload(frames))
        },
{
    lemma_reading(untouched(), frames);
    assert(Seq::<u8>::empty() + payload(frames) =~= payload(frames));
}

/// No more than the limit is ever kept.
pub proof fn a_reader_keeps_no_more_than_the_limit(s: BodyV, frame: FrameV)
    requires
        s.kept.len() <= s.seen,
        s.kept.len() <= MAX_CONFIG_BODY_BYTES,
    ensures
        after(s, frame).0.kept.len() <= after(s, frame).0.seen,
        after(s, frame).0.kept.len() <= MAX_CONFIG_BODY_BYTES,
{
}

} // verus!
