//! The per-connection side of the read loop: the accumulator of undecoded
//! bytes, and what each outcome of a non-blocking read leads to.
use vstd::prelude::*;
use vstd::slice::slice_to_vec;
use crate::message_stream::{
    decode_one, frame_bytes, frame_length, lemma_round_trip, parse_msgstream, payload_fits,
    Decoded, MsgError, MsgInfo, MsgStream,
};
use crate::wire::le_u32;

verus! {

/// What the decode loop makes of a buffer: the frames in order, the bytes
/// left for later, and the decoding fault that stopped it, if any.
pub struct Drain {
    pub frames: Seq<(u32, Seq<u8>)>,
    pub rest: Seq<u8>,
    pub fault: Option<Decoded>,
}

/// Decodes frames from the start of `b` until it is incomplete or faulty.
/// After a fault nothing is kept: the stream resynchronises on fresh bytes.
pub open spec fn drain(b: Seq<u8>) -> Drain
    decreases b.len(),
{
    match decode_one(b) {
        Decoded::Incomplete => Drain { frames: seq![], rest: b, fault: None },
        Decoded::Frame { code, payload, size } => {
            if 0 < size <= b.len() {
                let d = drain(b.subrange(size as int, b.len() as int));
                Drain { frames: seq![(code, payload)] + d.frames, rest: d.rest, fault: d.fault }
            } else {
                Drain { frames: seq![], rest: seq![], fault: None }
            }
        },
        other => Drain { frames: seq![], rest: seq![], fault: Some(other) },
    }
}

/// The code and payload of each frame, in order.
pub open spec fn frames_view(frames: Seq<MsgInfo>) -> Seq<(u32, Seq<u8>)> {
    frames.map_values(|m: MsgInfo| m@)
}

/// The bytes received on one connection and not decoded yet.
pub struct ClientData {
    pub msg: Vec<u8>,
}

/// The frames that one chunk of bytes completed, in arrival order, and the
/// decoding error that made the accumulator drop its bytes, if any.
pub struct Absorbed {
    pub frames: Vec<MsgInfo>,
    pub error: Option<MsgError>,
}

impl ClientData {
    pub fn new() -> (r: Self)
        ensures
            r.msg@ == Seq::<u8>::empty(),
    {
        ClientData { msg: Vec::new() }
    }

    /// Appends `chunk` and decodes every whole frame, in order. The bytes of a
    /// partial frame stay for the next chunk; after a malformed or zero-length
    /// frame the accumulator is emptied.
    pub fn absorb(&mut self, chunk: &[u8]) -> (r: Absorbed)
        ensures
            frames_view(r.frames@) == drain(old(self).msg@ + chunk@).frames,
            final(self).msg@ == drain(old(self).msg@ + chunk@).rest,
            r.error is Some <==> drain(old(self).msg@ + chunk@).fault is Some,
            drain(old(self).msg@ + chunk@).fault == Some(Decoded::ZeroLength) ==> (r.error matches Some(
                MsgError::LogicError { .. },
            )),
            drain(old(self).msg@ + chunk@).fault == Some(Decoded::Malformed) ==> (r.error matches Some(
                MsgError::Deserialize(_),
            )),
    {
        let ghost whole = self.msg@ + chunk@;
        let mut buf: Vec<u8> = Vec::new();
        buf.append(&mut self.msg);
        let mut fresh = slice_to_vec(chunk);
        buf.append(&mut fresh);
        assert(buf@ =~= whole);
        let mut frames: Vec<MsgInfo> = Vec::new();
        let mut rem: &[u8] = buf.as_slice();
        loop
            invariant
                whole == old(self).msg@ + chunk@,
                drain(whole).frames =~= frames_view(frames@) + drain(rem@).frames,
                drain(whole).rest == drain(rem@).rest,
                drain(whole).fault == drain(rem@).fault,
            decreases rem@.len(),
        {
            let ghost before = rem@;
            match parse_msgstream(rem) {
                Ok(Some(MsgStream { msginfo, buffer_rem })) => {
                    let ghost d = decode_one(before);
                    assert(d is Frame);
                    assert(drain(before).frames =~= seq![(d->code, d->payload)] + drain(
                        buffer_rem@,
                    ).frames);
                    let ghost prev = frames@;
                    let ghost item = msginfo@;
                    frames.push(msginfo);
                    assert(frames_view(frames@) =~= frames_view(prev) + seq![item]);
                    rem = buffer_rem;
                },
                Ok(None) => {
                    assert(decode_one(before) is Incomplete);
                    assert(drain(before) == (Drain { frames: seq![], rest: before, fault: None }));
                    self.msg = slice_to_vec(rem);
                    assert(frames_view(frames@) + seq![] =~= frames_view(frames@));
                    return Absorbed { frames, error: None };
                },
                Err(e) => {
                    let ghost d = decode_one(before);
                    assert(d is ZeroLength || d is Malformed);
                    assert(drain(before) == (Drain { frames: seq![], rest: seq![], fault: Some(d) }));
                    self.msg = Vec::new();
                    assert(self.msg@ =~= seq![]);
                    assert(frames_view(frames@) + seq![] =~= frames_view(frames@));
                    return Absorbed { frames, error: Some(e) };
                },
            }
        }
    }
}

/// Where the decision about a connection goes after one non-blocking read.
pub enum ReadVerdict {
    /// Bytes arrived: feed them to the accumulator.
    Absorb,
    /// Nothing to do now: poll again later.
    Idle,
    /// The connection is lost: tear it down.
    Disconnect,
}

/// Which end of a connection runs the read loop.
pub enum Side {
    Client,
    Server,
}

/// The outcome of one non-blocking read.
pub enum ReadStatus {
    /// `len` bytes were read; zero means that the peer closed its end.
    Data { len: usize },
    WouldBlock,
    Interrupted,
    /// Any other error of the socket.
    Failed,
}

/// Decides what a read outcome means. Would-block and interrupted reads are
/// transient; any other error is fatal. A read of zero bytes is the peer
/// closing on the server, and no data yet on the client.
pub fn read_verdict(side: Side, status: ReadStatus) -> (r: ReadVerdict)
    ensures
        (status matches ReadStatus::Data { len } && len > 0) ==> r is Absorb,
        (status matches ReadStatus::Data { len } && len == 0 && side is Server) ==> r is Disconnect,
        (status matches ReadStatus::Data { len } && len == 0 && side is Client) ==> r is Idle,
        status is WouldBlock ==> r is Idle,
        status is Interrupted ==> r is Idle,
        status is Failed ==> r is Disconnect,
{
    match status {
        ReadStatus::Data { len } => {
            if len > 0 {
                ReadVerdict::Absorb
            } else {
                match side {
                    Side::Server => ReadVerdict::Disconnect,
                    Side::Client => ReadVerdict::Idle,
                }
            }
        },
        ReadStatus::WouldBlock => ReadVerdict::Idle,
        ReadStatus::Interrupted => ReadVerdict::Idle,
        ReadStatus::Failed => ReadVerdict::Disconnect,
    }
}

/// Fewer than four bytes, or four plus fewer than the declared frame length,
/// decode to nothing: the decoder answers Incomplete and the accumulator keeps
/// every byte.
pub proof fn lemma_incomplete(b: Seq<u8>)
    requires
        b.len() < 4 || b.len() < 4 + frame_length(b),
    ensures
        decode_one(b) is Incomplete,
        drain(b) == (Drain { frames: seq![], rest: b, fault: None }),
{
}

/// A frame that declares a length of zero is a protocol error, whatever
/// follows its prefix: nothing is delivered and the accumulator drops its
/// bytes.
pub proof fn lemma_zero_length_rejected(b: Seq<u8>)
    requires
        b.len() >= 4,
        frame_length(b) == 0,
    ensures
        decode_one(b) is ZeroLength,
        drain(b) == (Drain { frames: seq![], rest: seq![], fault: Some(Decoded::ZeroLength) }),
{
}

/// An encoded frame alone drains to exactly that frame, with nothing left.
pub proof fn lemma_drain_one_frame(code: u32, payload: Seq<u8>)
    requires
        payload_fits(payload.len()),
    ensures
        drain(frame_bytes(code, payload)) == (Drain {
            frames: seq![(code, payload)],
            rest: seq![],
            fault: None,
        }),
{
    let f = frame_bytes(code, payload);
    lemma_round_trip(code, payload, seq![]);
    assert(f + seq![] =~= f);
    let tail = f.subrange(f.len() as int, f.len() as int);
    assert(tail =~= seq![]);
    assert(decode_one(tail) is Incomplete);
    assert(drain(tail) == (Drain { frames: seq![], rest: tail, fault: None }));
    assert(seq![(code, payload)] + seq![] =~= seq![(code, payload)]);
}

/// The life of one connection's read loop.
pub enum ActorState {
    Running,
    /// Leaving: the read half is being closed and the accumulator cleared.
    ShuttingDown,
    /// Final: the loop has exited.
    Closed,
}

/// What a read loop observes at one pass.
pub enum ActorEvent {
    /// The shared shutdown flag is set.
    ShutdownSeen,
    /// One read happened and was judged.
    Read(ReadVerdict),
    /// The read half is closed and the accumulator cleared.
    CleanedUp,
}

/// The next state of a read loop. A running loop keeps running through data
/// and idle reads, and starts shutting down on the shutdown flag or a fatal
/// read; a loop that is shutting down closes once it has cleaned up; a
/// closed loop stays closed.
pub fn actor_step(state: ActorState, event: ActorEvent) -> (r: ActorState)
    ensures
        state is Running && event is ShutdownSeen ==> r is ShuttingDown,
        state is Running && (event matches ActorEvent::Read(v) && v is Disconnect) ==> r is ShuttingDown,
        state is Running && (event matches ActorEvent::Read(v) && !(v is Disconnect)) ==> r is Running,
        state is Running && event is CleanedUp ==> r is Running,
        state is ShuttingDown && event is CleanedUp ==> r is Closed,
        state is ShuttingDown && !(event is CleanedUp) ==> r is ShuttingDown,
        state is Closed ==> r is Closed,
{
    match state {
        ActorState::Running => match event {
            ActorEvent::ShutdownSeen => ActorState::ShuttingDown,
            ActorEvent::Read(ReadVerdict::Disconnect) => ActorState::ShuttingDown,
            ActorEvent::Read(_) => ActorState::Running,
            ActorEvent::CleanedUp => ActorState::Running,
        },
        ActorState::ShuttingDown => match event {
            ActorEvent::CleanedUp => ActorState::Closed,
            _ => ActorState::ShuttingDown,
        },
        ActorState::Closed => ActorState::Closed,
    }
}

/// The outcome of one non-blocking `accept`.
pub enum AcceptStatus {
    Accepted,
    WouldBlock,
    /// Any other error of the listening socket.
    Failed,
}

/// What the acceptor loop does next.
pub enum AcceptAction {
    /// Register the new connection, notify, and start reading it.
    Admit,
    /// Close the new socket without registering it or calling any hook.
    Refuse,
    /// Nothing pending: sleep briefly and try again.
    Sleep,
    /// The listener failed: end the acceptor loop; live connections go on.
    Stop,
}

/// Decides what to do with an `accept` outcome, given the policy's answer for
/// an accepted peer. A failing listener is never retried forever.
pub fn accept_verdict(status: AcceptStatus, allowed: bool) -> (r: AcceptAction)
    ensures
        status is Accepted && allowed ==> r is Admit,
        status is Accepted && !allowed ==> r is Refuse,
        status is WouldBlock ==> r is Sleep,
        status is Failed ==> r is Stop,
{
    match status {
        AcceptStatus::Accepted => {
            if allowed {
                AcceptAction::Admit
            } else {
                AcceptAction::Refuse
            }
        },
        AcceptStatus::WouldBlock => AcceptAction::Sleep,
        AcceptStatus::Failed => AcceptAction::Stop,
    }
}

/// A frame split at any byte offset: the first part alone decodes to nothing
/// and is kept whole; once the rest arrives, the accumulated bytes decode to
/// exactly that frame, as the undivided frame does, with nothing left over.
pub proof fn lemma_split_reassembly(code: u32, payload: Seq<u8>, k: int)
    requires
        payload_fits(payload.len()),
        0 <= k < frame_bytes(code, payload).len(),
    ensures
        decode_one(frame_bytes(code, payload).take(k)) is Incomplete,
        drain(frame_bytes(code, payload).take(k)) == (Drain {
            frames: seq![],
            rest: frame_bytes(code, payload).take(k),
            fault: None,
        }),
        drain(frame_bytes(code, payload).take(k) + frame_bytes(code, payload).skip(k)) == (Drain {
            frames: seq![(code, payload)],
            rest: seq![],
            fault: None,
        }),
{
    let f = frame_bytes(code, payload);
    let p = f.take(k);
    lemma_round_trip(code, payload, seq![]);
    assert(f + seq![] =~= f);
    if k >= 4 {
        assert(le_u32(p) == le_u32(f));
    }
    assert(decode_one(p) is Incomplete);
    assert(p + f.skip(k) =~= f);
    lemma_drain_one_frame(code, payload);
}

} // verus!
