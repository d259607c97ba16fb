//! The decisions of the two bridges. The I/O loops around them read a frame
//! header or a client socket, ask here what to do, and do it.
use crate::frame::{
    create_message, decode_spec, frame_bytes, lemma_frame_round_trip, Signal, ADDR_KEY_SIZE,
    BUFFER_SIZE, METADATA_SIZE,
};
use crate::registry::Registry;
use vstd::prelude::*;

verus! {

/// What a flow's reader got from its socket.
#[derive(PartialEq, Eq, Structural, Clone, Copy, Debug)]
pub enum ReadOutcome {
    /// The flow's cancellation fired first.
    Cancelled,
    /// This many bytes were read into the buffer; zero is end of stream.
    Read(usize),
    /// The read failed.
    Failed,
}

/// What a flow's reader does after a read.
#[derive(PartialEq, Eq, Structural, Clone, Copy, Debug)]
pub enum CastStep {
    /// Exit without writing anything.
    Stop,
    /// Write the composed frame on the shared stream and read again.
    Send,
    /// Write the composed frame, which ends the flow, and exit.
    SendLast,
}

/// The step a flow's reader takes after a read.
pub open spec fn cast_step_spec(outcome: ReadOutcome) -> CastStep {
    match outcome {
        ReadOutcome::Cancelled => CastStep::Stop,
        ReadOutcome::Read(n) => if n > 0 {
            CastStep::Send
        } else {
            CastStep::SendLast
        },
        ReadOutcome::Failed => CastStep::SendLast,
    }
}

/// The frame a flow's reader writes after a read: the bytes read in an Alive
/// frame, or an empty Dead frame at the end of the stream or on a failure.
pub open spec fn cast_frame(key: Seq<u8>, outcome: ReadOutcome, buffer: Seq<u8>) -> Seq<u8> {
    match outcome {
        ReadOutcome::Read(n) => if n > 0 {
            frame_bytes(key, buffer.subrange(0, n as int), Signal::Alive)
        } else {
            frame_bytes(key, Seq::empty(), Signal::Dead)
        },
        _ => frame_bytes(key, Seq::empty(), Signal::Dead),
    }
}

/// Decides what a flow's reader does after a read, and composes in
/// `composer` the frame it is to write. A cancelled flow writes nothing.
pub fn cast_step(
    outcome: ReadOutcome,
    buffer: &[u8],
    key: [u8; ADDR_KEY_SIZE],
    composer: &mut Vec<u8>,
) -> (r: CastStep)
    requires
        match outcome {
            ReadOutcome::Read(n) => n <= buffer@.len() && n <= BUFFER_SIZE,
            _ => true,
        },
    ensures
        r == cast_step_spec(outcome),
        r != CastStep::Stop ==> final(composer)@ == cast_frame(key@, outcome, buffer@),
        final(composer)@.len() <= METADATA_SIZE + BUFFER_SIZE,
{
    match outcome {
        ReadOutcome::Cancelled => {
            composer.clear();
            CastStep::Stop
        },
        ReadOutcome::Read(n) => {
            if n > 0 {
                create_message(composer, buffer, n, key, Signal::Alive);
                CastStep::Send
            } else {
                create_message(composer, buffer, 0, key, Signal::Dead);
                CastStep::SendLast
            }
        },
        ReadOutcome::Failed => {
            create_message(composer, buffer, 0, key, Signal::Dead);
            CastStep::SendLast
        },
    }
}

/// What the host does with a frame from the instance.
#[derive(PartialEq, Eq, Structural, Clone, Copy, Debug)]
pub enum HostAction {
    /// Cancel the flow and remove it from the registry.
    CleanUp,
    /// Hand the payload to the flow's channel.
    Forward,
    /// Register a new flow, queue the payload, and open its backing socket.
    Open,
    /// Nothing to do: an empty Alive frame for a flow that does not exist.
    Ignore,
}

/// The host's decision for a frame, given whether its key is registered. An
/// Alive frame with no payload ends its flow, as a Dead frame does.
pub open spec fn host_action_spec(signal: Signal, length: nat, known: bool) -> HostAction {
    if signal == Signal::Dead {
        HostAction::CleanUp
    } else if length == 0 {
        if known {
            HostAction::CleanUp
        } else {
            HostAction::Ignore
        }
    } else if known {
        HostAction::Forward
    } else {
        HostAction::Open
    }
}

/// Decides what the host does with a frame.
pub fn host_action(signal: Signal, length: usize, known: bool) -> (r: HostAction)
    ensures
        r == host_action_spec(signal, length as nat, known),
{
    match signal {
        Signal::Dead => HostAction::CleanUp,
        Signal::Alive => if length == 0 {
            if known {
                HostAction::CleanUp
            } else {
                HostAction::Ignore
            }
        } else if known {
            HostAction::Forward
        } else {
            HostAction::Open
        },
    }
}

/// What the instance does with a frame from the host.
#[derive(PartialEq, Eq, Structural, Clone, Copy, Debug)]
pub enum DemuxAction {
    /// Shut the client's write half, cancel the flow, remove it.
    CleanUp,
    /// Write the payload to the client.
    Deliver,
    /// The key is unknown: answer with a Dead frame for it.
    RefuseUnknown,
}

/// The instance's decision for a frame, given whether its key is
/// registered. An Alive frame with no payload ends its flow.
pub open spec fn demux_action_spec(signal: Signal, length: nat, known: bool) -> DemuxAction {
    if signal == Signal::Dead {
        DemuxAction::CleanUp
    } else if !known {
        DemuxAction::RefuseUnknown
    } else if length == 0 {
        DemuxAction::CleanUp
    } else {
        DemuxAction::Deliver
    }
}

/// Decides what the instance does with a frame.
pub fn demux_action(signal: Signal, length: usize, known: bool) -> (r: DemuxAction)
    ensures
        r == demux_action_spec(signal, length as nat, known),
{
    match signal {
        Signal::Dead => DemuxAction::CleanUp,
        Signal::Alive => if !known {
            DemuxAction::RefuseUnknown
        } else if length == 0 {
            DemuxAction::CleanUp
        } else {
            DemuxAction::Deliver
        },
    }
}

/// The empty Dead frame for a key, which tells the peer to end that flow.
pub fn dead_frame(key: [u8; ADDR_KEY_SIZE]) -> (r: Vec<u8>)
    ensures
        r@ == frame_bytes(key@, Seq::empty(), Signal::Dead),
{
    let mut composer: Vec<u8> = Vec::new();
    let empty: [u8; 0] = [];
    create_message(&mut composer, empty.as_slice(), 0, key, Signal::Dead);
    assert(empty@.subrange(0, 0) =~= Seq::<u8>::empty());
    composer
}

/// The byte the instance sends, and the host answers, to check a new stream.
pub const HANDSHAKE_BYTE: u8 = 1;

/// Looks up the frame's key in the host's registry and decides what to do.
/// The registry is shared, so the answer is one of the two decisions.
pub fn host_route<T>(registry: &Registry<T>, key: &[u8; ADDR_KEY_SIZE], signal: Signal, length: usize) -> (r: HostAction)
    ensures
        r == host_action_spec(signal, length as nat, true) || r == host_action_spec(
            signal,
            length as nat,
            false,
        ),
{
    let known = registry.contains(key);
    host_action(signal, length, known)
}

/// Looks up the frame's key in the instance's registry and decides what to
/// do. The registry is shared, so the answer is one of the two decisions.
pub fn demux_route<T>(registry: &Registry<T>, key: &[u8; ADDR_KEY_SIZE], signal: Signal, length: usize) -> (r: DemuxAction)
    ensures
        r == demux_action_spec(signal, length as nat, true) || r == demux_action_spec(
            signal,
            length as nat,
            false,
        ),
{
    let known = registry.contains(key);
    demux_action(signal, length, known)
}

/// A Dead frame ends its flow on either side, whether its key is registered
/// or not, and once a flow is cancelled its reader writes no further frame.
pub proof fn lemma_dead_ends_flow(length: nat, known: bool)
    ensures
        host_action_spec(Signal::Dead, length, known) == HostAction::CleanUp,
        demux_action_spec(Signal::Dead, length, known) == DemuxAction::CleanUp,
        cast_step_spec(ReadOutcome::Cancelled) == CastStep::Stop,
{
}

/// The bytes one flow's reader writes on the shared stream when it reads
/// these chunks, none of them empty, and then meets the end of its stream.
pub open spec fn flow_frames(key: Seq<u8>, chunks: Seq<Seq<u8>>) -> Seq<u8>
    decreases chunks.len(),
{
    if chunks.len() == 0 {
        frame_bytes(key, Seq::empty(), Signal::Dead)
    } else {
        frame_bytes(key, chunks[0], Signal::Alive) + flow_frames(key, chunks.drop_first())
    }
}

/// What the receiving side writes to a flow's socket as it decodes these
/// bytes frame by frame: `Some(data)` once a frame ends the flow (a Dead
/// frame, or an Alive frame with no payload), `None` if the bytes break off
/// or are malformed before that.
pub open spec fn delivered(bytes: Seq<u8>) -> Option<Seq<u8>>
    decreases bytes.len(),
{
    match decode_spec(bytes) {
        Err(_) => None,
        Ok((key, signal, payload, used)) => if signal == Signal::Dead || payload.len() == 0 {
            Some(Seq::empty())
        } else if used == 0 || used > bytes.len() {
            None
        } else {
            match delivered(bytes.subrange(used as int, bytes.len() as int)) {
                Some(rest) => Some(payload + rest),
                None => None,
            }
        },
    }
}

/// A flow keeps its bytes: whatever the reader read, in order and in chunks
/// of at most the buffer size, is exactly what the other side writes to its
/// socket before it sees the flow end.
pub proof fn lemma_flow_delivers(key: Seq<u8>, chunks: Seq<Seq<u8>>)
    requires
        key.len() == ADDR_KEY_SIZE,
        forall|i: int|
            0 <= i < chunks.len() ==> 0 < #[trigger] chunks[i].len() <= BUFFER_SIZE,
    ensures
        delivered(flow_frames(key, chunks)) == Some(chunks.flatten()),
    decreases chunks.len(),
{
    if chunks.len() == 0 {
        lemma_frame_round_trip(key, Seq::empty(), Signal::Dead, Seq::empty());
        assert(frame_bytes(key, Seq::empty(), Signal::Dead) + Seq::<u8>::empty() =~= frame_bytes(
            key,
            Seq::empty(),
            Signal::Dead,
        ));
    } else {
        let head = frame_bytes(key, chunks[0], Signal::Alive);
        let rest = flow_frames(key, chunks.drop_first());
        let bytes = head + rest;
        lemma_frame_round_trip(key, chunks[0], Signal::Alive, rest);
        assert(bytes.subrange(head.len() as int, bytes.len() as int) =~= rest);
        assert forall|i: int| 0 <= i < chunks.drop_first().len() implies 0 < #[trigger] chunks.drop_first()[i].len() <= BUFFER_SIZE by {
            assert(chunks.drop_first()[i] == chunks[i + 1]);
        }
        lemma_flow_delivers(key, chunks.drop_first());
    }
}

} // verus!
