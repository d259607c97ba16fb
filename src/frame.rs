//! The wire format of one frame: an 18-byte address key, a big-endian
//! payload length, a signal byte, then the payload.
use vstd::prelude::*;

verus! {

/// Size of the address key that opens every frame.
pub const ADDR_KEY_SIZE: usize = 18;

/// Offset of the port inside an address key.
pub const PORT_START: usize = 16;

/// Size of the frame header: key, length and signal.
pub const METADATA_SIZE: usize = 21;

/// Size of the read buffer, and so the largest payload a bridge emits.
pub const BUFFER_SIZE: usize = 4096;

/// Capacity of each per-client channel on the host side.
pub const CHANNEL_SIZE: usize = 4096;

/// Whether a frame carries live data (1) or ends its flow (0).
#[derive(PartialEq, Eq, Structural, Clone, Copy, Debug)]
pub enum Signal {
    Dead,
    Alive,
}

/// The signal byte written on the wire.
pub open spec fn signal_byte(s: Signal) -> u8 {
    match s {
        Signal::Alive => 1u8,
        Signal::Dead => 0u8,
    }
}

/// The signal read back from a byte: 1 is Alive, anything else Dead.
pub open spec fn signal_of_byte(b: u8) -> Signal {
    if b == 1 {
        Signal::Alive
    } else {
        Signal::Dead
    }
}

/// A number below 2^16 as two big-endian bytes.
pub open spec fn be16(n: nat) -> Seq<u8> {
    seq![(n / 256) as u8, (n % 256) as u8]
}

/// The number that two big-endian bytes hold.
pub open spec fn be16_value(hi: u8, lo: u8) -> nat {
    (hi as nat) * 256 + (lo as nat)
}

/// The 21-byte header of a frame.
pub open spec fn header_bytes(key: Seq<u8>, length: nat, signal: Signal) -> Seq<u8> {
    key + be16(length) + seq![signal_byte(signal)]
}

/// A whole frame: its header followed by the payload.
pub open spec fn frame_bytes(key: Seq<u8>, payload: Seq<u8>, signal: Signal) -> Seq<u8> {
    header_bytes(key, payload.len(), signal) + payload
}

/// Writes into `result` the frame for the first `length` bytes of `packet`.
pub fn create_message(
    result: &mut Vec<u8>,
    packet: &[u8],
    length: usize,
    raw_addr_port: [u8; ADDR_KEY_SIZE],
    signal: Signal,
)
    requires
        length <= packet@.len(),
        length <= u16::MAX,
    ensures
        final(result)@ == frame_bytes(raw_addr_port@, packet@.subrange(0, length as int), signal),
{
    result.clear();
    let mut i: usize = 0;
    while i < ADDR_KEY_SIZE
        invariant
            i <= ADDR_KEY_SIZE,
            result@ == raw_addr_port@.subrange(0, i as int),
        decreases ADDR_KEY_SIZE - i,
    {
        result.push(raw_addr_port[i]);
        i = i + 1;
    }
    result.push((length / 256) as u8);
    result.push((length % 256) as u8);
    match signal {
        Signal::Alive => result.push(1u8),
        Signal::Dead => result.push(0u8),
    }
    let ghost head = result@;
    assert(head == header_bytes(raw_addr_port@, length as nat, signal));
    let mut j: usize = 0;
    while j < length
        invariant
            j <= length,
            length <= packet@.len(),
            result@ == head + packet@.subrange(0, j as int),
        decreases length - j,
    {
        result.push(packet[j]);
        j = j + 1;
        assert(result@ == head + packet@.subrange(0, j as int));
    }
}

/// Why a byte sequence does not open with a well-formed frame.
#[derive(PartialEq, Eq, Structural, Clone, Copy, Debug)]
pub enum FrameError {
    /// The header, or the payload it declares, is cut short.
    Truncated,
    /// A Dead frame declares a payload, which it never carries.
    DeadWithPayload,
}

/// The payload length that a 21-byte header declares.
pub open spec fn header_length(h: Seq<u8>) -> nat {
    be16_value(h[18], h[19])
}

/// The signal that a 21-byte header carries.
pub open spec fn header_signal(h: Seq<u8>) -> Signal {
    signal_of_byte(h[20])
}

/// How many payload bytes follow a header of this length and signal: all of
/// them for Alive, none for Dead, where a declared length is refused.
pub open spec fn payload_len_spec(length: nat, signal: Signal) -> Result<nat, FrameError> {
    match signal {
        Signal::Alive => Ok(length),
        Signal::Dead => if length == 0 {
            Ok(0)
        } else {
            Err(FrameError::DeadWithPayload)
        },
    }
}

/// The frame that opens `bytes`: its key, signal, payload and the number of
/// bytes it takes.
pub open spec fn decode_spec(bytes: Seq<u8>) -> Result<(Seq<u8>, Signal, Seq<u8>, nat), FrameError> {
    if bytes.len() < METADATA_SIZE {
        Err(FrameError::Truncated)
    } else {
        match payload_len_spec(header_length(bytes), header_signal(bytes)) {
            Err(e) => Err(e),
            Ok(n) => if bytes.len() < METADATA_SIZE + n {
                Err(FrameError::Truncated)
            } else {
                Ok(
                    (
                        bytes.subrange(0, ADDR_KEY_SIZE as int),
                        header_signal(bytes),
                        bytes.subrange(METADATA_SIZE as int, METADATA_SIZE + n),
                        (METADATA_SIZE + n) as nat,
                    ),
                )
            },
        }
    }
}

/// Reads a 21-byte header: the address key, the declared payload length and
/// the signal.
pub fn parse_metadata(metadata: &[u8; METADATA_SIZE]) -> (r: ([u8; ADDR_KEY_SIZE], usize, Signal))
    ensures
        r.0@ == metadata@.subrange(0, ADDR_KEY_SIZE as int),
        r.1 as nat == header_length(metadata@),
        r.2 == header_signal(metadata@),
{
    let mut key = [0u8; ADDR_KEY_SIZE];
    let mut i: usize = 0;
    while i < ADDR_KEY_SIZE
        invariant
            i <= ADDR_KEY_SIZE,
            forall|k: int| 0 <= k < i ==> key@[k] == metadata@[k],
        decreases ADDR_KEY_SIZE - i,
    {
        key[i] = metadata[i];
        i = i + 1;
    }
    assert(key@ =~= metadata@.subrange(0, ADDR_KEY_SIZE as int));
    let length = (metadata[18] as usize) * 256 + (metadata[19] as usize);
    let signal = if metadata[20] == 1 {
        Signal::Alive
    } else {
        Signal::Dead
    };
    (key, length, signal)
}

/// How many payload bytes follow a header, or why the header is refused.
pub fn payload_len(length: usize, signal: Signal) -> (r: Result<usize, FrameError>)
    ensures
        match r {
            Ok(n) => payload_len_spec(length as nat, signal) == Ok::<nat, FrameError>(n as nat),
            Err(e) => payload_len_spec(length as nat, signal) == Err::<nat, FrameError>(e),
        },
{
    match signal {
        Signal::Alive => Ok(length),
        Signal::Dead => if length == 0 {
            Ok(0)
        } else {
            Err(FrameError::DeadWithPayload)
        },
    }
}

/// One decoded frame.
pub struct Frame {
    pub key: [u8; ADDR_KEY_SIZE],
    pub signal: Signal,
    pub payload: Vec<u8>,
}

/// Decodes the frame that opens `bytes`, and says how many bytes it took.
pub fn decode_frame(bytes: &[u8]) -> (r: Result<(Frame, usize), FrameError>)
    ensures
        match r {
            Ok((f, used)) => decode_spec(bytes@) == Ok::<_, FrameError>(
                (f.key@, f.signal, f.payload@, used as nat),
            ),
            Err(e) => decode_spec(bytes@) == Err::<(Seq<u8>, Signal, Seq<u8>, nat), FrameError>(e),
        },
{
    if bytes.len() < METADATA_SIZE {
        return Err(FrameError::Truncated);
    }
    let mut header = [0u8; METADATA_SIZE];
    let mut i: usize = 0;
    while i < METADATA_SIZE
        invariant
            i <= METADATA_SIZE,
            METADATA_SIZE <= bytes@.len(),
            forall|k: int| 0 <= k < i ==> header@[k] == bytes@[k],
        decreases METADATA_SIZE - i,
    {
        header[i] = bytes[i];
        i = i + 1;
    }
    let (key, length, signal) = parse_metadata(&header);
    let n = match payload_len(length, signal) {
        Ok(n) => n,
        Err(e) => {
            return Err(e);
        },
    };
    if bytes.len() - METADATA_SIZE < n {
        return Err(FrameError::Truncated);
    }
    let mut payload: Vec<u8> = Vec::new();
    let mut j: usize = 0;
    while j < n
        invariant
            j <= n,
            METADATA_SIZE + n <= bytes@.len(),
            bytes@.len() == bytes.len(),
            payload@ == bytes@.subrange(METADATA_SIZE as int, METADATA_SIZE + j),
        decreases n - j,
    {
        payload.push(bytes[METADATA_SIZE + j]);
        j = j + 1;
        assert(payload@ =~= bytes@.subrange(METADATA_SIZE as int, METADATA_SIZE + j));
    }
    assert(key@ =~= bytes@.subrange(0, ADDR_KEY_SIZE as int));
    Ok((Frame { key, signal, payload }, METADATA_SIZE + n))
}

/// Two big-endian bytes give back the number they were written from.
pub proof fn lemma_be16_round_trip(n: nat)
    requires
        n <= u16::MAX,
    ensures
        be16(n).len() == 2,
        be16_value(be16(n)[0], be16(n)[1]) == n,
{
}

/// Decoding a frame, followed by any bytes, gives back the key, signal and
/// payload it was encoded from, and takes exactly the frame's bytes.
pub proof fn lemma_frame_round_trip(key: Seq<u8>, payload: Seq<u8>, signal: Signal, rest: Seq<u8>)
    requires
        key.len() == ADDR_KEY_SIZE,
        payload.len() <= BUFFER_SIZE,
        signal == Signal::Dead ==> payload.len() == 0,
    ensures
        decode_spec(frame_bytes(key, payload, signal) + rest) == Ok::<_, FrameError>(
            (key, signal, payload, (METADATA_SIZE + payload.len()) as nat),
        ),
{
    let bytes = frame_bytes(key, payload, signal) + rest;
    lemma_be16_round_trip(payload.len());
    assert(bytes[18] == be16(payload.len())[0]);
    assert(bytes[19] == be16(payload.len())[1]);
    assert(bytes[20] == signal_byte(signal));
    assert(header_length(bytes) == payload.len());
    assert(header_signal(bytes) == signal);
    assert(bytes.subrange(0, ADDR_KEY_SIZE as int) =~= key);
    assert(bytes.subrange(METADATA_SIZE as int, METADATA_SIZE + payload.len()) =~= payload);
}

/// A frame as the values it carries: key, signal and payload.
pub type FrameModel = (Seq<u8>, Signal, Seq<u8>);

/// A frame that a bridge may write: an 18-byte key, a payload no longer than
/// the buffer, and none on a Dead frame.
pub open spec fn well_formed(f: FrameModel) -> bool {
    &&& f.0.len() == ADDR_KEY_SIZE
    &&& f.2.len() <= BUFFER_SIZE
    &&& f.1 == Signal::Dead ==> f.2.len() == 0
}

/// The bytes of these frames written one after another, each whole.
pub open spec fn encode_all(frames: Seq<FrameModel>) -> Seq<u8>
    decreases frames.len(),
{
    if frames.len() == 0 {
        Seq::empty()
    } else {
        frame_bytes(frames[0].0, frames[0].2, frames[0].1) + encode_all(frames.drop_first())
    }
}

/// The frames that a byte sequence splits into, read one after another to
/// its end, or `None` if it does not end on a frame boundary or holds a
/// malformed frame.
pub open spec fn decode_all(bytes: Seq<u8>) -> Option<Seq<FrameModel>>
    decreases bytes.len(),
{
    if bytes.len() == 0 {
        Some(Seq::empty())
    } else {
        match decode_spec(bytes) {
            Err(_) => None,
            Ok((key, signal, payload, used)) => if used == 0 || used > bytes.len() {
                None
            } else {
                match decode_all(bytes.subrange(used as int, bytes.len() as int)) {
                    Some(rest) => Some(seq![(key, signal, payload)] + rest),
                    None => None,
                }
            },
        }
    }
}

/// A stream of whole frames, from any mix of flows, reads back as exactly
/// those frames in that order; so each flow's frames come out whole and in
/// the order they were written.
pub proof fn lemma_stream_round_trip(frames: Seq<FrameModel>)
    requires
        forall|i: int| 0 <= i < frames.len() ==> well_formed(#[trigger] frames[i]),
    ensures
        decode_all(encode_all(frames)) == Some(frames),
    decreases frames.len(),
{
    if frames.len() == 0 {
    } else {
        let f = frames[0];
        assert(well_formed(f));
        let head = frame_bytes(f.0, f.2, f.1);
        let rest = encode_all(frames.drop_first());
        let bytes = head + rest;
        lemma_frame_round_trip(f.0, f.2, f.1, rest);
        assert(bytes.subrange(head.len() as int, bytes.len() as int) =~= rest);
        assert forall|i: int| 0 <= i < frames.drop_first().len() implies well_formed(
            #[trigger] frames.drop_first()[i],
        ) by {
            assert(frames.drop_first()[i] == frames[i + 1]);
        }
        lemma_stream_round_trip(frames.drop_first());
        assert(seq![(f.0, f.1, f.2)] + frames.drop_first() =~= frames);
    }
}

} // verus!
