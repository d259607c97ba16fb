use filum::addr_key::{create_raw_addr, ClientAddr, ClientIp};
use filum::bridge::{
    cast_step, demux_route, host_route, CastStep, DemuxAction, HostAction, ReadOutcome,
};
use filum::frame::{decode_frame, FrameError, Signal, BUFFER_SIZE, METADATA_SIZE};
use filum::registry::Registry;
use tokio_util::sync::CancellationToken;

fn pseudo_random(len: usize, seed: u32) -> Vec<u8> {
    let mut state = seed;
    (0..len)
        .map(|_| {
            state = state.wrapping_mul(1_664_525).wrapping_add(1_013_904_223);
            (state >> 24) as u8
        })
        .collect()
}

fn client_key(port: u16) -> [u8; 18] {
    create_raw_addr(&ClientAddr { ip: ClientIp::V4([127, 0, 0, 1]), port })
}

/// Frames what a client writes, in reads of at most the buffer size, then
/// its end of stream.
fn frames_of(key: [u8; 18], data: &[u8]) -> Vec<Vec<u8>> {
    let mut frames = Vec::new();
    let mut composer = Vec::new();
    for chunk in data.chunks(BUFFER_SIZE) {
        assert_eq!(cast_step(ReadOutcome::Read(chunk.len()), chunk, key, &mut composer), CastStep::Send);
        frames.push(composer.clone());
    }
    assert_eq!(cast_step(ReadOutcome::Read(0), &[], key, &mut composer), CastStep::SendLast);
    frames.push(composer.clone());
    frames
}

#[test]
fn echo_round_trip_through_both_bridges() {
    let key = client_key(50_000);
    let instance: Registry<Vec<u8>> = Registry::new();
    instance.register(key, Vec::new(), CancellationToken::new());
    let host: Registry<Vec<u8>> = Registry::new();

    // Instance to host: one Alive frame with "hello".
    let mut composer = Vec::new();
    cast_step(ReadOutcome::Read(5), b"hello", key, &mut composer);
    let (frame, _) = decode_frame(&composer).unwrap();
    assert_eq!(host_route(&host, &frame.key, frame.signal, frame.payload.len()), HostAction::Open);
    host.register(frame.key, frame.payload.clone(), CancellationToken::new());

    // Host to instance: the echo.
    let echoed = host.io_of(&key).unwrap();
    cast_step(ReadOutcome::Read(echoed.len()), &echoed, key, &mut composer);
    let (frame, _) = decode_frame(&composer).unwrap();
    assert_eq!(demux_route(&instance, &frame.key, frame.signal, frame.payload.len()), DemuxAction::Deliver);
    assert_eq!(frame.payload, b"hello".to_vec());

    // The client closes: the host tears its side down.
    cast_step(ReadOutcome::Read(0), &[], key, &mut composer);
    let (frame, _) = decode_frame(&composer).unwrap();
    assert_eq!(host_route(&host, &frame.key, frame.signal, frame.payload.len()), HostAction::CleanUp);
    assert!(host.clean_up(&frame.key).is_some());
    assert_eq!(host.len(), 0);
}

#[test]
fn three_concurrent_flows_keep_their_own_bytes() {
    let keys = [client_key(40_001), client_key(40_002), client_key(40_003)];
    let payloads: Vec<Vec<u8>> = (0..3).map(|i| pseudo_random(1024, i + 5)).collect();
    let host: Registry<usize> = Registry::new();

    // Interleave the frames of the three flows on one stream.
    let per_flow: Vec<Vec<Vec<u8>>> =
        keys.iter().zip(&payloads).map(|(k, p)| frames_of(*k, p)).collect();
    let mut wire = Vec::new();
    for round in 0..per_flow[0].len() {
        for flow in &per_flow {
            wire.extend_from_slice(&flow[round]);
        }
    }

    let mut received = vec![Vec::new(), Vec::new(), Vec::new()];
    let mut at = 0;
    let mut peak = 0;
    while at < wire.len() {
        let (frame, used) = decode_frame(&wire[at..]).unwrap();
        at += used;
        let flow = keys.iter().position(|k| *k == frame.key).unwrap();
        match host_route(&host, &frame.key, frame.signal, frame.payload.len()) {
            HostAction::Open => host.register(frame.key, flow, CancellationToken::new()),
            HostAction::Forward => assert_eq!(host.io_of(&frame.key), Some(flow)),
            HostAction::CleanUp => {
                host.clean_up(&frame.key);
            }
            HostAction::Ignore => {}
        }
        received[flow].extend_from_slice(&frame.payload);
        peak = peak.max(host.len());
    }
    assert_eq!(peak, 3);
    assert_eq!(host.len(), 0);
    assert_eq!(received, payloads);
}

#[test]
fn abrupt_drop_tears_down_host_side() {
    let key = client_key(40_100);
    let host: Registry<u8> = Registry::new();
    let token = CancellationToken::new();
    host.register(key, 0, token.clone());

    let mut composer = Vec::new();
    assert_eq!(cast_step(ReadOutcome::Failed, &[0u8; 10], key, &mut composer), CastStep::SendLast);
    let (frame, _) = decode_frame(&composer).unwrap();
    assert_eq!(frame.signal, Signal::Dead);
    assert_eq!(host_route(&host, &frame.key, frame.signal, 0), HostAction::CleanUp);
    host.clean_up(&frame.key);
    assert!(token.is_cancelled());
    assert_eq!(host.len(), 0);
}

#[test]
fn large_transfer_keeps_every_byte() {
    let data = pseudo_random(10 * 1024 * 1024, 1);
    let key = client_key(40_200);
    let mut received = Vec::with_capacity(data.len());
    let mut ended = false;
    for frame_bytes in frames_of(key, &data) {
        assert!(frame_bytes.len() <= METADATA_SIZE + BUFFER_SIZE);
        let (frame, used) = decode_frame(&frame_bytes).unwrap();
        assert_eq!(used, frame_bytes.len());
        if frame.signal == Signal::Dead {
            ended = true;
        } else {
            received.extend_from_slice(&frame.payload);
        }
    }
    assert!(ended);
    assert!(received == data);
}

#[test]
fn host_gone_mid_flow_closes_every_client() {
    let instance: Registry<u16> = Registry::new();
    let tokens: Vec<CancellationToken> = (0..4).map(|_| CancellationToken::new()).collect();
    for (i, t) in tokens.iter().enumerate() {
        instance.register(client_key(41_000 + i as u16), i as u16, t.clone());
    }
    // The stream breaks off inside a header.
    assert_eq!(decode_frame(&[0u8; 12]).err(), Some(FrameError::Truncated));
    let mut closed = instance.drain();
    closed.sort();
    assert_eq!(closed, vec![0, 1, 2, 3]);
    assert_eq!(instance.len(), 0);
    assert!(tokens.iter().all(|t| t.is_cancelled()));
}

#[test]
fn empty_alive_frame_ends_the_flow() {
    let key = client_key(42_000);
    let host: Registry<u8> = Registry::new();
    host.register(key, 1, CancellationToken::new());
    let mut composer = Vec::new();
    filum::frame::create_message(&mut composer, &[], 0, key, Signal::Alive);
    let (frame, _) = decode_frame(&composer).unwrap();
    assert_eq!(frame.signal, Signal::Alive);
    assert_eq!(host_route(&host, &frame.key, frame.signal, frame.payload.len()), HostAction::CleanUp);
    let instance: Registry<u8> = Registry::new();
    instance.register(key, 1, CancellationToken::new());
    assert_eq!(demux_route(&instance, &frame.key, frame.signal, 0), DemuxAction::CleanUp);
}
