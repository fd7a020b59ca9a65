//! Subscriber pool behaviour: fan-out, pruning on disconnect, tolerance of
//! other write failures.

use mavlink::common::{MavMessage, ATTITUDE_DATA};
use mavrelay::chunk::RawChunk;
use mavrelay::pool::{SubscriberPool, WriteOutcome};
use mavrelay::reassembler::FrameReassembler;
use mavrelay::telemetry::{encode_record, extract_all};

#[test]
fn fresh_pool_is_empty() {
    let pool = SubscriberPool::new();
    assert_eq!(pool.subscriber_count(), 0);
}

#[test]
fn accepted_subscribers_get_distinct_handles() {
    let mut pool = SubscriberPool::new();
    assert!(pool.can_accept());
    let a = pool.accept_subscriber();
    let b = pool.accept_subscriber();
    let c = pool.accept_subscriber();
    assert_eq!(pool.subscriber_count(), 3);
    assert_ne!(a, b);
    assert_ne!(a, c);
    assert_ne!(b, c);
}

#[test]
fn fanout_keeps_every_subscriber_when_all_writes_succeed() {
    let mut pool = SubscriberPool::new();
    for _ in 0..4 {
        pool.accept_subscriber();
    }
    let outcomes = vec![WriteOutcome::Delivered; 4];
    pool.apply_broadcast(&outcomes);
    assert_eq!(pool.subscriber_count(), 4);
}

#[test]
fn disconnect_prunes_exactly_that_subscriber() {
    let mut pool = SubscriberPool::new();
    for _ in 0..3 {
        pool.accept_subscriber();
    }
    let outcomes = vec![
        WriteOutcome::Delivered,
        WriteOutcome::Disconnected,
        WriteOutcome::Delivered,
    ];
    pool.apply_broadcast(&outcomes);
    assert_eq!(pool.subscriber_count(), 2);

    // The survivors are untouched by a clean pass.
    let outcomes = vec![WriteOutcome::Delivered; 2];
    pool.apply_broadcast(&outcomes);
    assert_eq!(pool.subscriber_count(), 2);
}

#[test]
fn several_disconnects_are_removed_in_one_sweep() {
    let mut pool = SubscriberPool::new();
    for _ in 0..5 {
        pool.accept_subscriber();
    }
    let outcomes = vec![
        WriteOutcome::Disconnected,
        WriteOutcome::Delivered,
        WriteOutcome::Disconnected,
        WriteOutcome::Delivered,
        WriteOutcome::Disconnected,
    ];
    pool.apply_broadcast(&outcomes);
    assert_eq!(pool.subscriber_count(), 2);
}

#[test]
fn other_write_failures_are_tolerated() {
    let mut pool = SubscriberPool::new();
    for _ in 0..2 {
        pool.accept_subscriber();
    }
    let outcomes = vec![WriteOutcome::OtherFailure, WriteOutcome::Delivered];
    pool.apply_broadcast(&outcomes);
    assert_eq!(pool.subscriber_count(), 2);
}

#[test]
fn scenario_b_two_subscribers_then_one_disconnect() {
    // Two subscribers connect before any telemetry arrives.
    let mut pool = SubscriberPool::new();
    pool.accept_subscriber();
    pool.accept_subscriber();
    assert_eq!(pool.subscriber_count(), 2);

    // A decoded attitude message is broadcast: both receive identical bytes.
    let msg = MavMessage::ATTITUDE(ATTITUDE_DATA {
        time_boot_ms: 42,
        roll: 1.0,
        pitch: 2.0,
        yaw: -1.0,
        rollspeed: 0.0,
        pitchspeed: 0.5,
        yawspeed: -0.5,
    });
    let mut frame: Vec<u8> = Vec::new();
    mavlink::write_v2_msg(&mut frame, mavlink::MavHeader::default(), &msg).unwrap();
    let mut reasm = FrameReassembler::new();
    let msgs = reasm.feed(&RawChunk { data: frame, is_reset: false });
    let recs = extract_all(&msgs);
    assert_eq!(recs.len(), 1);
    let payload = encode_record(&recs[0]);

    let mut sink_one: Vec<u8> = Vec::new();
    let mut sink_two: Vec<u8> = Vec::new();
    sink_one.extend_from_slice(&payload);
    sink_two.extend_from_slice(&payload);
    assert_eq!(sink_one, sink_two);
    assert_eq!(sink_one.len(), payload.len());
    pool.apply_broadcast(&vec![WriteOutcome::Delivered, WriteOutcome::Delivered]);
    assert_eq!(pool.subscriber_count(), 2);

    // One subscriber's socket is closed externally; the next broadcast
    // reaches only the remaining subscriber and the pool shrinks by one.
    pool.apply_broadcast(&vec![WriteOutcome::Delivered, WriteOutcome::Disconnected]);
    assert_eq!(pool.subscriber_count(), 1);
}
