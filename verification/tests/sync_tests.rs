use net_common::codec::Message;
use net_common::epoch::Epoch;
use net_common::sync::{epoch_from_tick_ms, now, ExchangeOutcome, SyncResult, SyncSession, SyncState};
use net_common::telemetry::stamped_message;

fn sample_result() -> SyncResult {
    SyncResult { offset: -500_000, roundtrip: 12_000, seconds: 7, seconds_fraction: 9 }
}

#[test]
fn session_starts_idle_and_unpublished() {
    let s = SyncSession::new();
    assert_eq!(s.state, SyncState::Idle);
    assert_eq!(s.latest(), None);
}

#[test]
fn tick_waits_for_a_response() {
    let mut s = SyncSession::new();
    s.on_tick();
    assert_eq!(s.state, SyncState::AwaitingResponse);
    assert_eq!(s.latest(), None);
}

#[test]
fn valid_response_is_published() {
    let mut s = SyncSession::new();
    s.on_tick();
    s.on_response(ExchangeOutcome::Valid(sample_result()));
    assert_eq!(s.state, SyncState::Idle);
    assert_eq!(s.latest(), Some(sample_result()));
}

#[test]
fn timeout_keeps_waiting() {
    let mut s = SyncSession::new();
    s.on_tick();
    s.on_response(ExchangeOutcome::Timeout);
    assert_eq!(s.state, SyncState::AwaitingResponse);
    assert_eq!(s.latest(), None);
}

#[test]
fn malformed_response_is_discarded() {
    let mut s = SyncSession::new();
    s.on_tick();
    s.on_response(ExchangeOutcome::Valid(sample_result()));
    s.on_tick();
    s.on_response(ExchangeOutcome::Malformed);
    assert_eq!(s.state, SyncState::Idle);
    assert_eq!(s.latest(), Some(sample_result()));
}

#[test]
fn publish_replaces_the_slot() {
    let mut s = SyncSession::new();
    s.on_tick();
    s.on_response(ExchangeOutcome::Valid(sample_result()));
    let newer = SyncResult { offset: 250_000, roundtrip: 800, seconds: 8, seconds_fraction: 1 };
    s.on_tick();
    s.on_response(ExchangeOutcome::Valid(newer));
    assert_eq!(s.latest(), Some(newer));
}

#[test]
fn tick_converts_to_epoch() {
    assert_eq!(epoch_from_tick_ms(1234), Epoch { seconds: 1, nanoseconds: 234_000_000 });
    assert_eq!(epoch_from_tick_ms(0), Epoch { seconds: 0, nanoseconds: 0 });
    assert_eq!(epoch_from_tick_ms(999), Epoch { seconds: 0, nanoseconds: 999_000_000 });
}

#[test]
fn now_without_correction_is_local_time() {
    assert_eq!(now(1500, None), Epoch { seconds: 1, nanoseconds: 500_000_000 });
}

#[test]
fn now_applies_published_offset() {
    let r = SyncResult { offset: -200_000, roundtrip: 0, seconds: 0, seconds_fraction: 0 };
    assert_eq!(now(1500, Some(r)), Epoch { seconds: 1, nanoseconds: 300_000_000 });
    let fwd = SyncResult { offset: 2_700_000, roundtrip: 0, seconds: 0, seconds_fraction: 0 };
    assert_eq!(now(1500, Some(fwd)), Epoch { seconds: 4, nanoseconds: 200_000_000 });
}

#[test]
fn stamped_message_carries_correction() {
    let r = sample_result();
    let m = stamped_message(42, 10_500, Some(r));
    match m {
        Message::TimeStamp(t) => {
            assert_eq!(t.counter, 42);
            assert_eq!(t.tick_ms, 10_500);
            assert_eq!(t.epoch, Epoch { seconds: 10, nanoseconds: 0 });
            assert_eq!(t.ntp_offset, -500_000);
            assert_eq!(t.ntp_seconds, 7);
            assert_eq!(t.ntp_seconds_fraction, 9);
            assert_eq!(t.ntp_roundtrip, 12_000);
        },
        other => panic!("expected a timestamp message, got {:?}", other),
    }
}

#[test]
fn now_handles_the_largest_tick() {
    let e = now(u64::MAX, None);
    assert_eq!(e.seconds, u64::MAX / 1000);
    assert_eq!(e.nanoseconds as u64, (u64::MAX % 1000) * 1_000_000);
}

#[test]
fn stamped_message_travels_the_wire() {
    let r = SyncResult { offset: 125_000, roundtrip: 640, seconds: 3, seconds_fraction: 4 };
    let msg = stamped_message(9, 2_875, Some(r));
    let frame = msg.encode(128).unwrap();
    match Message::decode(&frame).unwrap() {
        Message::TimeStamp(t) => {
            assert_eq!(t.counter, 9);
            assert_eq!(t.tick_ms, 2_875);
            assert_eq!(t.epoch, Epoch { seconds: 3, nanoseconds: 0 });
            assert_eq!(t.ntp_offset, 125_000);
            assert_eq!(t.ntp_roundtrip, 640);
        },
        other => panic!("expected a timestamp message, got {:?}", other),
    }
}

#[test]
fn stamped_message_cold_start_uses_local_time() {
    let m = stamped_message(1, 2500, None);
    match m {
        Message::TimeStamp(t) => {
            assert_eq!(t.epoch, Epoch { seconds: 2, nanoseconds: 500_000_000 });
            assert_eq!(t.ntp_offset, 0);
            assert_eq!(t.ntp_seconds, 0);
            assert_eq!(t.ntp_seconds_fraction, 0);
            assert_eq!(t.ntp_roundtrip, 0);
        },
        other => panic!("expected a timestamp message, got {:?}", other),
    }
}
