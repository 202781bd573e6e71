use adit_ui::clipboard_files::bridge::{ChunkBridge, ChunkError, MAX_IN_FLIGHT};
use std::time::{Duration, Instant};

#[test]
fn a_response_that_arrives_before_the_wait_is_still_collected() {
    let mut bridge = ChunkBridge::new();
    let id = bridge.begin().expect("a stream id");

    bridge.deliver(id, Some(vec![1, 2, 3]));

    assert_eq!(bridge.wait(id, false).expect("settled").expect("bytes"), [1, 2, 3]);
}

#[test]
fn a_refusal_is_not_an_empty_chunk() {
    let mut bridge = ChunkBridge::new();

    let refused = bridge.begin().expect("id");
    bridge.deliver(refused, None);
    assert_eq!(bridge.wait(refused, false), Some(Err(ChunkError::Refused)));

    let empty = bridge.begin().expect("id");
    bridge.deliver(empty, Some(Vec::new()));
    assert_eq!(bridge.wait(empty, false), Some(Ok(Vec::new())));
}

#[test]
fn a_waiting_read_receives_the_bytes_it_was_sent() {
    let mut bridge = ChunkBridge::new();
    let id = bridge.begin().expect("a stream id");
    assert_eq!(bridge.wait(id, false), None);
    bridge.deliver(id, Some(vec![0u8, 0xFF, 0x00, 0x7F]));
    assert_eq!(bridge.wait(id, false).expect("settled").expect("bytes"), [0, 0xFF, 0, 0x7F]);
    assert_eq!(bridge.in_flight(), 0);
}

#[test]
fn closing_releases_a_waiter_immediately() {
    let mut bridge = ChunkBridge::new();
    let id = bridge.begin().expect("a stream id");
    assert_eq!(bridge.wait(id, false), None);
    bridge.close();
    assert_eq!(bridge.wait(id, false), Some(Err(ChunkError::Disconnected)));
    assert_eq!(bridge.begin(), Err(ChunkError::Disconnected));
}

#[test]
fn a_wait_past_its_deadline_gives_up_and_frees_the_slot() {
    let mut bridge = ChunkBridge::new();
    let id = bridge.begin().expect("a stream id");
    assert_eq!(bridge.wait(id, true), Some(Err(ChunkError::TimedOut)));
    assert_eq!(bridge.in_flight(), 0);
}

#[test]
fn waiting_on_an_unknown_stream_fails_at_once() {
    let mut bridge = ChunkBridge::new();
    let started = Instant::now();
    assert_eq!(bridge.wait(4242, false), Some(Err(ChunkError::Refused)));
    assert!(started.elapsed() < Duration::from_secs(1));
}

#[test]
fn a_late_response_to_a_collected_stream_is_dropped() {
    let mut bridge = ChunkBridge::new();
    let id = bridge.begin().expect("a stream id");
    bridge.deliver(id, Some(vec![9]));
    assert_eq!(bridge.wait(id, false).expect("settled").expect("bytes"), [9]);

    bridge.deliver(id, Some(vec![9]));
    assert_eq!(bridge.in_flight(), 0);
}

#[test]
fn the_in_flight_cap_is_enforced() {
    let mut bridge = ChunkBridge::new();
    for _ in 0..MAX_IN_FLIGHT {
        bridge.begin().expect("under the cap");
    }
    assert_eq!(bridge.begin(), Err(ChunkError::TooManyRequests));
}
