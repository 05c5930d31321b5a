use donglora_bridge::gossip::{GossipEvent, Receiver, ReceiverAction, ReceiverInput, SwarmEvent};
use donglora_bridge::lora::{LoRaBandwidth, LoRaCodingRate, LoRaConfig, LoRaHeaderMode};
use donglora_bridge::packet::{content_hash, GossipFrame, RadioPacket};
use donglora_bridge::radio::{
    tx_finished, AttemptResult, ConfigSource, RadioEvent, RetryPolicy, TxAttempt, TxError,
    TxOutcome, TxRetryReason,
};
use donglora_bridge::rate_limit::RateLimiter;
use donglora_bridge::router::{
    tx_seq_hash, ConfigUpdate, PacketAction, PacketDirection, RadioConfigInfo, Router, Stats,
    TxRetryState, CLEANUP_INTERVAL_NANOS,
};

const SEC: u64 = 1_000_000_000;

fn requested() -> LoRaConfig {
    LoRaConfig {
        freq_hz: 910_525_000,
        bw: LoRaBandwidth::Khz62,
        sf: 7,
        cr: LoRaCodingRate::Cr4_5,
        sync_word: 0x1424,
        tx_power_dbm: 20,
        preamble_len: 16,
        header_mode: LoRaHeaderMode::Explicit,
        payload_crc: true,
        iq_invert: false,
    }
}

/// A router that admits `pps` packets per second.
fn router_with(queue: usize, pps: f64) -> Router {
    let bits = Some(pps.to_bits());
    let limiter = RateLimiter::from_radio_config(7, LoRaBandwidth::Khz62, 5, 16, bits, 0);
    Router::new([5u8; 32], 10 * SEC, queue, requested(), limiter, 0)
}

fn router() -> Router {
    router_with(32, 1_000.0)
}

fn heard(payload: &[u8]) -> RadioEvent {
    RadioEvent::Packet(RadioPacket { rssi: -80, snr: 9, payload: payload.to_vec() })
}

/// A nine-byte transmission out of at most three attempts.
fn succeeded(seq: u64, attempts_used: u8, final_airtime_us: u32) -> RadioEvent {
    RadioEvent::TxSucceeded { seq, attempts_used, total_attempts: 3, final_airtime_us, size: 9 }
}

fn gossiped(payload: &[u8]) -> GossipEvent {
    GossipEvent::Frame(GossipFrame::new(&[6u8; 32], -90, -4, payload.to_vec()))
}

#[test]
fn stats_snapshot_reflects_increments() {
    let mut stats = Stats::default();
    stats.radio_rx += 5;
    stats.gossip_tx += 3;
    stats.radio_connected = 1;
    let snap = stats.snapshot();
    assert_eq!(snap.radio_rx, 5);
    assert_eq!(snap.gossip_tx, 3);
    assert!(snap.radio_connected);
}

#[test]
fn stats_default_is_zeroed() {
    let snap = Stats::default().snapshot();
    assert_eq!(snap.radio_rx, 0);
    assert_eq!(snap.gossip_rx, 0);
    assert!(!snap.radio_connected);
}

#[test]
fn packet_action_display() {
    assert_eq!(PacketAction::Bridged.label(), "");
    assert_eq!(PacketAction::DroppedDedup.label(), "DUP");
    assert_eq!(PacketAction::DroppedQueueFull.label(), "FULL");
    assert_eq!(PacketAction::DroppedRateLimit.label(), "RATE");
}

#[test]
fn heard_packet_is_broadcast() {
    let mut r = router();
    let out = r.on_radio_event(heard(b"hello"), 3 * SEC);
    let frame = out.broadcast.unwrap();
    assert_eq!(frame.sender, [5u8; 32]);
    assert_eq!((frame.rssi, frame.snr), (-80, 9));
    assert_eq!(frame.payload, b"hello");
    let row = out.log.unwrap();
    assert_eq!(row.timestamp, 3 * SEC);
    assert_eq!(row.hash, content_hash(b"hello"));
    assert_eq!(row.direction, PacketDirection::RadioIn);
    assert_eq!(row.size, 5);
    assert_eq!((row.snr, row.rssi), (Some(9), Some(-80)));
    assert_eq!(row.action, PacketAction::Bridged);
    assert!(row.tx_retry.is_none());
    assert!(out.config.is_none());
    assert!(out.drain);
    assert_eq!((r.stats().radio_rx, r.stats().gossip_tx, r.stats().dedup_hits), (1, 1, 0));
}

#[test]
fn heard_duplicate_is_dropped() {
    let mut r = router();
    let _ = r.on_radio_event(heard(b"hello"), 0);
    let out = r.on_radio_event(heard(b"hello"), SEC);
    assert!(out.broadcast.is_none());
    assert_eq!(out.log.unwrap().action, PacketAction::DroppedDedup);
    assert!(!out.drain);
    assert_eq!((r.stats().radio_rx, r.stats().gossip_tx, r.stats().dedup_hits), (2, 1, 1));
}

#[test]
fn gossiped_frame_is_queued() {
    let mut r = router();
    let out = r.on_gossip_event(gossiped(b"abc"), SEC);
    assert!(out.broadcast.is_none());
    let row = out.log.unwrap();
    assert_eq!(row.direction, PacketDirection::GossipIn);
    assert_eq!(row.action, PacketAction::Bridged);
    assert_eq!((row.size, row.snr, row.rssi), (3, Some(-4), Some(-90)));
    assert!(out.drain);
    let req = r.next_tx().unwrap();
    assert_eq!((req.seq, req.data), (1, b"abc".to_vec()));
    assert!(r.next_tx().is_none());
    assert_eq!(r.stats().gossip_rx, 1);
}

#[test]
fn no_payload_crosses_twice() {
    let mut r = router();
    // Heard, then gossiped back.
    let _ = r.on_radio_event(heard(b"x"), 0);
    let out = r.on_gossip_event(gossiped(b"x"), 10 * SEC - 1);
    assert_eq!(out.log.unwrap().action, PacketAction::DroppedDedup);
    // Gossiped, transmitted, then heard from another node.
    let _ = r.on_gossip_event(gossiped(b"y"), 0);
    r.tick(SEC);
    let out = r.on_radio_event(heard(b"y"), 9 * SEC);
    assert_eq!(out.log.unwrap().action, PacketAction::DroppedDedup);
}

#[test]
fn payload_crosses_again_after_the_window() {
    let mut r = router();
    let _ = r.on_radio_event(heard(b"x"), 0);
    let _ = r.on_radio_event(heard(b"y"), SEC);
    let out = r.on_radio_event(heard(b"x"), 10 * SEC);
    assert_eq!(out.log.unwrap().action, PacketAction::Bridged);
}

#[test]
fn tick_prunes_every_thirty_seconds() {
    let mut r = router();
    let _ = r.on_radio_event(heard(b"x"), 0);
    r.tick(CLEANUP_INTERVAL_NANOS - 1);
    r.tick(CLEANUP_INTERVAL_NANOS);
    let out = r.on_radio_event(heard(b"x"), CLEANUP_INTERVAL_NANOS);
    assert_eq!(out.log.unwrap().action, PacketAction::Bridged);
}

#[test]
fn fourth_frame_of_a_burst_is_rate_limited() {
    let mut r = router_with(32, 1.0);
    for i in 0..3u8 {
        let out = r.on_gossip_event(gossiped(&[i]), 0);
        assert_eq!(out.log.unwrap().action, PacketAction::Bridged);
    }
    let out = r.on_gossip_event(gossiped(&[3]), 0);
    assert_eq!(out.log.unwrap().action, PacketAction::DroppedRateLimit);
    assert!(!out.drain);
    assert_eq!(r.stats().rate_limit_drops, 1);
    // It was seen all the same.
    let out = r.on_gossip_event(gossiped(&[3]), SEC);
    assert_eq!(out.log.unwrap().action, PacketAction::DroppedDedup);
}

#[test]
fn full_queue_drops_frames() {
    let mut r = router_with(2, 1_000_000.0);
    for i in 0..2u8 {
        let _ = r.on_gossip_event(gossiped(&[i]), u64::from(i) * SEC);
    }
    let out = r.on_gossip_event(gossiped(&[2]), 2 * SEC);
    assert_eq!(out.log.unwrap().action, PacketAction::DroppedQueueFull);
    assert!(!out.drain);
    assert_eq!(r.stats().dropped_queue, 1);
    assert_eq!(r.next_tx().unwrap().data, vec![0]);
    let out = r.on_gossip_event(gossiped(&[4]), 4 * SEC);
    assert_eq!(out.log.unwrap().action, PacketAction::Bridged);
}

#[test]
fn queue_of_no_size_takes_nothing() {
    let mut r = router_with(0, 1.0);
    let out = r.on_gossip_event(gossiped(b"x"), 0);
    assert_eq!(out.log.unwrap().action, PacketAction::DroppedQueueFull);
    assert!(r.next_tx().is_none());
}

#[test]
fn queue_is_fifo_with_consecutive_numbers() {
    let mut r = router_with(32, 1_000_000.0);
    for i in 0..10u8 {
        let _ = r.on_gossip_event(gossiped(&[i]), u64::from(i) * SEC);
    }
    for i in 0..10u8 {
        let req = r.next_tx().unwrap();
        assert_eq!((req.seq, req.data), (u64::from(i) + 1, vec![i]));
    }
}

#[test]
fn connection_events_update_the_config() {
    let mut r = router();
    let mut active = requested();
    active.sf = 9;
    let mut info = RadioConfigInfo::not_connected(requested());
    assert!(!info.connected);
    assert_eq!((info.active, info.source), (requested(), ConfigSource::Ours));
    assert_eq!(info.device, "");
    let out = r.on_radio_event(
        RadioEvent::Connected(active, ConfigSource::Mux, "dongle".to_string()),
        0,
    );
    assert!(out.drain && out.log.is_none() && out.broadcast.is_none());
    info.apply(out.config.unwrap());
    assert!(info.connected);
    assert_eq!((info.active, info.requested), (active, requested()));
    assert_eq!(info.source, ConfigSource::Mux);
    assert_eq!(info.device, "dongle");
    assert_eq!(r.stats().radio_connected, 1);

    let out = r.on_radio_event(RadioEvent::Disconnected, 0);
    let update = out.config.unwrap();
    assert!(matches!(update, ConfigUpdate::Disconnected));
    info.apply(update);
    assert!(!info.connected);
    assert_eq!(info.device, "dongle");
    assert_eq!(r.stats().radio_connected, 0);
}

#[test]
fn transmission_rows() {
    let mut r = router();
    let out = r.on_radio_event(
        RadioEvent::TxAttempt { seq: 1, attempt: 1, total_attempts: 3, size: 9 },
        0,
    );
    assert!(out.log.is_none() && out.drain);

    let out = r.on_radio_event(
        RadioEvent::TxRetry {
            seq: 1,
            attempt_that_failed: 1,
            total_attempts: 3,
            reason: TxRetryReason::ChannelBusy,
            backoff_ms: 20,
        },
        7,
    );
    let row = out.log.unwrap();
    let info = row.tx_retry.unwrap();
    assert_eq!(row.hash, tx_seq_hash(1));
    assert_eq!((row.size, row.timestamp), (0, 7));
    assert_eq!((info.attempt, info.total_attempts), (2, 3));
    assert_eq!(info.state, TxRetryState::Retrying(TxRetryReason::ChannelBusy));
    assert_eq!(r.stats().tx_retries, 1);

    let out = r.on_radio_event(
        succeeded(1, 2, 1),
        0,
    );
    let info = out.log.unwrap().tx_retry.unwrap();
    assert_eq!((info.attempt, info.total_attempts), (2, 3));
    assert_eq!(info.state, TxRetryState::Succeeded);

    let out = r.on_radio_event(
        succeeded(2, 1, 1),
        0,
    );
    assert!(out.log.is_none());
    assert_eq!(r.stats().radio_tx, 2);

    let out = r.on_radio_event(
        RadioEvent::TxFailed { seq: 3, attempts_used: 3, reason: "busy".to_string(), size: 9 },
        0,
    );
    let row = out.log.unwrap();
    assert_eq!(row.size, 9);
    assert_eq!(row.tx_retry.unwrap().state, TxRetryState::Failed);
    assert_eq!(r.stats().tx_failures, 1);
}

#[test]
fn retry_counter_saturates() {
    let mut r = router();
    let out = r.on_radio_event(
        RadioEvent::TxRetry {
            seq: 1,
            attempt_that_failed: 255,
            total_attempts: 255,
            reason: TxRetryReason::Other,
            backoff_ms: 0,
        },
        0,
    );
    assert_eq!(out.log.unwrap().tx_retry.unwrap().attempt, 255);
}

#[test]
fn neighbor_count_is_kept() {
    let mut r = router();
    let out = r.on_gossip_event(GossipEvent::NeighborChanged(4), 0);
    assert!(out.drain && out.log.is_none());
    assert_eq!(r.stats().neighbor_count, 4);
}

#[test]
fn tx_seq_hash_layout() {
    let h = tx_seq_hash(0x0102_0304_0506_0708);
    assert_eq!(h[0], 1);
    assert_eq!(h[1..9], [8, 7, 6, 5, 4, 3, 2, 1]);
    assert!(h[9..].iter().all(|&b| b == 0));
    assert_ne!(tx_seq_hash(1), tx_seq_hash(256));
}

#[test]
fn payload_reaches_the_other_radio() {
    let mut near = router();
    let mut far = router();
    let sent = near.on_radio_event(heard(b"over the hill"), 0).broadcast.unwrap();
    let mut receiver = Receiver::new();
    let input = ReceiverInput::Event(SwarmEvent::Received(sent.encode()));
    match receiver.on_input(input) {
        ReceiverAction::Forward(event) => {
            assert!(far.on_gossip_event(event, SEC).drain);
        }
        other => panic!("{other:?}"),
    }
    assert_eq!(far.next_tx().unwrap().data, b"over the hill");
}

#[test]
fn given_hashes_decide() {
    let mut r = router();
    let pkt = |p: &[u8]| RadioPacket { rssi: 0, snr: 0, payload: p.to_vec() };
    let _ = r.handle_radio_packet(pkt(b"a"), [7u8; 32], 0);
    let out = r.handle_radio_packet(pkt(b"b"), [7u8; 32], 1);
    assert_eq!(out.log.unwrap().action, PacketAction::DroppedDedup);
    let frame = GossipFrame::new(&[1u8; 32], 0, 0, b"a".to_vec());
    let out = r.handle_gossip_frame(frame, [8u8; 32], 1);
    assert_eq!(out.log.unwrap().action, PacketAction::Bridged);
}

#[test]
fn transmissions_are_counted() {
    let policy = RetryPolicy {
        max_attempts: 3,
        backoff_ms_min: 20,
        backoff_ms_max: 100,
        backoff_multiplier_bits: 2.0f32.to_bits(),
        backoff_cap_ms: 500,
        per_attempt_timeout_secs: 5,
        skip_cad: false,
    };
    let outcome = TxOutcome {
        final_airtime_us: 1,
        attempts: vec![
            TxAttempt { attempt: 1, result: AttemptResult::ChannelBusy },
            TxAttempt { attempt: 2, result: AttemptResult::ChannelBusy },
            TxAttempt { attempt: 3, result: AttemptResult::Sent },
        ],
    };
    let mut r = router();
    for event in tx_finished(1, 9, &policy, Ok(outcome)) {
        let _ = r.on_radio_event(event, 0);
    }
    let failed = |last| Err(TxError { last, reason: "no".to_string() });
    for event in tx_finished(2, 9, &policy, failed(AttemptResult::OtherError)) {
        let _ = r.on_radio_event(event, 0);
    }
    let stats = r.stats();
    assert_eq!((stats.radio_tx, stats.tx_retries, stats.tx_failures), (1, 2, 1));
    // Every attempt found the channel busy: two retries, then the failure.
    let mut attempts = vec![];
    for event in tx_finished(3, 9, &policy, failed(AttemptResult::ChannelBusy)) {
        let info = r.on_radio_event(event, 0).log.unwrap().tx_retry.unwrap();
        attempts.push((info.attempt, info.total_attempts, info.state));
    }
    let retrying = TxRetryState::Retrying(TxRetryReason::ChannelBusy);
    assert_eq!(
        attempts,
        [(2, 3, retrying), (3, 3, retrying), (3, 3, TxRetryState::Failed)]
    );
    let stats = r.stats();
    assert_eq!((stats.radio_tx, stats.tx_retries, stats.tx_failures), (1, 4, 2));
}

#[test]
fn measured_airtime_slows_the_router() {
    let fates = |airtime_us: u32| {
        let mut r = router_with(32, 10.0);
        assert!(r.on_gossip_event(gossiped(b"first"), 0).drain);
        let _ = r.on_radio_event(succeeded(1, 1, airtime_us), SEC / 10);
        let mut bridged = 0;
        for i in 0..100u64 {
            let payload = i.to_le_bytes();
            let out = r.on_gossip_event(gossiped(&payload), SEC / 10 + i * SEC / 100);
            if out.log.unwrap().action == PacketAction::Bridged {
                bridged += 1;
            }
        }
        assert_eq!(r.stats().rate_limit_drops, 100 - bridged);
        bridged
    };
    // Two tokens are left of the burst, and one comes back every 100 ms.
    assert_eq!(fates(0), 12);
    assert_eq!(fates(100_000), 12);
    assert_eq!(fates(200_000), 11);
    assert_eq!(fates(600_000), 7);
    assert_eq!(fates(10_000_000), 0);
}

#[test]
fn put_back_payload_is_next_again() {
    let mut r = router_with(2, 1_000_000.0);
    let _ = r.on_gossip_event(gossiped(b"one"), 0);
    let _ = r.on_gossip_event(gossiped(b"two"), SEC);
    let first = r.next_tx().unwrap();
    assert_eq!((first.seq, first.data.as_slice()), (1, b"one".as_slice()));
    assert!(r.put_back(first));
    let again = r.next_tx().unwrap();
    assert_eq!((again.seq, again.data.as_slice()), (1, b"one".as_slice()));
    // Meanwhile the queue was filled up: there is no room left.
    let _ = r.on_gossip_event(gossiped(b"three"), 2 * SEC);
    assert!(!r.put_back(again));
    let next = r.next_tx().unwrap();
    assert_eq!((next.seq, next.data.as_slice()), (2, b"two".as_slice()));
    assert_eq!(r.next_tx().unwrap().data, b"three");
    assert!(r.next_tx().is_none());
}

#[test]
fn full_channel_fills_the_queue() {
    let mut r = router_with(3, 1_000_000.0);
    let mut actions = vec![];
    for i in 0..5u8 {
        let out = r.on_gossip_event(gossiped(&[i]), SEC * u64::from(i));
        if out.drain {
            let request = r.next_tx().unwrap();
            assert_eq!((request.seq, request.data[0]), (1, 0));
            assert!(r.put_back(request));
        }
        actions.push(out.log.unwrap().action);
    }
    let (kept, full) = (PacketAction::Bridged, PacketAction::DroppedQueueFull);
    assert_eq!(actions, [kept, kept, kept, full, full]);
    assert_eq!(r.stats().dropped_queue, 2);
    for i in 0..3u8 {
        let request = r.next_tx().unwrap();
        assert_eq!((request.seq, request.data), (u64::from(i) + 1, vec![i]));
    }
    assert!(r.next_tx().is_none());
}

#[test]
fn counters_match_the_rows() {
    let mut r = router_with(2, 1.0);
    let mut rows = vec![];
    let mut sent = vec![];
    for (i, payload) in [b"a", b"b", b"a", b"c", b"d", b"e", b"b"].iter().enumerate() {
        let out = r.on_gossip_event(gossiped(*payload), i as u64 * SEC / 10);
        rows.extend(out.log);
        let out = r.on_radio_event(heard(*payload), i as u64 * SEC / 10);
        rows.extend(out.log);
        sent.extend(out.broadcast);
        let out = r.on_radio_event(heard(&[i as u8]), i as u64 * SEC / 10);
        rows.extend(out.log);
        sent.extend(out.broadcast);
        rows.extend(r.on_radio_event(succeeded(i as u64, 2, 1), 0).log);
    }
    let count = |pred: &dyn Fn(&donglora_bridge::router::PacketLogEntry) -> bool| {
        rows.iter().filter(|row| pred(row)).count() as u64
    };
    let stats = *r.stats();
    let swarm = |row: &donglora_bridge::router::PacketLogEntry| {
        row.direction == PacketDirection::GossipIn && row.tx_retry.is_none()
    };
    assert_eq!(stats.gossip_rx, 7);
    assert_eq!(count(&swarm), 7);
    assert_eq!(stats.rate_limit_drops, count(&|row| row.action == PacketAction::DroppedRateLimit));
    assert_eq!(stats.dropped_queue, count(&|row| row.action == PacketAction::DroppedQueueFull));
    assert_eq!(stats.dedup_hits, count(&|row| row.action == PacketAction::DroppedDedup));
    assert_eq!((stats.rate_limit_drops, stats.dropped_queue, stats.dedup_hits), (2, 1, 9));
    assert_eq!(stats.radio_rx, count(&|row| row.direction == PacketDirection::RadioIn));
    assert_eq!(stats.radio_rx, 14);
    let bridged: Vec<[u8; 32]> = rows
        .iter()
        .filter(|r| r.direction == PacketDirection::RadioIn && r.action == PacketAction::Bridged)
        .map(|r| r.hash)
        .collect();
    let hashes: Vec<[u8; 32]> = sent.iter().map(|f| content_hash(&f.payload)).collect();
    assert_eq!(bridged, hashes);
    assert_eq!(stats.gossip_tx, 7);
    assert!(sent.iter().all(|f| f.sender == [5u8; 32] && (f.rssi, f.snr) == (-80, 9)));
}

#[test]
fn window_passes_for_the_swarm_too() {
    let mut r = router();
    let _ = r.on_radio_event(heard(b"again"), 0);
    let out = r.on_gossip_event(gossiped(b"again"), 10 * SEC - 1);
    assert_eq!(out.log.unwrap().action, PacketAction::DroppedDedup);
    let out = r.on_gossip_event(gossiped(b"again"), 10 * SEC);
    assert_eq!(out.log.unwrap().action, PacketAction::Bridged);
}

#[test]
fn duplicates_follow_what_was_let_through() {
    let mut r = router_with(1, 0.5);
    let mut passed: [Option<u64>; 4] = [None; 4];
    for step in 0..300u64 {
        let now = step * SEC;
        r.tick(now);
        let key = (step * step + step / 7) % 4;
        let payload = key.to_le_bytes();
        let out = if step % 3 == 0 {
            r.on_radio_event(heard(&payload), now)
        } else {
            r.on_gossip_event(gossiped(&payload), now)
        };
        let expected = passed[key as usize].is_some_and(|at| now - at < 10 * SEC);
        let dropped = out.log.unwrap().action == PacketAction::DroppedDedup;
        assert_eq!(dropped, expected, "step {step}");
        if !dropped {
            passed[key as usize] = Some(now);
        }
    }
}

#[test]
fn transmissions_are_the_bridged_frames() {
    let mut r = router_with(3, 2.0);
    let mut bridged = vec![];
    let mut handed = vec![];
    for step in 0..200u64 {
        let payload = step.to_le_bytes();
        let out = r.on_gossip_event(gossiped(&payload), step * SEC / 4);
        if out.log.unwrap().action == PacketAction::Bridged {
            bridged.push(payload.to_vec());
        }
        if step % 5 == 2 {
            if let Some(request) = r.next_tx() {
                assert!(r.put_back(request));
            }
        }
        if step % 3 == 0 {
            handed.extend(r.next_tx());
        }
    }
    while let Some(request) = r.next_tx() {
        handed.push(request);
    }
    assert!(bridged.len() > 50 && r.stats().rate_limit_drops > 0 && r.stats().dropped_queue > 0);
    assert_eq!(handed.len(), bridged.len());
    for (i, (request, payload)) in handed.iter().zip(&bridged).enumerate() {
        assert_eq!((request.seq, &request.data), (i as u64 + 1, payload));
    }
}
