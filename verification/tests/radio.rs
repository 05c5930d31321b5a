use donglora_bridge::lora::{LoRaBandwidth, LoRaCodingRate, LoRaConfig, LoRaHeaderMode};
use donglora_bridge::radio::{
    active_config, format_bandwidth, format_lora_config, handle_rx, lora_configs_match,
    session_step, tx_finished, tx_started, AttemptResult, ConfigSource, ConnectMode, NextStep,
    RadioEvent, RadioLoop, ReportedModulation, RetryPolicy, RxFrame, SessionAction, SessionEnd,
    SessionInput, TxAttempt, TxError, TxOutcome, TxRequest, TxRetryReason,
};

fn default_config() -> LoRaConfig {
    LoRaConfig {
        freq_hz: 910_525_000,
        bw: LoRaBandwidth::Khz62,
        sf: 7,
        cr: LoRaCodingRate::Cr4_5,
        sync_word: 0x1424,
        tx_power_dbm: 20,
        preamble_len: 16,
        header_mode: LoRaHeaderMode::Explicit,
        payload_crc: true,
        iq_invert: false,
    }
}

fn policy() -> RetryPolicy {
    RetryPolicy {
        max_attempts: 3,
        backoff_ms_min: 20,
        backoff_ms_max: 100,
        backoff_multiplier_bits: 2.0f32.to_bits(),
        backoff_cap_ms: 500,
        per_attempt_timeout_secs: 5,
        skip_cad: false,
    }
}

#[test]
fn lora_configs_match_identical() {
    assert!(lora_configs_match(&default_config(), &default_config()));
}

#[test]
fn lora_configs_match_differs_each_field() {
    let base = default_config();

    let mut c = base;
    c.freq_hz = 915_000_000;
    assert!(!lora_configs_match(&base, &c));

    let mut c = base;
    c.sf = 12;
    assert!(!lora_configs_match(&base, &c));

    let mut c = base;
    c.cr = LoRaCodingRate::Cr4_8;
    assert!(!lora_configs_match(&base, &c));

    let mut c = base;
    c.sync_word = 0x1234;
    assert!(!lora_configs_match(&base, &c));

    let mut c = base;
    c.tx_power_dbm = 10;
    assert!(!lora_configs_match(&base, &c));

    let mut c = base;
    c.preamble_len = 8;
    assert!(!lora_configs_match(&base, &c));
}

#[test]
fn format_bandwidth_all_variants() {
    assert_eq!(format_bandwidth(LoRaBandwidth::Khz7), "7.8 kHz");
    assert_eq!(format_bandwidth(LoRaBandwidth::Khz125), "125 kHz");
    assert_eq!(format_bandwidth(LoRaBandwidth::Khz500), "500 kHz");
}

#[test]
fn format_bandwidth_the_others() {
    let names = [
        (LoRaBandwidth::Khz10, "10.4 kHz"),
        (LoRaBandwidth::Khz15, "15.6 kHz"),
        (LoRaBandwidth::Khz20, "20.8 kHz"),
        (LoRaBandwidth::Khz31, "31.25 kHz"),
        (LoRaBandwidth::Khz41, "41.7 kHz"),
        (LoRaBandwidth::Khz62, "62.5 kHz"),
        (LoRaBandwidth::Khz250, "250 kHz"),
        (LoRaBandwidth::Khz200, "200 kHz"),
        (LoRaBandwidth::Khz400, "400 kHz"),
        (LoRaBandwidth::Khz800, "800 kHz"),
        (LoRaBandwidth::Khz1600, "1600 kHz"),
    ];
    for (bw, name) in names {
        assert_eq!(format_bandwidth(bw), name);
    }
}

#[test]
fn format_lora_config_typical() {
    let cfg = default_config();
    let s = format_lora_config(&cfg);
    assert!(s.contains("910.525MHz"));
    assert!(s.contains("SF7"));
    assert!(s.contains("CR4/5"));
    assert!(s.contains("0x1424"));
    assert!(s.contains("20 dBm"));
}

#[test]
fn format_lora_config_whole_line() {
    let mut cfg = default_config();
    assert_eq!(
        format_lora_config(&cfg),
        "910.525MHz SF7 BW62.5 kHz CR4/5 SW0x1424 TX:20 dBm Pre:16"
    );
    cfg.tx_power_dbm = -9;
    cfg.sync_word = 0xABC;
    assert_eq!(
        format_lora_config(&cfg),
        "910.525MHz SF7 BW62.5 kHz CR4/5 SW0x0ABC TX:-9 dBm Pre:16"
    );
}

#[test]
fn tx_retry_reason_display() {
    assert_eq!(TxRetryReason::ChannelBusy.label(), "channel_busy");
    assert_eq!(TxRetryReason::QueueFull.label(), "queue_full");
    assert_eq!(TxRetryReason::Other.label(), "other");
}

#[test]
fn mux_is_sticky() {
    let mut r = RadioLoop::new();
    assert_eq!(r.mode(), ConnectMode::Auto);
    let _ = r.session_ended(SessionEnd::Failed { was_mux: true }, 10);
    assert_eq!(r.mode(), ConnectMode::MuxOnly);
    let _ = r.session_ended(SessionEnd::Clean { was_mux: false, router_closed: false }, 10);
    let end = r.connect_failed();
    let _ = r.session_ended(end, 0);
    assert_eq!(r.mode(), ConnectMode::MuxOnly);
}

#[test]
fn auto_until_a_mux_is_seen() {
    let mut r = RadioLoop::new();
    for _ in 0..5 {
        let end = r.connect_failed();
        assert_eq!(end, SessionEnd::Failed { was_mux: false });
        let _ = r.session_ended(end, 0);
    }
    assert_eq!(r.mode(), ConnectMode::Auto);
}

#[test]
fn backoff_doubles_to_its_cap_and_resets() {
    let mut r = RadioLoop::new();
    for wait in [250, 500, 1000, 2000, 4000, 5000, 5000] {
        assert_eq!(
            r.session_ended(SessionEnd::Failed { was_mux: false }, 5_000_000_000),
            NextStep::ReportAndRetry { backoff_ms: wait }
        );
    }
    assert_eq!(
        r.session_ended(SessionEnd::Failed { was_mux: false }, 5_000_400_000),
        NextStep::ReportAndRetry { backoff_ms: 250 }
    );
    assert_eq!(
        r.session_ended(SessionEnd::Failed { was_mux: false }, 0),
        NextStep::ReportAndRetry { backoff_ms: 500 }
    );
}

#[test]
fn clean_session_ends() {
    let mut r = RadioLoop::new();
    assert_eq!(
        r.session_ended(SessionEnd::Clean { was_mux: true, router_closed: false }, 0),
        NextStep::Reconnect
    );
    assert_eq!(
        r.session_ended(SessionEnd::Clean { was_mux: true, router_closed: true }, 0),
        NextStep::Exit
    );
}

#[test]
fn active_config_and_its_source() {
    let ours = default_config();
    let mut theirs = ours;
    theirs.sf = 9;
    assert_eq!(active_config(None, &ours), (ours, ConfigSource::Ours));
    assert_eq!(
        active_config(Some(ReportedModulation::Other), &ours),
        (ours, ConfigSource::Ours)
    );
    assert_eq!(
        active_config(Some(ReportedModulation::LoRa(ours)), &ours),
        (ours, ConfigSource::Ours)
    );
    assert_eq!(
        active_config(Some(ReportedModulation::LoRa(theirs)), &ours),
        (theirs, ConfigSource::Mux)
    );
}

#[test]
fn received_frames_are_rounded_and_graded() {
    let frame = |rssi, snr| RxFrame { rssi_tenths_dbm: rssi, snr_tenths_db: snr, data: vec![1, 2] };
    match handle_rx(frame(-805, 75), &default_config()) {
        Some(RadioEvent::Packet(p)) => {
            assert_eq!((p.rssi, p.snr), (-81, 8));
            assert_eq!(p.payload, vec![1, 2]);
        }
        other => panic!("{other:?}"),
    }
    match handle_rx(frame(-804, -74), &default_config()) {
        Some(RadioEvent::Packet(p)) => assert_eq!((p.rssi, p.snr), (-80, -7)),
        other => panic!("{other:?}"),
    }
    // -7.5 dB rounds away from zero to -8, which is below SF7's floor.
    assert!(handle_rx(frame(-804, -75), &default_config()).is_none());
    assert!(handle_rx(frame(-804, 330), &default_config()).is_none());
}

#[test]
fn session_steps() {
    let cfg = default_config();
    match session_step(SessionInput::Tx(Some(TxRequest { seq: 4, data: vec![9] })), &cfg) {
        SessionAction::Transmit(req) => assert_eq!((req.seq, req.data), (4, vec![9])),
        other => panic!("{other:?}"),
    }
    assert!(matches!(session_step(SessionInput::Tx(None), &cfg), SessionAction::End));
    assert!(matches!(session_step(SessionInput::Rx(None), &cfg), SessionAction::End));
    let good = RxFrame { rssi_tenths_dbm: -800, snr_tenths_db: 80, data: vec![] };
    assert!(matches!(
        session_step(SessionInput::Rx(Some(good)), &cfg),
        SessionAction::Deliver(Some(RadioEvent::Packet(_)))
    ));
    let bad = RxFrame { rssi_tenths_dbm: -800, snr_tenths_db: -300, data: vec![] };
    assert!(matches!(
        session_step(SessionInput::Rx(Some(bad)), &cfg),
        SessionAction::Deliver(None)
    ));
}

#[test]
fn tx_start_event() {
    match tx_started(&TxRequest { seq: 7, data: vec![0; 12] }, &policy()) {
        RadioEvent::TxAttempt { seq, attempt, total_attempts, size } => {
            assert_eq!((seq, attempt, total_attempts, size), (7, 1, 3, 12));
        }
        other => panic!("{other:?}"),
    }
}

#[test]
fn tx_events_of_a_retried_success() {
    let outcome = TxOutcome {
        final_airtime_us: 105_728,
        attempts: vec![
            TxAttempt { attempt: 1, result: AttemptResult::ChannelBusy },
            TxAttempt { attempt: 2, result: AttemptResult::Busy },
            TxAttempt { attempt: 3, result: AttemptResult::Sent },
        ],
    };
    let events = tx_finished(9, 50, &policy(), Ok(outcome));
    assert_eq!(events.len(), 3);
    assert!(matches!(
        &events[0],
        RadioEvent::TxRetry {
            seq: 9,
            attempt_that_failed: 1,
            total_attempts: 3,
            reason: TxRetryReason::ChannelBusy,
            ..
        }
    ));
    assert!(matches!(
        &events[1],
        RadioEvent::TxRetry { attempt_that_failed: 2, reason: TxRetryReason::QueueFull, .. }
    ));
    assert!(matches!(
        &events[2],
        RadioEvent::TxSucceeded {
            seq: 9,
            attempts_used: 3,
            total_attempts: 3,
            final_airtime_us: 105_728,
            size: 50,
        }
    ));
}

fn failed(last: AttemptResult, reason: &str) -> Result<TxOutcome, TxError> {
    Err(TxError { last, reason: reason.to_string() })
}

#[test]
fn tx_events_of_a_failure() {
    let events = tx_finished(9, 50, &policy(), failed(AttemptResult::OtherError, "link gone"));
    assert_eq!(events.len(), 1);
    match &events[0] {
        RadioEvent::TxFailed { seq, attempts_used, reason, size } => {
            assert_eq!((*seq, *attempts_used, *size), (9, 3, 50));
            assert_eq!(reason, "link gone");
        }
        other => panic!("{other:?}"),
    }
}

#[test]
fn tx_events_of_used_up_attempts() {
    for (last, expected) in [
        (AttemptResult::ChannelBusy, TxRetryReason::ChannelBusy),
        (AttemptResult::Busy, TxRetryReason::QueueFull),
    ] {
        let events = tx_finished(9, 50, &policy(), failed(last, "busy"));
        assert_eq!(events.len(), 3);
        for (i, event) in events[..2].iter().enumerate() {
            match event {
                RadioEvent::TxRetry { seq, attempt_that_failed, total_attempts, reason, .. } => {
                    assert_eq!((*seq, *total_attempts, *reason), (9, 3, expected));
                    assert_eq!(usize::from(*attempt_that_failed), i + 1);
                }
                other => panic!("{other:?}"),
            }
        }
        assert!(matches!(&events[2], RadioEvent::TxFailed { seq: 9, attempts_used: 3, .. }));
    }
    let once = RetryPolicy { max_attempts: 1, ..policy() };
    assert_eq!(tx_finished(9, 50, &once, failed(AttemptResult::Busy, "busy")).len(), 1);
}
