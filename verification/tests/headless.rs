use donglora_bridge::headless::{headless_line, LogLevel};
use donglora_bridge::radio::TxRetryReason;
use donglora_bridge::router::{
    PacketAction, PacketDirection, PacketLogEntry, TxRetryInfo, TxRetryState,
};

fn entry(action: PacketAction) -> PacketLogEntry {
    let mut hash = [0u8; 32];
    hash[..5].copy_from_slice(&[0x0A, 0xBC, 0x12, 0xFF, 0x99]);
    PacketLogEntry {
        timestamp: 0,
        hash,
        direction: PacketDirection::RadioIn,
        size: 42,
        snr: Some(-7),
        rssi: Some(-101),
        action,
        tx_retry: None,
    }
}

fn tx(attempt: u8, total_attempts: u8, state: TxRetryState) -> PacketLogEntry {
    PacketLogEntry {
        direction: PacketDirection::GossipIn,
        snr: None,
        rssi: None,
        tx_retry: Some(TxRetryInfo { attempt, total_attempts, state }),
        ..entry(PacketAction::Bridged)
    }
}

fn line(e: &PacketLogEntry) -> (LogLevel, String) {
    let l = headless_line(e).unwrap();
    (l.level, l.text)
}

#[test]
fn arrivals_have_lines() {
    let expect = [
        (PacketAction::Bridged, LogLevel::Info, "RF→NET bridged hash=0abc12ff size=42B rssi=-101 snr=-7"),
        (PacketAction::DroppedDedup, LogLevel::Info, "RF→NET dedup   hash=0abc12ff size=42B rssi=-101 snr=-7"),
        (PacketAction::DroppedRateLimit, LogLevel::Warn, "RF→NET ratelim hash=0abc12ff size=42B"),
        (PacketAction::DroppedQueueFull, LogLevel::Warn, "RF→NET QFULL   hash=0abc12ff size=42B"),
    ];
    for (action, level, text) in expect {
        assert_eq!(line(&entry(action)), (level, text.to_string()));
    }
}

#[test]
fn missing_readings_are_dashes() {
    let e = PacketLogEntry {
        snr: None,
        rssi: None,
        direction: PacketDirection::GossipIn,
        ..entry(PacketAction::Bridged)
    };
    assert_eq!(line(&e).1, "NET→RF bridged hash=0abc12ff size=42B rssi=- snr=-");
}

#[test]
fn transmissions_have_lines() {
    assert_eq!(
        line(&tx(2, 3, TxRetryState::Retrying(TxRetryReason::QueueFull))),
        (
            LogLevel::Info,
            "NET→RF retry  hash=0abc12ff attempt=2/3 reason=queue_full".to_string()
        )
    );
    assert_eq!(
        line(&tx(2, 2, TxRetryState::Succeeded)),
        (LogLevel::Info, "NET→RF sent   hash=0abc12ff size=42B attempts=2/2".to_string())
    );
    assert_eq!(
        line(&tx(3, 3, TxRetryState::Failed)),
        (LogLevel::Warn, "NET→RF FAILED hash=0abc12ff size=42B attempts=3/3".to_string())
    );
}

#[test]
fn first_attempts_have_no_line() {
    assert!(headless_line(&tx(1, 3, TxRetryState::Succeeded)).is_none());
    assert!(headless_line(&tx(1, 3, TxRetryState::InFlight)).is_none());
}
