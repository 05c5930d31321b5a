use donglora_bridge::config::{BridgeSection, Config, RadioSection, TxSection};
use donglora_bridge::launch::{
    dedup_window_nanos, prepare, resolve_config_path, resolve_log_path, start_mode, StartMode,
};

fn config() -> Config {
    Config {
        radio: RadioSection::default(),
        bridge: BridgeSection::default(),
        tx: TxSection::default(),
    }
}

fn text(s: &str) -> Option<String> {
    Some(s.to_string())
}

#[test]
fn start_modes() {
    assert_eq!(start_mode(true, true), StartMode::Wizard { existing: true });
    assert_eq!(start_mode(true, false), StartMode::Wizard { existing: false });
    assert_eq!(start_mode(false, false), StartMode::FirstRun);
    assert_eq!(start_mode(false, true), StartMode::Bridge);
}

#[test]
fn config_file_choice() {
    assert_eq!(resolve_config_path(text("/x.toml"), text("/c")).unwrap(), "/x.toml");
    assert_eq!(
        resolve_config_path(None, text("/c")).unwrap(),
        "/c/donglora-bridge/config.toml"
    );
    assert!(resolve_config_path(None, None).is_err());
}

#[test]
fn log_file_choice() {
    assert_eq!(resolve_log_path(text("/l.log"), text("/s"), text("/d")), "/l.log");
    assert_eq!(
        resolve_log_path(None, text("/s"), text("/d")),
        "/s/donglora-bridge/bridge.log"
    );
    assert_eq!(resolve_log_path(None, None, text("/d")), "/d/donglora-bridge/bridge.log");
    assert_eq!(resolve_log_path(None, None, None), "/tmp/donglora-bridge.log");
}

#[test]
fn dedup_windows() {
    assert_eq!(dedup_window_nanos(300), 300_000_000_000);
    assert_eq!(dedup_window_nanos(18_446_744_073), 18_446_744_073_000_000_000);
    assert_eq!(dedup_window_nanos(18_446_744_074), u64::MAX);
    assert_eq!(dedup_window_nanos(u64::MAX), u64::MAX);
}

#[test]
fn prepare_from_defaults() {
    let mut p = prepare(&config(), 0).unwrap();
    assert_eq!(p.radio.freq_hz, 910_525_000);
    assert_eq!(p.retry.max_attempts, 3);
    // 50 bytes at SF7 on 62.5 kHz with CR4/5 and 16 preamble symbols take 211.456 ms.
    assert_eq!((p.limiter.rate_pps().packets, p.limiter.rate_pps().nanos), (1, 422_912_000));
    for _ in 0..3 {
        assert!(p.limiter.try_acquire(0));
    }
    assert!(!p.limiter.try_acquire(0));
}

#[test]
fn prepare_with_override() {
    let mut cfg = config();
    cfg.bridge.rate_limit_pps_bits = Some(0.005f64.to_bits());
    let rate = prepare(&cfg, 0).unwrap().limiter.rate_pps();
    let packets = rate.packets as f64 * 2f64.powi(rate.exponent.into());
    assert_eq!(packets / (rate.nanos as f64 / 1e9), 0.005);
}

#[test]
fn prepare_reports_the_radio_first() {
    let mut cfg = config();
    cfg.tx.max_attempts = 0;
    assert_eq!(
        prepare(&cfg, 0).err().map(|e| e.message()),
        text("tx.max_attempts must be >= 1")
    );
    cfg.radio.spreading_factor = 5;
    assert_eq!(
        prepare(&cfg, 0).err().map(|e| e.message()),
        text("spreading_factor must be 7-12, got 5")
    );
}
