use donglora_bridge::config::{
    check_config, config_dir, config_path, default_log_path, join_path, parse_bandwidth,
    parse_coding_rate, BridgeSection, Config, ConfigError, RadioSection, TxSection,
};
use donglora_bridge::lora::{LoRaBandwidth, LoRaCodingRate, LoRaHeaderMode};

fn with_passphrase(passphrase: &str) -> Config {
    Config {
        radio: RadioSection::default(),
        bridge: BridgeSection { passphrase: passphrase.to_string(), ..BridgeSection::default() },
        tx: TxSection::default(),
    }
}

#[test]
fn parse_bandwidth_canonical() {
    assert!(matches!(parse_bandwidth("7.8kHz"), Ok(LoRaBandwidth::Khz7)));
    assert!(matches!(parse_bandwidth("62.5kHz"), Ok(LoRaBandwidth::Khz62)));
    assert!(matches!(parse_bandwidth("125kHz"), Ok(LoRaBandwidth::Khz125)));
    assert!(matches!(parse_bandwidth("500kHz"), Ok(LoRaBandwidth::Khz500)));
}

#[test]
fn parse_bandwidth_aliases() {
    assert!(matches!(parse_bandwidth("7khz"), Ok(LoRaBandwidth::Khz7)));
    assert!(matches!(parse_bandwidth("khz125"), Ok(LoRaBandwidth::Khz125)));
}

#[test]
fn parse_bandwidth_case_insensitive() {
    assert!(matches!(parse_bandwidth("125KHZ"), Ok(LoRaBandwidth::Khz125)));
}

#[test]
fn parse_bandwidth_rejects_unknown() {
    assert!(parse_bandwidth("999kHz").is_err());
    assert!(parse_bandwidth("").is_err());
}

#[test]
fn parse_bandwidth_lowers_unicode_letters() {
    // U+212A KELVIN SIGN is `k` in lower case.
    assert!(matches!(parse_bandwidth("125\u{212A}Hz"), Ok(LoRaBandwidth::Khz125)));
    assert!(parse_bandwidth("125\u{212B}Hz").is_err());
}

#[test]
fn parse_bandwidth_error_keeps_the_name() {
    match parse_bandwidth("999kHz") {
        Err(e) => assert_eq!(e.message(), "unknown bandwidth: 999kHz"),
        Ok(_) => panic!("999kHz is no bandwidth"),
    }
}

#[test]
fn parse_bandwidth_every_name() {
    let names = [
        (LoRaBandwidth::Khz7, ["7.8khz", "7khz", "khz7"]),
        (LoRaBandwidth::Khz10, ["10.4khz", "10khz", "khz10"]),
        (LoRaBandwidth::Khz15, ["15.6khz", "15khz", "khz15"]),
        (LoRaBandwidth::Khz20, ["20.8khz", "20khz", "khz20"]),
        (LoRaBandwidth::Khz31, ["31.25khz", "31khz", "khz31"]),
        (LoRaBandwidth::Khz41, ["41.7khz", "41khz", "khz41"]),
        (LoRaBandwidth::Khz62, ["62.5khz", "62khz", "khz62"]),
    ];
    for (bw, aliases) in names {
        for alias in aliases {
            assert_eq!(parse_bandwidth(alias).ok(), Some(bw), "{alias}");
        }
    }
    assert_eq!(parse_bandwidth("khz250").ok(), Some(LoRaBandwidth::Khz250));
    assert_eq!(parse_bandwidth("250kHz").ok(), Some(LoRaBandwidth::Khz250));
}

#[test]
fn parse_coding_rate_canonical() {
    assert!(matches!(parse_coding_rate(5), Ok(LoRaCodingRate::Cr4_5)));
    assert!(matches!(parse_coding_rate(8), Ok(LoRaCodingRate::Cr4_8)));
}

#[test]
fn parse_coding_rate_rejects_out_of_range() {
    assert!(parse_coding_rate(4).is_err());
    assert!(parse_coding_rate(9).is_err());
}

#[test]
fn parse_coding_rate_denominators() {
    for v in 5u8..=8 {
        assert_eq!(parse_coding_rate(v).map(|cr| cr.denominator()).ok(), Some(v));
    }
}

#[test]
fn radio_section_defaults_to_lora_config() {
    let section = RadioSection::default();
    let cfg = section.to_lora_config().unwrap();
    assert_eq!(cfg.freq_hz, 910_525_000);
    assert_eq!(cfg.sf, 7);
    assert!(matches!(cfg.cr, LoRaCodingRate::Cr4_5));
    assert_eq!(cfg.sync_word, 0x1424);
    assert_eq!(cfg.preamble_len, 16);
    assert_eq!(cfg.tx_power_dbm, 20);
}

#[test]
fn to_lora_config_fixed_fields() {
    let cfg = RadioSection::default().to_lora_config().unwrap();
    assert_eq!(cfg.bw, LoRaBandwidth::Khz62);
    assert_eq!(cfg.header_mode, LoRaHeaderMode::Explicit);
    assert!(cfg.payload_crc);
    assert!(!cfg.iq_invert);
}

#[test]
fn to_lora_config_rejects_invalid_sf() {
    let section = RadioSection { spreading_factor: 6, ..RadioSection::default() };
    assert!(section.to_lora_config().is_err());
    let section = RadioSection { spreading_factor: 13, ..RadioSection::default() };
    assert!(section.to_lora_config().is_err());
}

#[test]
fn to_lora_config_rejects_invalid_cr() {
    let section = RadioSection { coding_rate: 4, ..RadioSection::default() };
    assert!(section.to_lora_config().is_err());
    let section = RadioSection { coding_rate: 9, ..RadioSection::default() };
    assert!(section.to_lora_config().is_err());
}

#[test]
fn to_lora_config_rejects_invalid_frequency() {
    let section = RadioSection { frequency: 0, ..RadioSection::default() };
    assert!(section.to_lora_config().is_err());
    let section = RadioSection { frequency: 2_000_000_000, ..RadioSection::default() };
    assert!(section.to_lora_config().is_err());
}

#[test]
fn to_lora_config_frequency_bounds() {
    for (hz, ok) in [
        (149_999_999, false),
        (150_000_000, true),
        (1_020_000_000, true),
        (1_020_000_001, false),
    ] {
        let section = RadioSection { frequency: hz, ..RadioSection::default() };
        assert_eq!(section.to_lora_config().is_ok(), ok, "{hz}");
    }
}

#[test]
fn to_lora_config_messages() {
    let bad = |section: RadioSection| section.to_lora_config().unwrap_err().message();
    assert_eq!(
        bad(RadioSection { spreading_factor: 6, ..RadioSection::default() }),
        "spreading_factor must be 7-12, got 6"
    );
    assert_eq!(
        bad(RadioSection { frequency: 2_000_000_000, ..RadioSection::default() }),
        "frequency 2000.000 MHz out of range (150 MHz to 1.02 GHz)"
    );
    assert_eq!(
        bad(RadioSection { coding_rate: 9, ..RadioSection::default() }),
        "coding_rate must be 5-8 (meaning 4/5 to 4/8), got 9"
    );
    assert_eq!(
        bad(RadioSection { bandwidth: "wide".to_string(), ..RadioSection::default() }),
        "unknown bandwidth: wide"
    );
}

#[test]
fn lora_config_with_takes_the_bandwidth_found() {
    let section = RadioSection { bandwidth: "odd".to_string(), ..RadioSection::default() };
    let cfg = section.lora_config_with(Some(LoRaBandwidth::Khz500)).unwrap();
    assert_eq!(cfg.bw, LoRaBandwidth::Khz500);
    assert!(matches!(
        section.lora_config_with(None),
        Err(ConfigError::UnknownBandwidth(name)) if name == "odd"
    ));
}

#[test]
fn tx_section_defaults_produce_valid_policy() {
    let p = TxSection::default().to_retry_policy().unwrap();
    assert_eq!(p.max_attempts, 3);
    assert_eq!(p.backoff_ms_min, 20);
    assert_eq!(p.backoff_ms_max, 100);
    assert_eq!(p.backoff_cap_ms, 500);
    assert!((f32::from_bits(p.backoff_multiplier_bits) - 2.0).abs() < f32::EPSILON);
}

#[test]
fn tx_section_default_timeout() {
    let p = TxSection::default().to_retry_policy().unwrap();
    assert_eq!(p.per_attempt_timeout_secs, 5);
    assert!(!p.skip_cad);
    let s = TxSection { skip_cad: true, ..TxSection::default() };
    assert!(s.to_retry_policy().unwrap().skip_cad);
}

#[test]
fn tx_section_rejects_zero_attempts() {
    let s = TxSection { max_attempts: 0, ..TxSection::default() };
    assert!(s.to_retry_policy().is_err());
}

#[test]
fn tx_section_rejects_inverted_backoff_bounds() {
    let s = TxSection { backoff_min_ms: 500, backoff_max_ms: 100, ..TxSection::default() };
    assert!(s.to_retry_policy().is_err());
}

#[test]
fn tx_section_messages() {
    let s = TxSection { max_attempts: 0, ..TxSection::default() };
    assert_eq!(s.to_retry_policy().unwrap_err().message(), "tx.max_attempts must be >= 1");
    let s = TxSection { backoff_min_ms: 500, backoff_max_ms: 100, ..TxSection::default() };
    assert_eq!(
        s.to_retry_policy().unwrap_err().message(),
        "tx.backoff_min_ms (500) must not exceed backoff_max_ms (100)"
    );
}

#[test]
fn check_config_accepts_a_chosen_passphrase() {
    let cfg = check_config(with_passphrase("my-secret")).unwrap();
    assert_eq!(cfg.bridge.passphrase, "my-secret");
    assert_eq!(cfg.radio.frequency, 910_525_000);
    assert_eq!(cfg.tx.max_attempts, 3);
}

#[test]
fn check_config_rejects_an_unchosen_passphrase() {
    for passphrase in ["", "change-me"] {
        let e = check_config(with_passphrase(passphrase)).unwrap_err();
        assert_eq!(
            e.message(),
            "passphrase is required — run `donglora-bridge config` to set it"
        );
    }
    assert!(check_config(with_passphrase("change-me ")).is_ok());
}

#[test]
fn bridge_section_defaults() {
    let b = BridgeSection::default();
    assert_eq!(b.dedup_window_secs, 300);
    assert_eq!(b.tx_queue_size, 32);
    assert_eq!(b.rate_limit_pps_bits, None);
    assert_eq!(b.log_file, None);
}

#[test]
fn paths_below_the_user_directories() {
    let dir = |s: &str| Some(s.to_string());
    assert_eq!(config_dir(dir("/home/u/.config")).unwrap(), "/home/u/.config/donglora-bridge");
    assert_eq!(
        config_path(dir("/home/u/.config")).unwrap(),
        "/home/u/.config/donglora-bridge/config.toml"
    );
    assert_eq!(
        default_log_path(dir("/state"), dir("/data")).unwrap(),
        "/state/donglora-bridge/bridge.log"
    );
    assert_eq!(default_log_path(None, dir("/data")).unwrap(), "/data/donglora-bridge/bridge.log");
}

#[test]
fn missing_user_directories() {
    assert_eq!(config_dir(None).unwrap_err().message(), "cannot determine config directory");
    assert_eq!(config_path(None).unwrap_err().message(), "cannot determine config directory");
    assert_eq!(default_log_path(None, None).unwrap_err().message(), "cannot determine state directory");
}

#[test]
fn join_path_like_a_path() {
    for base in ["/a", "/a/", "", "/"] {
        let expected = std::path::Path::new(base).join("b");
        assert_eq!(join_path(base, "b"), expected.to_str().unwrap());
    }
}
