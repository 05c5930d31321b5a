use donglora_bridge::config::{BridgeSection, Config, RadioSection, TxSection};
use donglora_bridge::number::IntError;
use donglora_bridge::setup::{
    answer_or_default, parse_sync_word, prompt_text, sync_word_from_lowercase, warning_text,
    Wizard, WizardReply, WizardStep,
};

fn existing() -> Config {
    Config {
        radio: RadioSection {
            port: Some("/dev/ttyACM0".to_string()),
            frequency: 915_000_000,
            bandwidth: "125kHz".to_string(),
            spreading_factor: 9,
            coding_rate: 6,
            sync_word: 0xABCD,
            tx_power_dbm: -3,
            preamble: 12,
        },
        bridge: BridgeSection {
            passphrase: "secret".to_string(),
            dedup_window_secs: 77,
            tx_queue_size: 5,
            rate_limit_pps_bits: Some(1.5f64.to_bits()),
            log_file: Some("/var/log/b.log".to_string()),
        },
        tx: TxSection { max_attempts: 7, ..TxSection::default() },
    }
}

fn taken(reply: WizardReply) -> bool {
    matches!(reply, WizardReply::Taken)
}

#[test]
fn parse_sync_word_hex_prefix() {
    assert_eq!(parse_sync_word("0x3444").unwrap(), 0x3444);
}

#[test]
fn parse_sync_word_no_prefix() {
    assert_eq!(parse_sync_word("3444").unwrap(), 0x3444);
}

#[test]
fn parse_sync_word_case_insensitive() {
    assert_eq!(parse_sync_word("0xABCD").unwrap(), 0xABCD);
}

#[test]
fn parse_sync_word_whitespace() {
    assert_eq!(parse_sync_word("  0x3444  ").unwrap(), 0x3444);
}

#[test]
fn parse_sync_word_invalid() {
    assert!(parse_sync_word("ZZZZ").is_err());
    assert!(parse_sync_word("").is_err());
}

#[test]
fn parse_sync_word_upper_case_prefix() {
    assert_eq!(parse_sync_word("0XaBcD").unwrap(), 0xABCD);
}

#[test]
fn parse_sync_word_errors() {
    let e = parse_sync_word(" 0xZZ ").unwrap_err();
    assert_eq!(e.message(), "invalid sync word: zz");
    assert_eq!(e.cause, IntError::InvalidDigit);
    assert_eq!(parse_sync_word("0x").unwrap_err().cause, IntError::Empty);
    assert_eq!(parse_sync_word("10000").unwrap_err().cause, IntError::PosOverflow);
    assert_eq!(parse_sync_word("-1").unwrap_err().cause, IntError::InvalidDigit);
    assert_eq!(parse_sync_word("+1f").unwrap(), 0x1F);
}

#[test]
fn sync_word_from_lowercase_agrees_with_std() {
    for text in ["0x3444", "ffff", "0xffff", "0x0", "0", "00001", "0x0x1", "x1", "+", "-", "1 2"] {
        let digits = text.strip_prefix("0x").unwrap_or(text);
        assert_eq!(
            sync_word_from_lowercase(text).ok(),
            u16::from_str_radix(digits, 16).ok(),
            "{text}"
        );
    }
}

#[test]
fn every_shown_sync_word_reads_back() {
    for w in 0..=u16::MAX {
        assert_eq!(parse_sync_word(&format!("0x{w:04X}")).ok(), Some(w));
        assert_eq!(parse_sync_word(&format!("{w:04X}")).ok(), Some(w));
        assert_eq!(parse_sync_word(&format!("\t 0x{w:04X}\u{3000}\n")).ok(), Some(w));
        assert_eq!(parse_sync_word(&format!("\u{a0}{w:04X} ")).ok(), Some(w));
    }
}

#[test]
fn answers_and_defaults() {
    assert_eq!(answer_or_default("  x y \n", "d"), "x y");
    assert_eq!(answer_or_default(" \t\r\n", "d"), "d");
    assert_eq!(answer_or_default("", ""), "");
}

#[test]
fn prompt_and_warning_lines() {
    assert_eq!(
        prompt_text("Bandwidth", &Some("125kHz".to_string())),
        "  Bandwidth \x1b[2m[125kHz]\x1b[0m: "
    );
    assert_eq!(prompt_text("Passphrase", &None), "  Passphrase: ");
    assert_eq!(warning_text("no"), "  \x1b[33mno\x1b[0m");
}

#[test]
fn wizard_asks_in_order() {
    let mut w = Wizard::new(Some(existing()));
    let mut prompts = vec![];
    while w.step != WizardStep::Done {
        prompts.push(w.prompt());
        match w.answer("") {
            WizardReply::Taken => {}
            other => panic!("{other:?}"),
        }
    }
    let expected: Vec<String> = [
        ("Passphrase", "secret"),
        ("Frequency (MHz)", "915.000"),
        ("Bandwidth", "125kHz"),
        ("Spreading Factor", "9"),
        ("Coding Rate", "6"),
        ("Sync Word", "0xABCD"),
        ("TX Power (dBm)", "-3"),
        ("Preamble", "12"),
        ("Serial Port", "/dev/ttyACM0"),
    ]
    .iter()
    .map(|(label, default)| format!("  {label} \x1b[2m[{default}]\x1b[0m: "))
    .collect();
    assert_eq!(prompts, expected);
}

#[test]
fn empty_answers_keep_an_existing_config() {
    let mut config = existing();
    // Shown as 433.123 MHz, kept to the hertz.
    config.radio.frequency = 433_123_456;
    let expected = format!("{config:?}");
    let mut w = Wizard::new(Some(config));
    while w.step != WizardStep::Done {
        assert!(taken(w.answer(" \n")));
    }
    assert_eq!(w.config.radio.frequency, 433_123_456);
    assert_eq!(format!("{:?}", w.config), expected);
}

#[test]
fn wizard_requires_a_passphrase() {
    for config in [None, Some(Config {
        bridge: BridgeSection { passphrase: "change-me".to_string(), ..BridgeSection::default() },
        ..existing()
    })] {
        let mut w = Wizard::new(config);
        assert_eq!(w.prompt(), "  Passphrase: ");
        match w.answer("   \n") {
            WizardReply::Retry(line) => {
                assert_eq!(line, "  \x1b[33mThis field is required.\x1b[0m");
            }
            other => panic!("{other:?}"),
        }
        assert_eq!(w.step, WizardStep::Passphrase);
        assert!(taken(w.answer("  hunter2\n")));
        assert_eq!(w.config.bridge.passphrase, "hunter2");
        assert_eq!(w.step, WizardStep::Frequency);
    }
}

#[test]
fn wizard_takes_new_values() {
    let mut w = Wizard::new(None);
    assert!(taken(w.answer("pass")));
    assert!(matches!(w.answer(" 868.1 "), WizardReply::ReadFrequency(t) if t == "868.1"));
    assert!(taken(w.set_frequency(Ok(868_100_000))));
    assert!(taken(w.answer("250kHz")));
    assert!(taken(w.answer("12")));
    assert!(taken(w.answer("8")));
    assert!(taken(w.answer("0x12")));
    assert!(taken(w.answer("-9")));
    assert!(taken(w.answer("65535")));
    assert!(taken(w.answer("/dev/x")));
    assert_eq!(w.step, WizardStep::Done);
    let r = &w.config.radio;
    assert_eq!(r.frequency, 868_100_000);
    assert_eq!(r.bandwidth, "250kHz");
    assert_eq!((r.spreading_factor, r.coding_rate), (12, 8));
    assert_eq!((r.sync_word, r.tx_power_dbm, r.preamble), (0x12, -9, 65535));
    assert_eq!(r.port.as_deref(), Some("/dev/x"));
    assert_eq!(w.config.bridge.dedup_window_secs, 300);
    assert_eq!(w.config.tx, TxSection::default());
}

#[test]
fn wizard_retries_bad_numbers() {
    let mut w = Wizard::new(Some(existing()));
    w.step = WizardStep::SpreadingFactor;
    for (input, message) in [
        ("seven", "invalid digit found in string"),
        ("256", "number too large to fit in target type"),
        ("-1", "invalid digit found in string"),
    ] {
        match w.answer(input) {
            WizardReply::Retry(line) => {
                assert_eq!(line, format!("  \x1b[33mInvalid input: {message}\x1b[0m"));
            }
            other => panic!("{other:?}"),
        }
        assert_eq!(w.step, WizardStep::SpreadingFactor);
        assert_eq!(w.config.radio.spreading_factor, 9);
    }
    w.step = WizardStep::TxPower;
    match w.answer("-129") {
        WizardReply::Retry(line) => {
            assert!(line.contains("number too small to fit in target type"));
        }
        other => panic!("{other:?}"),
    }
    w.step = WizardStep::Frequency;
    match w.set_frequency(Err("invalid float literal".to_string())) {
        WizardReply::Retry(line) => assert!(line.contains("Invalid input: invalid float literal")),
        other => panic!("{other:?}"),
    }
}

#[test]
fn wizard_aborts_on_a_bad_sync_word() {
    let mut w = Wizard::new(Some(existing()));
    w.step = WizardStep::SyncWord;
    match w.answer("0xZZZZ") {
        WizardReply::Abort(e) => assert_eq!(e.message(), "invalid sync word: zzzz"),
        other => panic!("{other:?}"),
    }
}

#[test]
fn wizard_port_auto() {
    let mut w = Wizard::new(None);
    w.step = WizardStep::SerialPort;
    assert_eq!(w.prompt(), "  Serial Port \x1b[2m[auto]\x1b[0m: ");
    assert!(taken(w.answer("")));
    assert_eq!(w.config.radio.port, None);
    let mut w = Wizard::new(Some(existing()));
    w.step = WizardStep::SerialPort;
    assert!(taken(w.answer("auto")));
    assert_eq!(w.config.radio.port, None);
}
