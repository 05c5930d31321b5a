use donglora_bridge::lora::mhz_text;
use donglora_bridge::number::{parse_int, IntError};
use donglora_bridge::text::{
    chars_of, decimal_text, pad_left, pad_right, push_hex_word, same_text, signed_text, trim, white,
};

#[test]
fn decimals() {
    for n in [0u64, 1, 9, 10, 99, 100, 12_345, u64::MAX] {
        assert_eq!(decimal_text(n), n.to_string());
    }
    for n in [0i64, -1, 1, -10, 42, i64::MIN, i64::MAX] {
        assert_eq!(signed_text(n), n.to_string());
    }
}

#[test]
fn padding() {
    for text in ["", "a", "→→", "abcdef", "abcdefgh"] {
        assert_eq!(pad_left(text, 6), format!("{text:>6}"));
        assert_eq!(pad_right(text, 6), format!("{text:<6}"));
    }
}

#[test]
fn hex_words() {
    for w in [0u16, 1, 0xF, 0x10, 0xABCD, 0xFFFF] {
        let mut s = String::from("0x");
        push_hex_word(&mut s, w);
        assert_eq!(s, format!("0x{w:04X}"));
    }
}

#[test]
fn white_space_is_unicode_white_space() {
    for n in 0..=0x10FFFFu32 {
        if let Some(c) = char::from_u32(n) {
            assert_eq!(white(c), c.is_whitespace(), "U+{n:04X}");
        }
    }
}

#[test]
fn trimming() {
    for text in ["", " ", "a", " a", "a ", "\t a b \n", "\u{3000}x\u{A0}", "  \r\n "] {
        assert_eq!(trim(text), text.trim());
    }
}

#[test]
fn texts_compare() {
    assert!(same_text("kHz", "kHz"));
    assert!(!same_text("kHz", "khz"));
    assert_eq!(chars_of("a→b"), vec!['a', '→', 'b']);
}

#[test]
fn integers_like_std() {
    for text in [
        "", "+", "-", "0", "7", "007", "+7", "-7", "127", "128", "-128", "-129", "255", "256",
        "65535", "65536", "1x", "x", "--1", "1 ", "９",
    ] {
        let map = |r: Result<i64, IntError>| r.ok();
        assert_eq!(map(parse_int(text, 10, 0, 255)), text.parse::<u8>().ok().map(i64::from), "{text}");
        assert_eq!(map(parse_int(text, 10, -128, 127)), text.parse::<i8>().ok().map(i64::from), "{text}");
        assert_eq!(map(parse_int(text, 10, 0, 65535)), text.parse::<u16>().ok().map(i64::from), "{text}");
        if let (Err(ours), Err(theirs)) = (parse_int(text, 10, -128, 127), text.parse::<i8>()) {
            assert_eq!(ours.message(), theirs.to_string(), "{text}");
        }
        if let (Err(ours), Err(theirs)) = (parse_int(text, 10, 0, 255), text.parse::<u8>()) {
            assert_eq!(ours.message(), theirs.to_string(), "{text}");
        }
    }
}

#[test]
fn decimals_read_back() {
    for n in -128i64..=127 {
        assert_eq!(parse_int(&signed_text(n), 10, -128, 127), Ok(n));
    }
}

#[test]
fn frequencies_like_floating_point() {
    let shown = |hz: u32| format!("{:.3}", f64::from(hz) / 1_000_000.0);
    for hz in [0, 1, 499, 500, 501, 999, 1000, 1500, 2500, 910_525_000, 910_562_500, u32::MAX] {
        assert_eq!(mhz_text(hz), shown(hz), "{hz}");
    }
    // Every half between two kHz up to 5 MHz, and a stretch of those around 900 MHz.
    for khz in 0..5_000u32 {
        let hz = khz * 1000 + 500;
        assert_eq!(mhz_text(hz), shown(hz), "{hz}");
    }
    for khz in 900_000..910_000u32 {
        let hz = khz * 1000 + 500;
        assert_eq!(mhz_text(hz), shown(hz), "{hz}");
    }
}
