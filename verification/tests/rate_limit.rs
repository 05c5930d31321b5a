use donglora_bridge::lora::LoRaBandwidth;
use donglora_bridge::rate_limit::{lora_air_time, RateLimiter};

const SEC: u64 = 1_000_000_000;

fn millis(nanos: u128) -> f64 {
    nanos as f64 / 1e6
}

fn pps_bits(pps: f64) -> Option<u64> {
    Some(pps.to_bits())
}

fn pps(rl: &RateLimiter) -> f64 {
    let rate = rl.rate_pps();
    // In two steps, for the whole range of exponents.
    let half = i32::from(rate.exponent) / 2;
    let packets = rate.packets as f64
        * 2f64.powi(half)
        * 2f64.powi(i32::from(rate.exponent) - half);
    packets / (rate.nanos as f64 / 1e9)
}

#[test]
fn air_time_sf7_bw125() {
    let t = lora_air_time(50, 7, LoRaBandwidth::Khz125, 5, 16);
    // SF7/125kHz/CR4/5/16-preamble/50 bytes: ~100ms range
    assert!(t / 1_000_000 > 50, "air time too short: {t:?}");
    assert!(t / 1_000_000 < 300, "air time too long: {t:?}");
}

#[test]
fn air_time_sf12_bw125() {
    let t = lora_air_time(50, 12, LoRaBandwidth::Khz125, 5, 16);
    // SF12/125kHz: should be multiple seconds
    assert!(t / 1_000_000_000 >= 1, "air time too short: {t:?}");
    assert!(t / 1_000_000_000 < 10, "air time too long: {t:?}");
}

#[test]
fn rate_limiter_allows_burst() {
    let mut rl = RateLimiter::from_radio_config(7, LoRaBandwidth::Khz125, 5, 16, None, 0);
    // Should allow burst of 3
    assert!(rl.try_acquire(0));
    assert!(rl.try_acquire(0));
    assert!(rl.try_acquire(0));
    // 4th should fail (no time for refill)
    assert!(!rl.try_acquire(0));
}

#[test]
fn rate_limiter_override() {
    let rl = RateLimiter::from_radio_config(7, LoRaBandwidth::Khz125, 5, 16, pps_bits(42.0), 0);
    assert!((pps(&rl) - 42.0).abs() < f64::EPSILON);
}

#[test]
fn rate_limiter_override_has_a_floor() {
    for none in [0.0, -0.0, -1.0, f64::NEG_INFINITY, f64::NAN, -f64::NAN] {
        let rl = RateLimiter::from_radio_config(7, LoRaBandwidth::Khz125, 5, 16, pps_bits(none), 0);
        let rate = rl.rate_pps();
        assert_eq!((rate.packets, rate.exponent, rate.nanos), (1, 0, 100 * SEC as u128), "{none}");
    }
}

#[test]
fn rate_limiter_override_is_used_directly() {
    for asked in [
        0.005, 0.01, 0.010_001, 0.1, 1.0 / 3.0, 1.5, 4.0, 1e6, 123_456.789, 1e19, 1e-6, 1e-10,
        1e-13, 1e-15, 2f64.powi(-80), 1.7e-200, f64::MIN_POSITIVE, f64::from_bits(1),
        f64::from_bits(0xF_FFFF_FFFF_FFFF), 4503599627370497.0, 1e20, 1.8446744073709552e19, 3e33,
        7.7e40, 1.3e200, f64::MAX, f64::INFINITY,
    ] {
        for sf in [7, 12] {
            let rl =
                RateLimiter::from_radio_config(sf, LoRaBandwidth::Khz62, 8, 16, pps_bits(asked), 0);
            assert_eq!(pps(&rl), asked);
        }
    }
    // Half a packet per hundred seconds: one more packet after two hundred.
    let mut rl = RateLimiter::from_radio_config(7, LoRaBandwidth::Khz125, 5, 16, pps_bits(0.005), 0);
    for _ in 0..3 {
        assert!(rl.try_acquire(0));
    }
    assert!(!rl.try_acquire(199 * SEC));
    assert!(rl.try_acquire(200 * SEC));
}

#[test]
fn rate_limiter_at_the_ends_of_the_range() {
    // One packet in about 136 years; just within the clock.
    let asked = 2f64.powi(-32);
    let mut rl = RateLimiter::from_radio_config(7, LoRaBandwidth::Khz125, 5, 16, pps_bits(asked), 0);
    for _ in 0..3 {
        assert!(rl.try_acquire(0));
    }
    let packet = SEC << 32;
    assert!(!rl.try_acquire(packet - 1));
    assert!(rl.try_acquire(packet));
    // So slow that a token takes longer than the clock lasts: three packets ever.
    for asked in [1e-15, 1e-30, f64::MIN_POSITIVE, f64::from_bits(1)] {
        let mut rl =
            RateLimiter::from_radio_config(7, LoRaBandwidth::Khz125, 5, 16, pps_bits(asked), 0);
        assert!(rl.try_acquire(0));
        rl.charge_airtime(u32::MAX);
        assert!(rl.try_acquire(SEC));
        assert!(rl.try_acquire(1000 * SEC));
        assert!(!rl.try_acquire(2000 * SEC));
        assert!(!rl.try_acquire(u64::MAX));
    }
    // So fast that a nanosecond fills the bucket.
    for asked in [1e10, 1e19, 1e20, 1e30, 1e40, 1e200, f64::MAX] {
        let mut rl =
            RateLimiter::from_radio_config(7, LoRaBandwidth::Khz125, 5, 16, pps_bits(asked), 5);
        for t in [5, 6, 7] {
            for _ in 0..3 {
                assert!(rl.try_acquire(t), "{asked}");
            }
            assert!(!rl.try_acquire(t), "{asked}");
        }
    }
    // No bound at all.
    let endless = pps_bits(f64::INFINITY);
    let mut rl = RateLimiter::from_radio_config(7, LoRaBandwidth::Khz125, 5, 16, endless, 5);
    for _ in 0..100 {
        assert!(rl.try_acquire(5));
        rl.charge_airtime(1_000_000);
    }
}

#[test]
fn measured_airtime_is_charged() {
    // One packet in 211.456 ms, which covers 105.728 ms on the air.
    let fresh = RateLimiter::from_radio_config(7, LoRaBandwidth::Khz125, 5, 16, None, 0);
    let admitted_after = |airtime_us: u32, horizon: u64| {
        let mut rl = fresh;
        assert!(rl.try_acquire(0));
        rl.charge_airtime(airtime_us);
        let mut admitted = 0;
        for t in (0..=horizon).step_by(1_000_000) {
            if rl.try_acquire(t) {
                admitted += 1;
            }
        }
        admitted
    };
    // Two tokens are left; each 211.456 ms brings another.
    assert_eq!(admitted_after(0, SEC), 6);
    assert_eq!(admitted_after(105_728, SEC), 6);
    // One token's worth too long.
    assert_eq!(admitted_after(211_456, SEC), 5);
    // Three seconds more than the token covered: nothing is admitted in two.
    assert_eq!(admitted_after(1_605_728, 2 * SEC), 0);
    for (short, long) in [(0, 1), (50_000, 150_000), (150_000, 400_000), (1_000_000, 9_000_000)] {
        assert!(admitted_after(long, 5 * SEC) <= admitted_after(short, 5 * SEC));
    }
}

#[test]
fn measured_airtime_under_an_override() {
    // 10 pps: a token covers 100 ms on the air.
    let fresh = RateLimiter::from_radio_config(7, LoRaBandwidth::Khz125, 5, 16, pps_bits(10.0), 0);
    let mut rl = fresh;
    for _ in 0..3 {
        assert!(rl.try_acquire(0));
        rl.charge_airtime(100_000);
    }
    assert!(!rl.try_acquire(SEC / 10 - 1));
    assert!(rl.try_acquire(SEC / 10));
    let mut rl = fresh;
    for _ in 0..3 {
        assert!(rl.try_acquire(0));
    }
    // Owes 50 ms on top.
    rl.charge_airtime(150_000);
    assert!(!rl.try_acquire(SEC / 10));
    assert!(!rl.try_acquire(SEC * 15 / 100 - 1));
    assert!(rl.try_acquire(SEC * 15 / 100));
}

#[test]
fn air_time_zero_preamble_uses_default() {
    let t_default = lora_air_time(50, 7, LoRaBandwidth::Khz125, 5, 0);
    let t_explicit = lora_air_time(50, 7, LoRaBandwidth::Khz125, 5, 16);
    assert_eq!(t_default, t_explicit);
}

#[test]
fn from_radio_config_calculates_reasonable_rate() {
    // SF7/BW125/CR5/preamble16 with 50-byte reference payload:
    // air time ~105.7ms, so rate = 0.5 / 0.1057 ~= 4.73 pps.
    let rl = RateLimiter::from_radio_config(7, LoRaBandwidth::Khz125, 5, 16, None, 0);
    let rate = pps(&rl);
    assert!(rate > 0.1, "rate too low: {rate}");
    assert!(rate < 100.0, "rate too high: {rate}");
    assert!((rate - 10.0).abs() > 0.5, "rate should not be the 10.0 fallback: {rate}");
    assert!(rate > 4.0, "rate should be near 4.73: {rate}");
    assert!(rate < 5.5, "rate should be near 4.73: {rate}");
}

#[test]
fn from_radio_config_sf12_rate_much_slower() {
    // SF12/BW125: air time ~2564ms, rate = 0.5 / 2.564 ~= 0.195 pps.
    let rl = RateLimiter::from_radio_config(12, LoRaBandwidth::Khz125, 5, 16, None, 0);
    let rate = pps(&rl);
    assert!(rate > 0.1, "rate too low: {rate}");
    assert!(rate < 0.5, "rate too high: {rate}");
    assert!((rate - 10.0).abs() > 1.0, "rate should not be the fallback: {rate}");
}

#[test]
fn from_radio_config_exact_rate() {
    // One packet in twice 105.728 ms.
    let rl = RateLimiter::from_radio_config(7, LoRaBandwidth::Khz125, 5, 16, None, 0);
    assert_eq!((rl.rate_pps().packets, rl.rate_pps().nanos), (1, 211_456_000));
}

#[test]
fn rate_limiter_refills_after_waiting() {
    // 10 pps = 1 token per 100ms.
    let mut rl =
        RateLimiter::from_radio_config(7, LoRaBandwidth::Khz125, 5, 16, pps_bits(10.0), 0);
    assert!(rl.try_acquire(0));
    assert!(rl.try_acquire(0));
    assert!(rl.try_acquire(0));
    assert!(!rl.try_acquire(0), "burst should be exhausted");
    assert!(rl.try_acquire(SEC / 5), "should succeed after refill");
}

#[test]
fn rate_limiter_refills_at_exactly_one_packet_time() {
    let mut rl =
        RateLimiter::from_radio_config(7, LoRaBandwidth::Khz125, 5, 16, pps_bits(10.0), 7);
    for _ in 0..3 {
        assert!(rl.try_acquire(7));
    }
    assert!(!rl.try_acquire(7 + SEC / 10 - 1));
    assert!(rl.try_acquire(7 + SEC / 10));
    assert!(!rl.try_acquire(7 + SEC / 10));
}

#[test]
fn rate_limiter_never_exceeds_its_burst() {
    let mut rl =
        RateLimiter::from_radio_config(7, LoRaBandwidth::Khz125, 5, 16, pps_bits(10.0), 0);
    let later = 1000 * SEC;
    for _ in 0..3 {
        assert!(rl.try_acquire(later));
    }
    assert!(!rl.try_acquire(later));
}

#[test]
fn rate_limiter_enforces_its_rate() {
    // 2 pps over ten seconds: at most the burst and 20 more.
    let mut rl =
        RateLimiter::from_radio_config(7, LoRaBandwidth::Khz125, 5, 16, pps_bits(2.0), 0);
    let mut admitted = 0;
    for i in 0..=1000u64 {
        if rl.try_acquire(i * SEC / 100) {
            admitted += 1;
        }
    }
    assert_eq!(admitted, 23);
}

#[test]
fn rate_limiter_ignores_a_clock_that_goes_back() {
    let mut rl =
        RateLimiter::from_radio_config(7, LoRaBandwidth::Khz125, 5, 16, pps_bits(1.0), 10 * SEC);
    for _ in 0..3 {
        assert!(rl.try_acquire(10 * SEC));
    }
    assert!(!rl.try_acquire(5 * SEC));
}

#[test]
fn air_time_exact_sf7_bw125() {
    // SF7, BW125kHz, CR4/5, preamble=16, payload=50 bytes: 105.728 ms.
    let t = lora_air_time(50, 7, LoRaBandwidth::Khz125, 5, 16);
    let ms = millis(t);
    assert!((ms - 105.728).abs() < 0.01, "SF7/BW125 air time should be ~105.728ms, got {ms:.3}ms");
    assert_eq!(t, 105_728_000);
}

#[test]
fn air_time_exact_sf12_bw125() {
    // SF12, BW125kHz, CR4/5, preamble=16, payload=50 bytes: 2564.096 ms.
    let t = lora_air_time(50, 12, LoRaBandwidth::Khz125, 5, 16);
    let ms = millis(t);
    assert!((ms - 2564.096).abs() < 0.01, "SF12/BW125 air time should be ~2564.096ms, got {ms:.3}ms");
    assert_eq!(t, 2_564_096_000);
}

#[test]
fn air_time_ldro_sf11_bw125_vs_sf10_bw125() {
    // SF>=11 && BW<=125kHz triggers LDRO. SF10 does not.
    let t11 = lora_air_time(50, 11, LoRaBandwidth::Khz125, 5, 16);
    let t10 = lora_air_time(50, 10, LoRaBandwidth::Khz125, 5, 16);
    let ms11 = millis(t11);
    let ms10 = millis(t10);
    assert!((ms11 - 1445.888).abs() < 0.01, "SF11/BW125 should be ~1445.888ms, got {ms11:.3}ms");
    assert!((ms10 - 681.984).abs() < 0.01, "SF10/BW125 should be ~681.984ms, got {ms10:.3}ms");
    assert!(t11 > t10 * 2, "SF11 with LDRO should be >2x SF10");
}

#[test]
fn air_time_ldro_not_triggered_high_bw() {
    // SF11/BW250: LDRO should NOT be active (BW > 125kHz).
    let t11_250 = lora_air_time(50, 11, LoRaBandwidth::Khz250, 5, 16);
    let ms = millis(t11_250);
    assert!((ms - 641.024).abs() < 0.01, "SF11/BW250 should be ~641.024ms (no LDRO), got {ms:.3}ms");
    let t11_125 = lora_air_time(50, 11, LoRaBandwidth::Khz125, 5, 16);
    assert!(t11_125 > t11_250 * 2, "SF11/BW125 (LDRO on) should be >2x SF11/BW250 (LDRO off)");
}

#[test]
fn air_time_preamble_scaling() {
    // Changing preamble by N symbols changes air time by N * t_sym.
    // t_sym for SF7/BW125 = 2^7 / 125000 = 1.024 ms.
    let t8 = lora_air_time(50, 7, LoRaBandwidth::Khz125, 5, 8);
    let t16 = lora_air_time(50, 7, LoRaBandwidth::Khz125, 5, 16);
    let t32 = lora_air_time(50, 7, LoRaBandwidth::Khz125, 5, 32);

    let diff_8_to_16 = (t16 as f64 - t8 as f64) / 1e9;
    let diff_16_to_32 = (t32 as f64 - t16 as f64) / 1e9;

    let t_sym = 128.0 / 125_000.0; // 1.024 ms

    let expected_8 = 8.0f64.mul_add(t_sym, -diff_8_to_16).abs();
    assert!(expected_8 < 1e-9, "preamble 8->16 should add 8*t_sym, got {diff_8_to_16:.6}s");

    let expected_16 = 16.0f64.mul_add(t_sym, -diff_16_to_32).abs();
    assert!(expected_16 < 1e-9, "preamble 16->32 should add 16*t_sym, got {diff_16_to_32:.6}s");
}

#[test]
fn air_time_sensible_range_all_sf_bw() {
    let bandwidths = [
        LoRaBandwidth::Khz7,
        LoRaBandwidth::Khz10,
        LoRaBandwidth::Khz15,
        LoRaBandwidth::Khz20,
        LoRaBandwidth::Khz31,
        LoRaBandwidth::Khz41,
        LoRaBandwidth::Khz62,
        LoRaBandwidth::Khz125,
        LoRaBandwidth::Khz250,
        LoRaBandwidth::Khz500,
    ];
    for sf in 7..=12u8 {
        for &bw in &bandwidths {
            let ms = millis(lora_air_time(50, sf, bw, 5, 16));
            assert!(ms > 1.0, "SF{sf}/BW{bw:?}: air time too short: {ms:.3}ms");
            assert!(ms < 300_000.0, "SF{sf}/BW{bw:?}: air time too long: {ms:.3}ms");
        }
    }
}

#[test]
fn air_time_always_positive() {
    for payload in 0usize..256 {
        for sf in 7u8..=12 {
            for cr in 5u8..=8 {
                for preamble in 0u16..=64 {
                    for bw in [
                        LoRaBandwidth::Khz7,
                        LoRaBandwidth::Khz62,
                        LoRaBandwidth::Khz125,
                        LoRaBandwidth::Khz500,
                    ] {
                        let t = lora_air_time(payload, sf, bw, cr, preamble);
                        assert!(t > 0, "air time must be positive");
                        assert!(t < 600_000_000_000, "air time should be < 600s");
                    }
                }
            }
        }
    }
}

#[test]
fn air_time_grows_with_payload() {
    for sf in 7u8..=12 {
        let mut last = 0;
        for payload in 0usize..256 {
            let t = lora_air_time(payload, sf, LoRaBandwidth::Khz125, 5, 16);
            assert!(t >= last);
            last = t;
        }
    }
}

#[test]
fn air_time_against_floating_point() {
    let hz = [
        (LoRaBandwidth::Khz7, 7_800.0),
        (LoRaBandwidth::Khz41, 41_700.0),
        (LoRaBandwidth::Khz125, 125_000.0),
        (LoRaBandwidth::Khz1600, 1_600_000.0),
    ];
    for (bw, bw_hz) in hz {
        for sf in 5u8..=12 {
            for payload in [0usize, 1, 10, 50, 255] {
                let sf_f = f64::from(sf);
                let t_sym = sf_f.exp2() / bw_hz;
                let de = if sf >= 11 && bw_hz <= 125_000.0 { 1.0 } else { 0.0 };
                let num = 8.0 * payload as f64 - 4.0 * sf_f + 44.0;
                let n = (num / (4.0 * sf_f - 8.0 * de)).ceil().max(0.0) * 6.0 + 8.0;
                let total = (8.0 + 4.25) * t_sym + n * t_sym;
                let t = lora_air_time(payload, sf, bw, 6, 8);
                assert!((t as f64 - total * 1e9).abs() <= 1.0, "{bw:?} SF{sf} {payload}");
            }
        }
    }
}

#[test]
fn duty_cycle_is_half() {
    // Reference packets of 105.728 ms, asked for all the time, over a minute.
    let mut rl = RateLimiter::from_radio_config(7, LoRaBandwidth::Khz125, 5, 16, None, 0);
    let mut admitted: u64 = 0;
    for ms in 0..=60_000u64 {
        if rl.try_acquire(ms * 1_000_000) {
            admitted += 1;
        }
    }
    assert!(2 * (admitted - 3) * 105_728_000 <= 60 * SEC);
    assert!(2 * (admitted - 2) * 105_728_000 > 60 * SEC);
}

#[test]
fn measured_airtime_keeps_its_share() {
    // Packets that take 300 ms on the air, though 105.728 ms were expected.
    let mut rl = RateLimiter::from_radio_config(7, LoRaBandwidth::Khz125, 5, 16, None, 0);
    let burst = 3 * 211_456_000u64;
    let mut on_air = 0u64;
    for t in (0..=60 * SEC).step_by(10_000_000) {
        if rl.try_acquire(t) {
            assert!(2 * on_air <= t + burst, "{on_air} ns on the air by {t}");
            rl.charge_airtime(300_000);
            on_air += 300_000_000;
        }
    }
    // A packet every 600 ms, after the first.
    assert!(2 * on_air >= 60 * SEC);
}
