//! `LoRa` air-time-aware token bucket rate limiter.
//!
//! Calculates transmit rate from the Semtech `LoRa` air time formula and
//! enforces it with a burst allowance. Times are nanoseconds on a monotonic
//! clock; all arithmetic is exact.

use vstd::arithmetic::power2;
use vstd::prelude::*;

use crate::lora::LoRaBandwidth;

verus! {

/// Burst size in packets. Allows short bursts of 3 back-to-back packets
/// to handle bursty mesh traffic without triggering rate limiting on every packet.
pub const DEFAULT_BURST: u128 = 3;

/// Reference payload size (bytes) used to estimate air time for rate calculation.
/// 50 bytes is a representative `MeshCore` packet size (header + small payload).
pub const REFERENCE_PAYLOAD_BYTES: usize = 50;

/// Nanoseconds in a second.
pub const SECOND_NANOS: u128 = 1_000_000_000;

/// Nanoseconds per packet where the rate asked for is no positive number: a
/// hundredth of a packet per second.
pub const FLOOR_NANOS: u128 = 100_000_000_000;

/// One more than the largest integer that a binary64 number multiplies by a power of two.
pub const SIGNIFICAND_END: u64 = 0x20_0000_0000_0000;

/// The exponent from which on a power of two is more than any binary64 number.
pub const UNBOUNDED_EXPONENT: i16 = 972;

/// The most that a bucket can owe.
pub const MAX_DEBT: i128 = 0x1_0000_0000_0000_0000_0000_0000_0000;

// ── Air time ────────────────────────────────────────────────────────

impl LoRaBandwidth {
    /// Bandwidth in Hz.
    pub open spec fn hz(self) -> int {
        match self {
            LoRaBandwidth::Khz7 => 7_800,
            LoRaBandwidth::Khz10 => 10_400,
            LoRaBandwidth::Khz15 => 15_600,
            LoRaBandwidth::Khz20 => 20_800,
            LoRaBandwidth::Khz31 => 31_250,
            LoRaBandwidth::Khz41 => 41_700,
            LoRaBandwidth::Khz62 => 62_500,
            LoRaBandwidth::Khz125 => 125_000,
            LoRaBandwidth::Khz250 => 250_000,
            LoRaBandwidth::Khz500 => 500_000,
            LoRaBandwidth::Khz200 => 200_000,
            LoRaBandwidth::Khz400 => 400_000,
            LoRaBandwidth::Khz800 => 800_000,
            LoRaBandwidth::Khz1600 => 1_600_000,
        }
    }
}

/// Bandwidth in Hz.
pub fn bandwidth_hz(bw: LoRaBandwidth) -> (hz: u32)
    ensures
        hz == bw.hz(),
        7_800 <= hz <= 1_600_000,
{
    match bw {
        LoRaBandwidth::Khz7 => 7_800,
        LoRaBandwidth::Khz10 => 10_400,
        LoRaBandwidth::Khz15 => 15_600,
        LoRaBandwidth::Khz20 => 20_800,
        LoRaBandwidth::Khz31 => 31_250,
        LoRaBandwidth::Khz41 => 41_700,
        LoRaBandwidth::Khz62 => 62_500,
        LoRaBandwidth::Khz125 => 125_000,
        LoRaBandwidth::Khz250 => 250_000,
        LoRaBandwidth::Khz500 => 500_000,
        // SX128x 2.4 GHz bandwidths — not used on the bridge today, but a
        // config with one of these still yields a usable rate.
        LoRaBandwidth::Khz200 => 200_000,
        LoRaBandwidth::Khz400 => 400_000,
        LoRaBandwidth::Khz800 => 800_000,
        LoRaBandwidth::Khz1600 => 1_600_000,
    }
}

/// Preamble length in symbols; zero stands for the firmware default of 16.
pub open spec fn preamble_symbols(preamble: int) -> int {
    if preamble == 0 {
        16
    } else {
        preamble
    }
}

/// Low data rate optimization: on when SF >= 11 and BW <= 125 kHz.
pub open spec fn low_data_rate(sf: int, bw: LoRaBandwidth) -> bool {
    sf >= 11 && bw.hz() <= 125_000
}

/// Bits that one block of payload symbols carries.
pub open spec fn block_bits(sf: int, bw: LoRaBandwidth) -> int {
    4 * sf - if low_data_rate(sf, bw) {
        8int
    } else {
        0
    }
}

/// Blocks of payload symbols: the Semtech formula with CRC enabled and
/// explicit header, rounded up and never negative.
pub open spec fn payload_blocks(payload_bytes: int, sf: int, bw: LoRaBandwidth) -> int {
    let bits = 8 * payload_bytes - 4 * sf + 44;
    if bits <= 0 {
        0
    } else {
        (bits + block_bits(sf, bw) - 1) / block_bits(sf, bw)
    }
}

/// Quarters of a symbol on the air: the preamble and its 4.25 symbols of
/// synchronization, then eight symbols and `cr` symbols per block of payload.
pub open spec fn quarter_symbols(
    payload_bytes: int,
    sf: int,
    bw: LoRaBandwidth,
    cr: int,
    preamble: int,
) -> int {
    4 * preamble_symbols(preamble) + 17 + 4 * (8 + payload_blocks(payload_bytes, sf, bw) * cr)
}

/// The time on air in units of `1 / (4 * bw)` seconds: a symbol lasts
/// `2^sf / bw` seconds.
pub open spec fn air_units(
    payload_bytes: int,
    sf: int,
    bw: LoRaBandwidth,
    cr: int,
    preamble: int,
) -> int {
    quarter_symbols(payload_bytes, sf, bw, cr, preamble) * power2::pow2(sf as nat)
}

/// There is a spreading factor, and the time on air is below 2^64 seconds.
pub open spec fn air_time_fits(
    payload_bytes: int,
    sf: int,
    bw: LoRaBandwidth,
    cr: int,
    preamble: int,
) -> bool {
    &&& sf >= 1
    &&& air_units(payload_bytes, sf, bw, cr, preamble) < 0x1_0000_0000_0000_0000 * (4 * bw.hz())
}

/// The time on air, to the nearest nanosecond.
pub open spec fn air_nanos(
    payload_bytes: int,
    sf: int,
    bw: LoRaBandwidth,
    cr: int,
    preamble: int,
) -> int {
    (2 * (air_units(payload_bytes, sf, bw, cr, preamble) * 1_000_000_000) + 4 * bw.hz()) / (2 * (4
        * bw.hz()))
}

/// Estimate `LoRa` packet air time, in nanoseconds, using the Semtech `LoRa`
/// time-on-air formula.
///
/// Parameters:
/// - `payload_bytes`: payload size in bytes
/// - `sf`: spreading factor (7–12)
/// - `bw`: bandwidth
/// - `cr`: coding rate denominator (5–8, meaning 4/5 to 4/8)
/// - `preamble`: preamble length in symbols (0 = firmware default of 16)
pub fn lora_air_time(payload_bytes: usize, sf: u8, bw: LoRaBandwidth, cr: u8, preamble: u16) -> (nanos:
    u128)
    requires
        (5 <= sf <= 12 && payload_bytes <= 65535) || air_time_fits(
            payload_bytes as int,
            sf as int,
            bw,
            cr as int,
            preamble as int,
        ),
    ensures
        nanos == air_nanos(payload_bytes as int, sf as int, bw, cr as int, preamble as int),
        0 < nanos <= 0x1_0000_0000_0000_0000 * 1_000_000_000,
{
    proof {
        if 5 <= sf <= 12 && payload_bytes <= 65535 {
            law_ordinary_air_time_fits(
                payload_bytes as int,
                sf as int,
                bw,
                cr as int,
                preamble as int,
            );
        }
    }
    let hz: u32 = bandwidth_hz(bw);
    let symbols: i128 = if preamble == 0 {
        16
    } else {
        preamble as i128
    };
    let de: i128 = if sf >= 11 && hz <= 125_000 {
        8
    } else {
        0
    };
    let bits: i128 = 8 * (payload_bytes as i128) - 4 * (sf as i128) + 44;
    let per_block: i128 = 4 * (sf as i128) - de;
    let blocks: i128 = if bits <= 0 {
        0
    } else {
        (bits + per_block - 1) / per_block
    };
    proof {
        if bits > 0 {
            assert(0 <= (bits + per_block - 1) / (per_block as int) <= bits + per_block - 1)
                by (nonlinear_arith)
                requires
                    bits > 0,
                    per_block >= 1,
            ;
        }
        assert(0 <= blocks * cr <= 0x1_0000_0000_0000_0000_00 * 255) by (nonlinear_arith)
            requires
                0 <= blocks <= 0x1_0000_0000_0000_0000_00,
                0 <= cr <= 255,
        ;
    }
    let quarters: i128 = 4 * symbols + 17 + 4 * (8 + blocks * (cr as i128));
    let mut units: u128 = quarters as u128;
    let mut k: u8 = 0;
    proof {
        power2::lemma2_to64();
        assert(quarters * 1 == quarters);
    }
    while k < sf
        invariant
            k <= sf,
            quarters > 0,
            7_800 <= hz <= 1_600_000,
            units == quarters * power2::pow2(k as nat),
            quarters * power2::pow2(sf as nat) < 0x1_0000_0000_0000_0000 * (4 * hz),
        decreases sf - k,
    {
        proof {
            power2::lemma_pow2_unfold((k + 1) as nat);
            let a = power2::pow2(k as nat) as int;
            let b = power2::pow2((k + 1) as nat) as int;
            if k + 1 < sf {
                power2::lemma_pow2_strictly_increases((k + 1) as nat, sf as nat);
            }
            assert(quarters * b == 2 * (quarters * a)) by (nonlinear_arith)
                requires
                    b == 2 * a,
            ;
            let c = power2::pow2(sf as nat) as int;
            assert(quarters * b <= quarters * c) by (nonlinear_arith)
                requires
                    b <= c,
                    quarters > 0,
            ;
        }
        units = 2 * units;
        k = k + 1;
    }
    let per_second: u128 = 4 * (hz as u128);
    let nanos: u128 = (2 * (units * 1_000_000_000) + per_second) / (2 * per_second);
    proof {
        let n = air_units(payload_bytes as int, sf as int, bw, cr as int, preamble as int);
        assert(n == units);
        let top = 2 * (n * 1_000_000_000) + 4 * hz;
        let d = 2 * (4 * hz);
        power2::lemma_pow2_strictly_increases(0, sf as nat);
        assert(n >= 2 * 53) by (nonlinear_arith)
            requires
                n == quarters * power2::pow2(sf as nat),
                quarters >= 53,
                power2::pow2(sf as nat) >= 2,
        ;
        assert(0 < top / d <= 0x1_0000_0000_0000_0000 * 1_000_000_000) by (nonlinear_arith)
            requires
                top == 2 * (n * 1_000_000_000) + 4 * hz,
                d == 2 * (4 * hz),
                7_800 <= hz <= 1_600_000,
                106 <= n < 0x1_0000_0000_0000_0000 * (4 * hz),
        ;
    }
    nanos
}

/// Law: at every spreading factor that radios have, the time on air of a
/// payload that fits a frame can be counted.
pub proof fn law_ordinary_air_time_fits(
    payload_bytes: int,
    sf: int,
    bw: LoRaBandwidth,
    cr: int,
    preamble: int,
)
    requires
        0 <= payload_bytes <= 65535,
        5 <= sf <= 12,
        0 <= cr <= 255,
        0 <= preamble <= 65535,
    ensures
        air_time_fits(payload_bytes, sf, bw, cr, preamble),
{
    power2::lemma2_to64();
    let blocks = payload_blocks(payload_bytes, sf, bw);
    let d = block_bits(sf, bw);
    let bits = 8 * payload_bytes - 4 * sf + 44;
    assert(20 <= d <= 48);
    if bits > 0 {
        assert(0 <= (bits + d - 1) / d <= 600_000) by (nonlinear_arith)
            requires
                0 < bits <= 525_000,
                20 <= d <= 48,
        ;
    }
    assert(0 <= blocks * cr <= 600_000 * 255) by (nonlinear_arith)
        requires
            0 <= blocks <= 600_000,
            0 <= cr <= 255,
    ;
    let q = quarter_symbols(payload_bytes, sf, bw, cr, preamble);
    let p = power2::pow2(sf as nat) as int;
    assert(0 <= p <= 4096);
    assert(q * p <= 700_000_000 * 4096) by (nonlinear_arith)
        requires
            0 <= q <= 700_000_000,
            0 <= p <= 4096,
    ;
}

/// Law: a preamble length of zero is the firmware default of 16 symbols.
pub proof fn law_zero_preamble_is_sixteen(
    payload_bytes: int,
    sf: int,
    bw: LoRaBandwidth,
    cr: int,
)
    ensures
        air_nanos(payload_bytes, sf, bw, cr, 0) == air_nanos(payload_bytes, sf, bw, cr, 16),
{
}

/// Law: `extra` more preamble symbols add exactly `extra` symbol times.
pub proof fn law_preamble_adds_symbol_times(
    payload_bytes: int,
    sf: int,
    bw: LoRaBandwidth,
    cr: int,
    preamble: int,
    extra: int,
)
    requires
        preamble > 0,
        extra >= 0,
    ensures
        air_units(payload_bytes, sf, bw, cr, preamble + extra) == air_units(
            payload_bytes,
            sf,
            bw,
            cr,
            preamble,
        ) + extra * (4 * power2::pow2(sf as nat)),
{
    let q = quarter_symbols(payload_bytes, sf, bw, cr, preamble);
    let p = power2::pow2(sf as nat) as int;
    assert((q + 4 * extra) * p == q * p + extra * (4 * p)) by (nonlinear_arith);
}

/// Law: a longer payload never takes less time on air.
pub proof fn law_air_time_grows_with_payload(
    payload_bytes: int,
    longer: int,
    sf: int,
    bw: LoRaBandwidth,
    cr: int,
    preamble: int,
)
    requires
        0 <= payload_bytes <= longer,
        1 <= sf,
        0 <= cr,
    ensures
        air_nanos(payload_bytes, sf, bw, cr, preamble) <= air_nanos(longer, sf, bw, cr, preamble),
{
    let a = payload_blocks(payload_bytes, sf, bw);
    let b = payload_blocks(longer, sf, bw);
    let d = block_bits(sf, bw);
    let x = 8 * payload_bytes - 4 * sf + 44;
    let y = 8 * longer - 4 * sf + 44;
    if y > 0 {
        assert(0 <= (y + d - 1) / d) by (nonlinear_arith)
            requires
                y > 0,
                d > 0,
        ;
        if x > 0 {
            assert((x + d - 1) / d <= (y + d - 1) / d) by (nonlinear_arith)
                requires
                    x <= y,
                    d > 0,
            ;
        }
    }
    assert(a * cr <= b * cr) by (nonlinear_arith)
        requires
            a <= b,
            cr >= 0,
    ;
    let p = power2::pow2(sf as nat) as int;
    let q = quarter_symbols(payload_bytes, sf, bw, cr, preamble);
    let r = quarter_symbols(longer, sf, bw, cr, preamble);
    assert(q * p <= r * p) by (nonlinear_arith)
        requires
            q <= r,
            p >= 0,
    ;
    let h = 4 * bw.hz();
    let m = q * p;
    let n = r * p;
    assert((2 * (m * 1_000_000_000) + h) / (2 * h) <= (2 * (n * 1_000_000_000) + h) / (2 * h))
        by (nonlinear_arith)
        requires
            m <= n,
            h > 0,
    ;
}

/// Law: the bandwidths, in Hz, are those that `LoRa` radios have.
pub proof fn law_nominal_bandwidths(bw: LoRaBandwidth, hz: u32)
    requires
        call_ensures(bandwidth_hz, (bw,), hz),
    ensures
        hz == 7_800 <==> bw == LoRaBandwidth::Khz7,
        hz == 10_400 <==> bw == LoRaBandwidth::Khz10,
        hz == 15_600 <==> bw == LoRaBandwidth::Khz15,
        hz == 20_800 <==> bw == LoRaBandwidth::Khz20,
        hz == 31_250 <==> bw == LoRaBandwidth::Khz31,
        hz == 41_700 <==> bw == LoRaBandwidth::Khz41,
        hz == 62_500 <==> bw == LoRaBandwidth::Khz62,
        hz == 125_000 <==> bw == LoRaBandwidth::Khz125,
        hz == 250_000 <==> bw == LoRaBandwidth::Khz250,
        hz == 500_000 <==> bw == LoRaBandwidth::Khz500,
        hz == 200_000 <==> bw == LoRaBandwidth::Khz200,
        hz == 400_000 <==> bw == LoRaBandwidth::Khz400,
        hz == 800_000 <==> bw == LoRaBandwidth::Khz800,
        hz == 1_600_000 <==> bw == LoRaBandwidth::Khz1600,
{
}

/// Law: the time on air is the Semtech formula's, to the nearest nanosecond. A
/// symbol lasts `2^sf / hz` seconds. On the air are the preamble, or 16
/// symbols where it is zero, 4.25 symbols of synchronization, 8 symbols, and
/// `cr` symbols for every block of payload. The blocks are the fewest that
/// hold eight bits for every byte of payload, less four for every spreading
/// factor, and 44 more for the header and the CRC; a block holds four bits for
/// every spreading factor, or, from spreading factor 11 on and up to 125 kHz,
/// for two less.
pub proof fn law_time_on_air_is_the_semtech_formula(
    payload_bytes: usize,
    sf: u8,
    bw: LoRaBandwidth,
    cr: u8,
    preamble: u16,
    hz: u32,
    blocks: int,
    nanos: u128,
)
    requires
        call_ensures(lora_air_time, (payload_bytes, sf, bw, cr, preamble), nanos),
        call_ensures(bandwidth_hz, (bw,), hz),
        5 <= sf,
        ({
            let bits = 8 * payload_bytes - 4 * sf + 28 + 16;
            let per_block = 4 * (sf - if sf >= 11 && hz <= 125_000 {
                2int
            } else {
                0
            });
            &&& blocks >= 0
            &&& blocks * per_block >= bits
            &&& blocks == 0 || (blocks - 1) * per_block < bits
        }),
    ensures
        ({
            let symbols = if preamble == 0 {
                16
            } else {
                preamble as int
            };
            let quarters = 4 * symbols + 17 + 4 * (8 + blocks * cr);
            let exact = quarters * power2::pow2(sf as nat) * 1_000_000_000;
            -2 * hz <= nanos * (4 * hz) - exact <= 2 * hz
        }),
{
    let bits = 8 * payload_bytes - 4 * sf + 44;
    let d = block_bits(sf as int, bw);
    let b = payload_blocks(payload_bytes as int, sf as int, bw);
    assert(d > 0);
    if bits > 0 {
        let q = (bits + d - 1) / d;
        assert(q * d >= bits && (q - 1) * d < bits && q >= 1) by (nonlinear_arith)
            requires
                q == (bits + d - 1) / d,
                bits > 0,
                d > 0,
        ;
        assert(blocks == q) by (nonlinear_arith)
            requires
                q * d >= bits,
                (q - 1) * d < bits,
                blocks * d >= bits,
                blocks == 0 || (blocks - 1) * d < bits,
                bits > 0,
                d > 0,
        ;
    } else if blocks > 0 {
        assert((blocks - 1) * d >= 0) by (nonlinear_arith)
            requires
                blocks >= 1,
                d > 0,
        ;
    }
    assert(blocks == b);
    let n = air_units(payload_bytes as int, sf as int, bw, cr as int, preamble as int);
    let top = 2 * (n * 1_000_000_000) + 4 * hz;
    let h = hz as int;
    let t = nanos as int;
    assert(-2 * h <= t * (4 * h) - n * 1_000_000_000 <= 2 * h) by (nonlinear_arith)
        requires
            t == (2 * (n * 1_000_000_000) + 4 * h) / (2 * (4 * h)),
            h > 0,
    ;
}

/// Law: with all else equal, the time on air times the bandwidth is the same
/// at every bandwidth, to the rounding of the times.
pub proof fn law_time_on_air_is_inverse_to_the_bandwidth(
    payload_bytes: usize,
    sf: u8,
    cr: u8,
    preamble: u16,
    a: LoRaBandwidth,
    hz_a: u32,
    nanos_a: u128,
    b: LoRaBandwidth,
    hz_b: u32,
    nanos_b: u128,
)
    requires
        5 <= sf,
        call_ensures(bandwidth_hz, (a,), hz_a),
        call_ensures(bandwidth_hz, (b,), hz_b),
        call_ensures(lora_air_time, (payload_bytes, sf, a, cr, preamble), nanos_a),
        call_ensures(lora_air_time, (payload_bytes, sf, b, cr, preamble), nanos_b),
        sf < 11 || (hz_a <= 125_000 <==> hz_b <= 125_000),
    ensures
        -(hz_a + hz_b) <= 2 * (nanos_a * hz_a - nanos_b * hz_b) <= hz_a + hz_b,
{
    let blocks = payload_blocks(payload_bytes as int, sf as int, a);
    lemma_fewest_blocks(payload_bytes as int, sf as int, a);
    lemma_fewest_blocks(payload_bytes as int, sf as int, b);
    law_time_on_air_is_the_semtech_formula(
        payload_bytes,
        sf,
        a,
        cr,
        preamble,
        hz_a,
        blocks,
        nanos_a,
    );
    law_time_on_air_is_the_semtech_formula(
        payload_bytes,
        sf,
        b,
        cr,
        preamble,
        hz_b,
        blocks,
        nanos_b,
    );
    let x = nanos_a as int;
    let y = nanos_b as int;
    let f = hz_a as int;
    let g = hz_b as int;
    assert(x * (4 * f) == 4 * (x * f) && y * (4 * g) == 4 * (y * g)) by (nonlinear_arith);
}

proof fn lemma_fewest_blocks(payload_bytes: int, sf: int, bw: LoRaBandwidth)
    requires
        5 <= sf,
    ensures
        ({
            let bits = 8 * payload_bytes - 4 * sf + 44;
            let d = block_bits(sf, bw);
            let n = payload_blocks(payload_bytes, sf, bw);
            &&& n >= 0
            &&& n * d >= bits
            &&& n == 0 || (n - 1) * d < bits
        }),
{
    let bits = 8 * payload_bytes - 4 * sf + 44;
    let d = block_bits(sf, bw);
    if bits > 0 {
        let q = (bits + d - 1) / d;
        assert(q * d >= bits && (q - 1) * d < bits && q >= 1) by (nonlinear_arith)
            requires
                q == (bits + d - 1) / d,
                bits > 0,
                d > 0,
        ;
    } else {
        assert(0 * d == 0);
    }
}

/// Law: up to spreading factor 10, a packet takes a quarter of the time at
/// 500 kHz that it takes at 125 kHz, half at 250 kHz, and twice as long at
/// 62.5 kHz, to the rounding of the times.
pub proof fn law_four_times_the_bandwidth_is_a_quarter_of_the_time(
    payload_bytes: usize,
    sf: u8,
    cr: u8,
    preamble: u16,
    at_500: u128,
    at_250: u128,
    at_125: u128,
    at_62: u128,
)
    requires
        5 <= sf <= 10,
        call_ensures(
            lora_air_time,
            (payload_bytes, sf, LoRaBandwidth::Khz500, cr, preamble),
            at_500,
        ),
        call_ensures(
            lora_air_time,
            (payload_bytes, sf, LoRaBandwidth::Khz250, cr, preamble),
            at_250,
        ),
        call_ensures(
            lora_air_time,
            (payload_bytes, sf, LoRaBandwidth::Khz125, cr, preamble),
            at_125,
        ),
        call_ensures(lora_air_time, (payload_bytes, sf, LoRaBandwidth::Khz62, cr, preamble), at_62),
    ensures
        -2 <= 4 * at_500 - at_125 <= 2,
        -1 <= 2 * at_250 - at_125 <= 1,
        -1 <= at_62 - 2 * at_125 <= 1,
{
    let m = air_units(
        payload_bytes as int,
        sf as int,
        LoRaBandwidth::Khz125,
        cr as int,
        preamble as int,
    ) * 1_000_000_000;
    assert(at_500 == (2 * m + 2_000_000) / 4_000_000);
    assert(at_250 == (2 * m + 1_000_000) / 2_000_000);
    assert(at_125 == (2 * m + 500_000) / 1_000_000);
    assert(at_62 == (2 * m + 250_000) / 500_000);
}

// ── Token bucket ────────────────────────────────────────────────────

/// A rate of `packets` times two to the `exponent` packets per `nanos`
/// nanoseconds. Every positive binary64 number of packets per second is such
/// a rate, to the last digit.
#[derive(Debug, Clone, Copy, PartialEq, Eq, Structural)]
pub struct Rate {
    pub packets: u64,
    pub exponent: i16,
    pub nanos: u128,
}

impl Rate {
    /// The rate is positive, and is either a plain ratio or a binary64 number
    /// of packets per second.
    pub open spec fn wf(self) -> bool {
        &&& self.packets > 0
        &&& 0 < self.nanos <= 0x100_0000_0000_0000_0000_0000_0000_0000
        &&& -1074 <= self.exponent <= UNBOUNDED_EXPONENT
        &&& self.exponent != 0 ==> self.packets < SIGNIFICAND_END && self.nanos == SECOND_NANOS
        &&& self.exponent > 0 ==> 2 * self.packets >= SIGNIFICAND_END
    }

    /// The units of credit that make one token.
    pub open spec fn token(self) -> int {
        if self.exponent < 0 {
            self.nanos * power2::pow2((-self.exponent) as nat)
        } else {
            self.nanos as int
        }
    }

    /// The units of credit that a nanosecond adds.
    pub open spec fn gain(self) -> int {
        if self.exponent > 0 {
            self.packets * power2::pow2(self.exponent as nat)
        } else {
            self.packets as int
        }
    }

    /// Whether the rate is more than any number, so that it sets no bound.
    pub open spec fn unbounded(self) -> bool {
        self.exponent >= UNBOUNDED_EXPONENT
    }

    /// Whether no clock lasts long enough for a token at this rate.
    spec fn slow(self) -> bool {
        self.exponent < -90
    }
}

proof fn lemma_pow2_90()
    ensures
        power2::pow2(90) == 0x400_0000_0000_0000_0000_0000,
        power2::pow2(91) == 0x800_0000_0000_0000_0000_0000,
        power2::pow2(70) == 0x40_0000_0000_0000_0000,
{
    power2::lemma2_to64();
    power2::lemma2_to64_rest();
    power2::lemma_pow2_adds(64, 26);
    power2::lemma_pow2_adds(64, 6);
    power2::lemma_pow2_adds(64, 27);
}

/// What the bucket's arithmetic needs of a rate.
proof fn lemma_rate(rate: Rate)
    requires
        rate.wf(),
    ensures
        rate.token() > 0,
        rate.gain() > 0,
        !rate.slow() ==> rate.token() <= 0x100_0000_0000_0000_0000_0000_0000_0000,
        rate.slow() ==> rate.token() > 0x100_0000_0000_0000_0000_0000_0000_0000,
        rate.exponent <= 70 ==> rate.gain() <= 0x800_0000_0000_0000_0000_0000_0000_0000,
        rate.exponent > 70 ==> rate.gain() >= 0x400_0000_0000_0000_0000_0000_0000_0000,
{
    lemma_pow2_90();
    let e = rate.exponent;
    if e < 0 {
        let p = power2::pow2((-e) as nat) as int;
        power2::lemma_pow2_pos((-e) as nat);
        if -e < 90 {
            power2::lemma_pow2_strictly_increases((-e) as nat, 90);
        }
        if -e > 91 {
            power2::lemma_pow2_strictly_increases(91, (-e) as nat);
        }
        assert(rate.token() == 1_000_000_000 * p) by (nonlinear_arith)
            requires
                rate.token() == rate.nanos * p,
                rate.nanos == 1_000_000_000,
        ;
    } else if e > 0 {
        let p = power2::pow2(e as nat) as int;
        power2::lemma_pow2_pos(e as nat);
        if e < 70 {
            power2::lemma_pow2_strictly_increases(e as nat, 70);
        }
        if e > 70 {
            power2::lemma_pow2_strictly_increases(70, e as nat);
        }
        assert(rate.packets * p > 0) by (nonlinear_arith)
            requires
                rate.packets > 0,
                p > 0,
        ;
        assert(p <= 0x40_0000_0000_0000_0000 ==> rate.packets * p
            <= 0x800_0000_0000_0000_0000_0000_0000_0000) by (nonlinear_arith)
            requires
                0 < rate.packets < 0x20_0000_0000_0000,
                p > 0,
        ;
        assert(p >= 0x40_0000_0000_0000_0000 ==> rate.packets * p
            >= 0x400_0000_0000_0000_0000_0000_0000_0000) by (nonlinear_arith)
            requires
                rate.packets >= 0x10_0000_0000_0000,
                p > 0,
        ;
    }
}

/// Token-bucket rate limiter for radio transmissions.
///
/// Calculates a safe transmit rate from the `LoRa` radio configuration (spreading factor,
/// bandwidth, coding rate) and enforces it with a token bucket that allows short bursts.
/// Credit is counted in units that are small enough for a token and the gain of a
/// nanosecond to be whole numbers of them.
///
/// A token pays for a packet of the estimated time on air. A transmission that was
/// measured to be longer is charged for the rest, and what the bucket then lacks it
/// owes: no packet is admitted before the debt is paid off.
#[derive(Debug, Clone, Copy)]
pub struct RateLimiter {
    /// Whole tokens, at a rate whose token is too large to be counted in units.
    held: u64,
    /// Units of credit beyond those.
    part: i128,
    rate: Rate,
    /// The units of a token, where they can be counted.
    token: u128,
    /// The units of a nanosecond, or as many as fill any bucket.
    gain: u128,
    share: u64,
    last_refill: u64,
}

/// What a [`RateLimiter`] holds. Its `share` is the time that the bucket gives
/// to a unit of time on air: two under a duty cycle of one half, one where
/// the rate was asked for.
pub struct LimiterView {
    pub credit: int,
    pub rate: Rate,
    pub share: int,
    pub last_refill: int,
}

impl LimiterView {
    /// The bucket is never fuller than the burst, and its debt is bounded.
    pub open spec fn wf(self) -> bool {
        &&& self.rate.wf()
        &&& 1 <= self.share <= 2
        &&& -MAX_DEBT <= self.credit <= self.capacity()
        &&& 0 <= self.last_refill
    }

    /// Credit of a full bucket.
    pub open spec fn capacity(self) -> int {
        DEFAULT_BURST * self.rate.token()
    }

    /// A full bucket at time `now`.
    pub open spec fn full(rate: Rate, share: int, now: int) -> LimiterView {
        LimiterView { credit: DEFAULT_BURST * rate.token(), rate, share, last_refill: now }
    }

    /// The bucket after the time up to `now` was credited. A clock that has
    /// not advanced credits nothing; a rate without bound fills the bucket at
    /// any time.
    pub open spec fn refilled(self, now: int) -> LimiterView {
        let elapsed = if now > self.last_refill {
            now - self.last_refill
        } else {
            0
        };
        let credit = self.credit + elapsed * self.rate.gain();
        LimiterView {
            credit: if !self.rate.unbounded() && credit < self.capacity() {
                credit
            } else {
                self.capacity()
            },
            last_refill: self.last_refill + elapsed,
            ..self
        }
    }

    /// Whether a token is there at time `now`.
    pub open spec fn admits(self, now: int) -> bool {
        self.refilled(now).credit >= self.rate.token()
    }

    /// The bucket after a token was asked for at time `now`.
    pub open spec fn asked(self, now: int) -> LimiterView {
        let r = self.refilled(now);
        if self.admits(now) {
            LimiterView { credit: r.credit - r.rate.token(), ..r }
        } else {
            r
        }
    }

    /// What a transmission of the given time on air, in microseconds, costs.
    pub open spec fn airtime_cost(self, airtime_us: int) -> int {
        self.share * (1000 * airtime_us) * self.rate.gain()
    }

    /// The bucket after a transmission was measured: what it cost beyond the
    /// token that was paid for it is taken off as well. A shorter one gives
    /// nothing back.
    pub open spec fn charged(self, airtime_us: int) -> LimiterView {
        let cost = self.airtime_cost(airtime_us);
        let credit = if cost > self.rate.token() {
            self.credit - (cost - self.rate.token())
        } else {
            self.credit
        };
        LimiterView {
            credit: if credit > -MAX_DEBT {
                credit
            } else {
                -MAX_DEBT as int
            },
            ..self
        }
    }
}

impl View for RateLimiter {
    type V = LimiterView;

    closed spec fn view(&self) -> LimiterView {
        LimiterView {
            credit: self.held * self.rate.token() + self.part,
            rate: self.rate,
            share: self.share as int,
            last_refill: self.last_refill as int,
        }
    }
}

/// Whether the bits are those of a binary64 number above zero, infinity among them.
pub open spec fn is_positive(bits: u64) -> bool {
    0 < bits <= 0x7FF0_0000_0000_0000
}

/// The integer that a positive binary64 number multiplies by a power of two.
pub open spec fn significand(bits: u64) -> int {
    if bits < 0x10_0000_0000_0000 {
        bits as int
    } else {
        bits % 0x10_0000_0000_0000 + 0x10_0000_0000_0000
    }
}

/// The exponent of that power of two.
pub open spec fn exponent(bits: u64) -> int {
    if bits < 0x10_0000_0000_0000 {
        -1074
    } else {
        bits / 0x10_0000_0000_0000 - 1075
    }
}

/// The rate that was asked for as a binary64 number of packets per second,
/// given by its bits. A number above zero is taken as it is, and infinity as
/// no bound at all; anything else becomes a hundredth of a packet per second.
pub open spec fn asked_rate(bits: u64) -> Rate {
    if is_positive(bits) {
        Rate {
            packets: significand(bits) as u64,
            exponent: exponent(bits) as i16,
            nanos: SECOND_NANOS,
        }
    } else {
        Rate { packets: 1, exponent: 0, nanos: FLOOR_NANOS }
    }
}

/// The rate for a radio configuration: the one asked for, or else one
/// reference packet in twice its time on air, which is a duty cycle of one half.
pub open spec fn radio_rate(
    sf: int,
    bw: LoRaBandwidth,
    cr: int,
    preamble: int,
    override_pps_bits: Option<u64>,
) -> Rate {
    match override_pps_bits {
        Some(bits) => asked_rate(bits),
        None => Rate {
            packets: 1,
            exponent: 0,
            nanos: (2 * air_nanos(REFERENCE_PAYLOAD_BYTES as int, sf, bw, cr, preamble)) as u128,
        },
    }
}

/// The time that is given to a unit of time on air: twice as much, or only as
/// much where the rate was asked for.
pub open spec fn radio_share(override_pps_bits: Option<u64>) -> int {
    match override_pps_bits {
        Some(_) => 1,
        None => 2,
    }
}

fn power_of_two(k: u64) -> (p: u128)
    requires
        k <= 90,
    ensures
        p == power2::pow2(k as nat),
        1 <= p <= 0x400_0000_0000_0000_0000_0000,
{
    let mut p: u128 = 1;
    let mut i: u64 = 0;
    proof {
        power2::lemma2_to64();
    }
    proof {
        lemma_pow2_90();
    }
    while i < k
        invariant
            i <= k <= 90,
            p == power2::pow2(i as nat),
            power2::pow2(90) == 0x400_0000_0000_0000_0000_0000,
        decreases k - i,
    {
        proof {
            power2::lemma_pow2_unfold((i + 1) as nat);
            if i + 1 < 90 {
                power2::lemma_pow2_strictly_increases((i + 1) as nat, 90);
            }
        }
        p = 2 * p;
        i = i + 1;
    }
    proof {
        power2::lemma_pow2_pos(k as nat);
        if k < 90 {
            power2::lemma_pow2_strictly_increases(k as nat, 90);
        }
    }
    p
}

/// The rate asked for as a binary64 number of packets per second, given by its bits.
fn rate_of_bits(bits: u64) -> (rate: Rate)
    ensures
        rate == asked_rate(bits),
        rate.wf(),
{
    if bits == 0 || bits > 0x7FF0_0000_0000_0000 {
        return Rate { packets: 1, exponent: 0, nanos: FLOOR_NANOS };
    }
    let field: u64 = bits / 0x10_0000_0000_0000;
    if field == 0 {
        Rate { packets: bits, exponent: -1074, nanos: SECOND_NANOS }
    } else {
        Rate {
            packets: bits % 0x10_0000_0000_0000 + 0x10_0000_0000_0000,
            exponent: field as i16 - 1075,
            nanos: SECOND_NANOS,
        }
    }
}

/// The units of a token, where they can be counted.
fn token_units(rate: Rate) -> (units: u128)
    requires
        rate.wf(),
        !rate.slow(),
    ensures
        units == rate.token(),
{
    proof {
        lemma_rate(rate);
    }
    if rate.exponent < 0 {
        let p: u128 = power_of_two((-rate.exponent) as u64);
        rate.nanos * p
    } else {
        rate.nanos
    }
}

/// The units of a nanosecond, or as many as fill any bucket.
fn gain_units(rate: Rate) -> (units: u128)
    requires
        rate.wf(),
    ensures
        gain_counted(rate, units),
{
    proof {
        lemma_rate(rate);
    }
    if rate.exponent > 70 {
        0x400_0000_0000_0000_0000_0000_0000_0000
    } else if rate.exponent > 0 {
        let p: u128 = power_of_two(rate.exponent as u64);
        (rate.packets as u128) * p
    } else {
        rate.packets as u128
    }
}

/// Whether `units` can stand for the gain of a nanosecond: they are equal, or
/// both are more than a bucket can lack.
spec fn gain_counted(rate: Rate, units: u128) -> bool {
    &&& units > 0
    &&& units == rate.gain() || {
        &&& rate.exponent > 70
        &&& units == 0x400_0000_0000_0000_0000_0000_0000_0000
        &&& rate.gain() >= units
    }
}

impl RateLimiter {
    /// The invariant of a limiter.
    pub closed spec fn wf(&self) -> bool {
        &&& self@.wf()
        &&& gain_counted(self.rate, self.gain)
        &&& if self.rate.slow() {
            &&& self.held <= 3
            &&& 0 <= self.part <= self.last_refill * self.rate.packets
            &&& self.held == 3 ==> self.part == 0
        } else {
            &&& self.held == 0
            &&& self.token == self.rate.token()
        }
    }

    /// A limiter that is sound has a sound view.
    pub proof fn lemma_wf(&self)
        requires
            self.wf(),
        ensures
            self@.wf(),
    {
    }

    /// Create a rate limiter derived from radio config, with a full bucket.
    ///
    /// If `override_pps_bits` is `Some`, use that rate, the bits of a binary64
    /// number of packets per second, directly instead of calculating.
    pub fn from_radio_config(
        sf: u8,
        bw: LoRaBandwidth,
        cr: u8,
        preamble: u16,
        override_pps_bits: Option<u64>,
        now: u64,
    ) -> (r: RateLimiter)
        requires
            override_pps_bits is None ==> 5 <= sf <= 12 || air_time_fits(
                REFERENCE_PAYLOAD_BYTES as int,
                sf as int,
                bw,
                cr as int,
                preamble as int,
            ),
        ensures
            r.wf(),
            r@.wf(),
            r@ == LimiterView::full(
                radio_rate(sf as int, bw, cr as int, preamble as int, override_pps_bits),
                radio_share(override_pps_bits),
                now as int,
            ),
    {
        let (rate, share): (Rate, u64) = match override_pps_bits {
            Some(bits) => (rate_of_bits(bits), 1),
            None => {
                let air_time: u128 = lora_air_time(REFERENCE_PAYLOAD_BYTES, sf, bw, cr, preamble);
                (Rate { packets: 1, exponent: 0, nanos: 2 * air_time }, 2)
            },
        };
        proof {
            lemma_rate(rate);
        }
        let gain: u128 = gain_units(rate);
        if rate.exponent < -90 {
            RateLimiter { held: 3, part: 0, rate, token: 0, gain, share, last_refill: now }
        } else {
            let token: u128 = token_units(rate);
            RateLimiter {
                held: 0,
                part: (DEFAULT_BURST * token) as i128,
                rate,
                token,
                gain,
                share,
                last_refill: now,
            }
        }
    }

    /// Try to consume one token at time `now`. Returns `true` if the
    /// transmission is allowed.
    pub fn try_acquire(&mut self, now: u64) -> (allowed: bool)
        requires
            old(self).wf(),
        ensures
            final(self).wf(),
            allowed == old(self)@.admits(now as int),
            final(self)@ == old(self)@.asked(now as int),
    {
        self.refill(now);
        proof {
            lemma_rate(self.rate);
            lemma_tokens(self.held as int, self.rate.token());
        }
        if self.rate.exponent < -90 {
            proof {
                lemma_slow_part(self.last_refill, self.rate.packets);
            }
            if self.held > 0 {
                self.held = self.held - 1;
                true
            } else {
                false
            }
        } else if self.part >= self.token as i128 {
            self.part = self.part - self.token as i128;
            true
        } else {
            false
        }
    }

    /// Take in the measured time on air of a transmission, in microseconds:
    /// the bucket is charged for what the transmission's token did not cover.
    pub fn charge_airtime(&mut self, airtime_us: u32)
        requires
            old(self).wf(),
        ensures
            final(self).wf(),
            final(self)@ == old(self)@.charged(airtime_us as int),
    {
        let on_air: u64 = 1000 * (airtime_us as u64);
        assert(on_air <= self.share * on_air <= 2 * on_air) by (nonlinear_arith)
            requires
                1 <= self.share <= 2,
                0 <= on_air,
        ;
        let time: u64 = self.share * on_air;
        proof {
            lemma_rate(self.rate);
            lemma_tokens(self.held as int, self.rate.token());
        }
        if self.rate.exponent < -90 {
            proof {
                assert(time * self.rate.packets <= 0x800_0000_0000 * 0x20_0000_0000_0000)
                    by (nonlinear_arith)
                    requires
                        0 <= time <= 0x800_0000_0000,
                        0 <= self.rate.packets <= 0x20_0000_0000_0000,
                ;
            }
            return ;
        }
        let limit: u128 = (self.part + MAX_DEBT + self.token as i128) as u128;
        proof {
            lemma_quotient(time as int, limit as int, self.gain as int, self.rate.gain());
        }
        if time as u128 > limit / self.gain {
            self.part = -MAX_DEBT;
        } else {
            let cost: u128 = (time as u128) * self.gain;
            if cost > self.token {
                self.part = self.part - (cost - self.token) as i128;
            }
        }
    }

    /// Current rate.
    pub fn rate_pps(&self) -> (rate: Rate)
        ensures
            rate == self@.rate,
    {
        self.rate
    }

    fn refill(&mut self, now: u64)
        requires
            old(self).wf(),
        ensures
            final(self).wf(),
            final(self)@ == old(self)@.refilled(now as int),
            final(self).rate == old(self).rate,
    {
        let elapsed: u64 = if now > self.last_refill {
            now - self.last_refill
        } else {
            0
        };
        proof {
            lemma_rate(self.rate);
            lemma_tokens(self.held as int, self.rate.token());
        }
        if self.rate.exponent < -90 {
            proof {
                let old_refill = self.last_refill;
                let p = self.rate.packets;
                assert(elapsed * p + old_refill * p == (old_refill + elapsed) * p)
                    by (nonlinear_arith);
                lemma_slow_part((old_refill + elapsed) as u64, p);
                assert(0 <= elapsed * p) by (nonlinear_arith)
                    requires
                        0 <= elapsed,
                        0 <= p,
                ;
                assert(elapsed * p <= 0xFFFF_FFFF_FFFF_FFFF * 0x20_0000_0000_0000)
                    by (nonlinear_arith)
                    requires
                        0 <= elapsed <= 0xFFFF_FFFF_FFFF_FFFF,
                        0 <= p <= 0x20_0000_0000_0000,
                ;
            }
            if self.held < 3 {
                self.part = self.part + ((elapsed as u128) * (self.rate.packets as u128)) as i128;
            }
        } else {
            let full: i128 = (DEFAULT_BURST * self.token) as i128;
            let room: u128 = (full - self.part) as u128;
            proof {
                lemma_quotient(elapsed as int, room as int, self.gain as int, self.rate.gain());
            }
            self.part =
            if self.rate.exponent >= UNBOUNDED_EXPONENT || elapsed as u128 > room / self.gain {
                full
            } else {
                self.part + ((elapsed as u128) * self.gain) as i128
            };
        }
        self.last_refill = self.last_refill + elapsed;
    }
}

proof fn lemma_tokens(held: int, token: int)
    ensures
        held == 0 ==> held * token == 0,
        held == 1 ==> held * token == token,
        held == 2 ==> held * token == 2 * token,
        held == 3 ==> held * token == 3 * token,
        (held - 1) * token == held * token - token,
{
    assert((held - 1) * token == held * token - token) by (nonlinear_arith);
    assert(held == 0 ==> held * token == 0) by (nonlinear_arith);
    assert(held == 1 ==> held * token == token) by (nonlinear_arith);
    assert(held == 2 ==> held * token == 2 * token) by (nonlinear_arith);
    assert(held == 3 ==> held * token == 3 * token) by (nonlinear_arith);
}

/// What a slow rate gains in all the time that a clock can count.
proof fn lemma_slow_part(last_refill: u64, packets: u64)
    ensures
        0 <= last_refill * packets,
        packets < SIGNIFICAND_END ==> last_refill * packets
            < 0x100_0000_0000_0000_0000_0000_0000_0000,
{
    assert(0 <= last_refill * packets) by (nonlinear_arith)
        requires
            0 <= last_refill,
            0 <= packets,
    ;
    assert(packets < 0x20_0000_0000_0000 ==> last_refill * packets
        < 0x100_0000_0000_0000_0000_0000_0000_0000) by (nonlinear_arith)
        requires
            0 <= last_refill <= 0xFFFF_FFFF_FFFF_FFFF,
            0 <= packets,
    ;
}

/// Comparing with a quotient is comparing with a product, also where the
/// counted gain only stands for a larger one.
proof fn lemma_quotient(time: int, limit: int, counted: int, gain: int)
    requires
        time >= 0,
        limit >= 0,
        counted > 0,
        gain == counted || gain >= counted > limit,
    ensures
        time > limit / counted ==> time * gain > limit,
        time <= limit / counted ==> time * counted <= limit && time * gain == time * counted,
{
    assert(time > limit / counted ==> time * counted > limit) by (nonlinear_arith)
        requires
            counted > 0,
            limit >= 0,
    ;
    assert(time <= limit / counted ==> time * counted <= limit) by (nonlinear_arith)
        requires
            counted > 0,
            limit >= 0,
    ;
    assert(time * gain >= time * counted) by (nonlinear_arith)
        requires
            time >= 0,
            gain >= counted,
    ;
    if counted > limit {
        assert(limit / counted == 0) by (nonlinear_arith)
            requires
                0 <= limit < counted,
        ;
        assert(time == 0 ==> time * gain == 0 && time * counted == 0) by (nonlinear_arith);
    }
}

/// Law: every rate is positive.
pub proof fn law_rate_is_positive(rate: Rate)
    requires
        rate.wf(),
    ensures
        rate.token() > 0,
        rate.gain() > 0,
{
    lemma_rate(rate);
}

/// Law: whatever the configuration, a fresh limiter of a bounded rate admits a burst of three
/// packets at once and refuses the fourth.
pub proof fn law_burst_of_three(rate: Rate, share: int, now: int)
    requires
        rate.wf(),
        !rate.unbounded(),
        1 <= share <= 2,
        now >= 0,
    ensures
        ({
            let b0 = LimiterView::full(rate, share, now);
            let b1 = b0.asked(now);
            let b2 = b1.asked(now);
            let b3 = b2.asked(now);
            b0.admits(now) && b1.admits(now) && b2.admits(now) && !b3.admits(now)
        }),
{
    law_rate_is_positive(rate);
    assert(0 * rate.gain() == 0) by (nonlinear_arith);
}

/// Law: what a rate means. A nanosecond adds to a token what the rate allows
/// of a packet: as many units as packets, of as many as nanoseconds, with the
/// power of two on the side where it is whole.
pub proof fn law_units_of_credit(rate: Rate)
    ensures
        rate.exponent == 0 ==> rate.gain() == rate.packets && rate.token() == rate.nanos,
        rate.exponent < 0 ==> rate.gain() == rate.packets && rate.token() == rate.nanos
            * power2::pow2((0 - rate.exponent) as nat),
        rate.exponent > 0 ==> rate.token() == rate.nanos && rate.gain() == rate.packets
            * power2::pow2(rate.exponent as nat),
{
}

/// Law: asking for a token. The bucket gains what the rate gives for the time
/// since it was last asked, up to three tokens. It then admits a packet if and
/// only if it holds a token, and pays that token, and otherwise keeps what it
/// holds. A clock that has gone back gives nothing and is not gone back to.
pub proof fn law_asking_takes_one_token(v: LimiterView, now: int, held: int)
    requires
        !v.rate.unbounded(),
        v.credit <= 3 * v.rate.token(),
        now >= v.last_refill ==> {
            let earned = v.credit + (now - v.last_refill) * v.rate.gain();
            held == earned && earned <= 3 * v.rate.token() || held == 3 * v.rate.token()
                && earned > 3 * v.rate.token()
        },
        now < v.last_refill ==> held == v.credit,
    ensures
        v.admits(now) <==> held >= v.rate.token(),
        v.asked(now).credit == if held >= v.rate.token() {
            held - v.rate.token()
        } else {
            held
        },
        v.asked(now).last_refill == if now >= v.last_refill {
            now
        } else {
            v.last_refill
        },
        v.asked(now).rate == v.rate,
        v.asked(now).share == v.share,
{
    assert(0 * v.rate.gain() == 0) by (nonlinear_arith);
}

/// Law: a transmission that was measured is charged for its time on air, as
/// often as the share says, less the token that it has paid; one that the
/// token covers costs nothing and gives nothing back. The debt has a bound.
pub proof fn law_airtime_is_charged_once(v: LimiterView, airtime_us: int, cost: int)
    requires
        cost == 1000 * airtime_us * v.share * v.rate.gain(),
        v.credit > -0x1_0000_0000_0000_0000_0000_0000_0000,
    ensures
        cost <= v.rate.token() ==> v.charged(airtime_us) == v,
        cost > v.rate.token() ==> {
            let rest = v.credit + v.rate.token() - cost;
            &&& rest > -0x1_0000_0000_0000_0000_0000_0000_0000 ==> v.charged(airtime_us)
                == (LimiterView { credit: rest, ..v })
            &&& rest <= -0x1_0000_0000_0000_0000_0000_0000_0000 ==> v.charged(airtime_us) == (
            LimiterView { credit: -0x1_0000_0000_0000_0000_0000_0000_0000, ..v })
        },
{
    let g = v.rate.gain();
    assert(cost == v.share * (1000 * airtime_us) * g) by (nonlinear_arith)
        requires
            cost == 1000 * airtime_us * v.share * g,
    ;
}

/// Law: a limiter allows a transmission if and only if it holds a token once
/// it has gained what the rate gives for the time that has passed, and then
/// pays that token; what was measured is charged once.
pub proof fn law_limiter_keeps_its_bucket(
    l: &mut RateLimiter,
    now: u64,
    allowed: bool,
    held: int,
    m: &mut RateLimiter,
    airtime_us: u32,
)
    requires
        call_ensures(RateLimiter::try_acquire, (l, now), allowed),
        call_ensures(RateLimiter::charge_airtime, (m, airtime_us), ()),
        !old(l)@.rate.unbounded(),
        old(l)@.credit <= 3 * old(l)@.rate.token(),
        now >= old(l)@.last_refill,
        ({
            let earned = old(l)@.credit + (now - old(l)@.last_refill) * old(l)@.rate.gain();
            held == earned && earned <= 3 * old(l)@.rate.token() || held == 3
                * old(l)@.rate.token() && earned > 3 * old(l)@.rate.token()
        }),
    ensures
        allowed <==> held >= old(l)@.rate.token(),
        allowed ==> final(l)@.credit == held - old(l)@.rate.token(),
        !allowed ==> final(l)@.credit == held,
        final(l)@.last_refill == now,
        final(l)@.rate == old(l)@.rate,
        final(l)@.share == old(l)@.share,
        final(m)@ == old(m)@.charged(airtime_us as int),
{
    law_asking_takes_one_token(old(l)@, now as int, held);
}

/// Law: time on air takes twice its length from the bucket under the rate
/// derived from the radio config, and its length under one that was asked for.
pub proof fn law_share_of_the_air(
    sf: u8,
    bw: LoRaBandwidth,
    cr: u8,
    preamble: u16,
    now: u64,
    asked: Option<u64>,
    limiter: RateLimiter,
)
    requires
        call_ensures(RateLimiter::from_radio_config, (sf, bw, cr, preamble, asked, now), limiter),
    ensures
        limiter@.share == 2 <==> asked is None,
        limiter@.share == 1 <==> asked is Some,
        limiter@.credit == 3 * limiter@.rate.token(),
        limiter@.last_refill == now,
{
}

/// Law: a rate without bound admits every packet.
pub proof fn law_unbounded_rate_admits_all(v: LimiterView, now: int)
    requires
        v.wf(),
        v.rate.unbounded(),
    ensures
        v.admits(now),
{
    law_rate_is_positive(v.rate);
}

/// Law: once the clock has advanced by the time of one packet, and of what
/// the bucket owes, a packet is admitted.
pub proof fn law_refills_after_waiting(v: LimiterView, now: int)
    requires
        v.wf(),
        now >= v.last_refill,
        v.credit >= 0 ==> (now - v.last_refill) * v.rate.gain() >= v.rate.token(),
        v.credit < 0 ==> (now - v.last_refill) * v.rate.gain() >= v.rate.token() - v.credit,
    ensures
        v.admits(now),
{
}

/// Law: asking for a token keeps the bucket within its bounds, and leaves it
/// owing no more than before.
pub proof fn law_bucket_stays_in_bounds(v: LimiterView, now: int)
    requires
        v.wf(),
        now >= 0,
    ensures
        v.asked(now).wf(),
        v.asked(now).rate == v.rate,
        v.asked(now).share == v.share,
        v.asked(now).credit >= 0 || v.asked(now).credit >= v.credit,
{
    law_rate_is_positive(v.rate);
    if now > v.last_refill {
        assert((now - v.last_refill) * v.rate.gain() >= 0) by (nonlinear_arith)
            requires
                now > v.last_refill,
                v.rate.gain() > 0,
        ;
    }
}

/// The bucket, and the number of packets admitted, after one request at each of `times`.
pub open spec fn requests(v: LimiterView, times: Seq<int>) -> (LimiterView, int)
    decreases times.len(),
{
    if times.len() == 0 {
        (v, 0)
    } else {
        let (w, n) = requests(v, times.drop_last());
        (
            w.asked(times.last()),
            n + if w.admits(times.last()) {
                1int
            } else {
                0
            },
        )
    }
}

/// Law: over any run of requests at times that do not go back, the packets
/// admitted exceed the burst by no more than the rate allows from any moment
/// before the first request on, however long the bucket was idle until then.
pub proof fn law_rate_is_enforced(v: LimiterView, times: Seq<int>, from: int)
    requires
        v.wf(),
        !v.rate.unbounded(),
        times.len() > 0,
        v.last_refill <= from <= times[0],
        forall|i: int, j: int| 0 <= i <= j < times.len() ==> times[i] <= times[j],
    ensures
        requests(v, times).1 * v.rate.token() <= DEFAULT_BURST * v.rate.token() + (times.last()
            - from) * v.rate.gain(),
{
    law_rate_is_positive(v.rate);
    let w = v.refilled(from);
    assert((from - v.last_refill) * v.rate.gain() >= 0) by (nonlinear_arith)
        requires
            from >= v.last_refill,
            v.rate.gain() > 0,
    ;
    assert(w.wf());
    lemma_idle_time(v, times, from);
    lemma_spent_credit(w, times);
    let n = requests(w, times).1;
    let elapsed = times.last() - from;
    assert(times[0] <= times[times.len() - 1]);
    assert(elapsed * v.rate.gain() >= 0) by (nonlinear_arith)
        requires
            elapsed >= 0,
            v.rate.gain() > 0,
    ;
    if n == 0 {
        assert(n * v.rate.token() == 0) by (nonlinear_arith)
            requires
                n == 0,
        ;
    }
}

proof fn lemma_idle_time(v: LimiterView, times: Seq<int>, from: int)
    requires
        v.wf(),
        times.len() > 0,
        v.last_refill <= from <= times[0],
    ensures
        requests(v.refilled(from), times) == requests(v, times),
    decreases times.len(),
{
    let before = times.drop_last();
    if before.len() > 0 {
        lemma_idle_time(v, before, from);
    } else {
        let w = v.refilled(from);
        let t = times[0];
        let g = v.rate.gain();
        let s = v.last_refill;
        law_rate_is_positive(v.rate);
        assert((t - from) * g + (from - s) * g == (t - s) * g) by (nonlinear_arith);
        assert((t - from) * g >= 0 && (from - s) * g >= 0) by (nonlinear_arith)
            requires
                s <= from <= t,
                g > 0,
        ;
        assert(t == from ==> (t - from) * g == 0) by (nonlinear_arith);
        assert(from == s ==> (from - s) * g == 0) by (nonlinear_arith);
        assert(w.refilled(t) == v.refilled(t));
        assert(requests(w, before) == (w, 0int));
        assert(requests(v, before) == (v, 0int));
    }
}

/// Law: under the rate derived from a radio config, reference packets are on
/// the air for at most half of the time, beyond the burst.
pub proof fn law_duty_cycle_is_half(
    v: LimiterView,
    times: Seq<int>,
    from: int,
    sf: int,
    bw: LoRaBandwidth,
    cr: int,
    preamble: int,
)
    requires
        v.wf(),
        v.rate == radio_rate(sf, bw, cr, preamble, None),
        5 <= sf <= 12,
        0 <= cr <= 255,
        0 <= preamble <= 65535,
        times.len() > 0,
        v.last_refill <= from <= times[0],
        forall|i: int, j: int| 0 <= i <= j < times.len() ==> times[i] <= times[j],
    ensures
        2 * ((requests(v, times).1 - DEFAULT_BURST) * air_nanos(
            REFERENCE_PAYLOAD_BYTES as int,
            sf,
            bw,
            cr,
            preamble,
        )) <= times.last() - from,
{
    let air = air_nanos(REFERENCE_PAYLOAD_BYTES as int, sf, bw, cr, preamble);
    lemma_reference_air_time(sf, bw, cr, preamble);
    law_rate_is_enforced(v, times, from);
    let n = requests(v, times).1;
    let u = v.rate.token();
    let elapsed = times.last() - from;
    assert(v.rate.gain() == 1);
    assert(2 * ((n - 3) * air) == n * u - 3 * u) by (nonlinear_arith)
        requires
            u == 2 * air,
    ;
    assert(elapsed * v.rate.gain() == elapsed) by (nonlinear_arith)
        requires
            v.rate.gain() == 1,
    ;
}

/// Law: a rate asked for as a number above zero is used directly, whatever
/// the radio parameters: the rate is that number of packets per second, to
/// the last digit.
pub proof fn law_asked_rate_is_used_directly(
    sf: int,
    bw: LoRaBandwidth,
    cr: int,
    preamble: int,
    bits: u64,
)
    requires
        is_positive(bits),
    ensures
        ({
            let rate = radio_rate(sf, bw, cr, preamble, Some(bits));
            &&& rate.wf()
            &&& rate.packets == significand(bits)
            &&& rate.exponent == exponent(bits)
            &&& rate.nanos == SECOND_NANOS
            &&& exponent(bits) < 0 ==> rate.gain() == significand(bits) && rate.token()
                == SECOND_NANOS * power2::pow2((-exponent(bits)) as nat)
            &&& exponent(bits) >= 0 ==> rate.gain() == significand(bits) * power2::pow2(
                exponent(bits) as nat,
            ) && rate.token() == SECOND_NANOS
        }),
{
    power2::lemma2_to64();
    assert(significand(bits) * 1 == significand(bits));
}

/// Law: without a rate asked for, one reference packet is allowed in exactly
/// twice its time on air: the rate times the time on air is one half.
pub proof fn law_derived_rate_is_half_the_air(
    sf: int,
    bw: LoRaBandwidth,
    cr: int,
    preamble: int,
)
    requires
        5 <= sf <= 12,
        0 <= cr <= 255,
        0 <= preamble <= 65535,
    ensures
        ({
            let rate = radio_rate(sf, bw, cr, preamble, None);
            let air = air_nanos(REFERENCE_PAYLOAD_BYTES as int, sf, bw, cr, preamble);
            &&& rate.wf()
            &&& rate.exponent == 0
            &&& 2 * (rate.packets * air) == rate.nanos
            &&& 2 * (rate.gain() * air) == rate.token()
        }),
{
    lemma_reference_air_time(sf, bw, cr, preamble);
}

/// Law: without a rate asked for, a fresh limiter allows one packet in twice
/// the time on air of 50 bytes under the same settings, and a burst of three.
pub proof fn law_derived_limiter(
    sf: u8,
    bw: LoRaBandwidth,
    cr: u8,
    preamble: u16,
    now: u64,
    limiter: RateLimiter,
    rate: Rate,
    air: u128,
)
    requires
        5 <= sf <= 12,
        call_ensures(RateLimiter::from_radio_config, (sf, bw, cr, preamble, None, now), limiter),
        call_ensures(RateLimiter::rate_pps, (&limiter,), rate),
        call_ensures(lora_air_time, (50, sf, bw, cr, preamble), air),
    ensures
        rate.packets == 1,
        rate.exponent == 0,
        rate.nanos == 2 * air,
        limiter@.credit == 6 * air,
        limiter@.last_refill == now,
{
    lemma_reference_air_time(sf as int, bw, cr as int, preamble as int);
}

/// Law: what the bits of a rate asked for mean. The bits of one are one packet
/// per second; the next number within a power of two has one more unit of the
/// same size, and the bits of the next power of two double the rate. What is
/// no positive number is a hundredth of a packet per second.
pub proof fn law_bits_of_an_asked_rate(
    sf: u8,
    bw: LoRaBandwidth,
    cr: u8,
    preamble: u16,
    now: u64,
    bits: u64,
    limiter: RateLimiter,
    rate: Rate,
    other: RateLimiter,
    other_rate: Rate,
    other_bits: u64,
)
    requires
        call_ensures(
            RateLimiter::from_radio_config,
            (sf, bw, cr, preamble, Some(bits), now),
            limiter,
        ),
        call_ensures(RateLimiter::rate_pps, (&limiter,), rate),
        call_ensures(
            RateLimiter::from_radio_config,
            (sf, bw, cr, preamble, Some(other_bits), now),
            other,
        ),
        call_ensures(RateLimiter::rate_pps, (&other,), other_rate),
    ensures
        bits == 0x3FF0_0000_0000_0000 ==> rate.packets == 0x10_0000_0000_0000 && rate.exponent
            == -52 && rate.nanos == 1_000_000_000,
        0x10_0000_0000_0000 <= bits < 0x7FE0_0000_0000_0000 && other_bits == bits
            + 0x10_0000_0000_0000 ==> other_rate == (Rate {
            exponent: (rate.exponent + 1) as i16,
            ..rate
        }),
        0 < bits < 0x7FF0_0000_0000_0000 && other_bits == bits + 1 && other_bits
            % 0x10_0000_0000_0000 != 0 ==> other_rate == (Rate {
            packets: (rate.packets + 1) as u64,
            ..rate
        }),
        bits == 0 || bits > 0x7FF0_0000_0000_0000 ==> rate.packets == 1 && rate.exponent == 0
            && rate.nanos == 100_000_000_000,
        bits == 0x7FF0_0000_0000_0000 ==> rate.unbounded(),
{
}

/// Law: the longer a transmission was measured to be on the air, the less
/// credit is left. Of two times on air, the longer one leaves strictly less
/// as soon as it is more than the token covered.
pub proof fn law_longer_airtime_leaves_less(v: LimiterView, short: int, long: int)
    requires
        v.wf(),
        0 <= short <= long,
    ensures
        v.charged(long).credit <= v.charged(short).credit <= v.credit,
        short < long && v.airtime_cost(long) > v.rate.token() && v.charged(short).credit > -MAX_DEBT
            ==> v.charged(long).credit < v.charged(short).credit,
        v.charged(long).wf(),
        v.charged(long).rate == v.rate,
        v.charged(long).share == v.share,
        v.charged(long).last_refill == v.last_refill,
{
    law_rate_is_positive(v.rate);
    let a = v.share * (1000 * short);
    let b = v.share * (1000 * long);
    let p = v.rate.gain();
    assert(a <= b && (short < long ==> a < b)) by (nonlinear_arith)
        requires
            a == v.share * (1000 * short),
            b == v.share * (1000 * long),
            short <= long,
            v.share >= 1,
    ;
    assert(a * p <= b * p && (a < b ==> a * p < b * p)) by (nonlinear_arith)
        requires
            a <= b,
            p > 0,
    ;
}

/// Of two buckets of one rate at one time, whether the first, with the
/// `lead` packets that it has admitted more, has spent at most what the second has.
pub open spec fn leads(first: LimiterView, second: LimiterView, lead: int) -> bool {
    &&& first.wf()
    &&& second.wf()
    &&& first.rate == second.rate
    &&& first.share == second.share
    &&& first.last_refill == second.last_refill
    &&& lead >= 0
    &&& lead * first.rate.token() + first.credit >= second.credit
}

/// One if a bucket admits a packet at time `now`, else zero.
pub open spec fn admitted(v: LimiterView, now: int) -> int {
    if v.admits(now) {
        1
    } else {
        0
    }
}

/// Law: a bucket that leads another still leads it after both were asked for
/// a packet.
pub proof fn law_lead_survives_a_request(
    first: LimiterView,
    second: LimiterView,
    lead: int,
    now: int,
)
    requires
        leads(first, second, lead),
        now >= 0,
    ensures
        leads(
            first.asked(now),
            second.asked(now),
            lead + admitted(first, now) - admitted(second, now),
        ),
{
    law_rate_is_positive(first.rate);
    law_bucket_stays_in_bounds(first, now);
    law_bucket_stays_in_bounds(second, now);
    let u = first.rate.token();
    assert((lead + 1) * u == lead * u + u && (lead - 1) * u == lead * u - u) by (nonlinear_arith);
    assert(lead == 0 ==> lead * u == 0) by (nonlinear_arith);
    assert(lead * u >= 0) by (nonlinear_arith)
        requires
            lead >= 0,
            u > 0,
    ;
}

/// Law: a bucket that leads another still leads it after both were charged
/// for one transmission.
pub proof fn law_lead_survives_a_charge(
    first: LimiterView,
    second: LimiterView,
    lead: int,
    airtime_us: int,
)
    requires
        leads(first, second, lead),
        airtime_us >= 0,
    ensures
        leads(first.charged(airtime_us), second.charged(airtime_us), lead),
{
    law_rate_is_positive(first.rate);
    law_longer_airtime_leaves_less(first, 0, airtime_us);
    law_longer_airtime_leaves_less(second, 0, airtime_us);
    assert(lead * first.rate.token() >= 0) by (nonlinear_arith)
        requires
            lead >= 0,
            first.rate.token() > 0,
    ;
}

/// Law: after the longer of two measured times on air, no run of requests is
/// admitted more packets than after the shorter.
pub proof fn law_longer_airtime_admits_no_more(
    v: LimiterView,
    short: int,
    long: int,
    times: Seq<int>,
)
    requires
        v.wf(),
        0 <= short <= long,
        forall|i: int| 0 <= i < times.len() ==> times[i] >= 0,
    ensures
        requests(v.charged(long), times).1 <= requests(v.charged(short), times).1,
{
    law_longer_airtime_leaves_less(v, short, long);
    law_longer_airtime_leaves_less(v, short, short);
    lemma_lead_over_requests(v.charged(short), v.charged(long), times);
}

proof fn lemma_lead_over_requests(first: LimiterView, second: LimiterView, times: Seq<int>)
    requires
        leads(first, second, 0),
        forall|i: int| 0 <= i < times.len() ==> times[i] >= 0,
    ensures
        leads(
            requests(first, times).0,
            requests(second, times).0,
            requests(first, times).1 - requests(second, times).1,
        ),
    decreases times.len(),
{
    if times.len() > 0 {
        let before = times.drop_last();
        lemma_lead_over_requests(first, second, before);
        let (a, n) = requests(first, before);
        let (b, m) = requests(second, before);
        law_lead_survives_a_request(a, b, n - m, times.last());
    }
}

/// Law: a transmission measured to be so long that the bucket gains no token
/// before the end of a run of requests has every one of them refused; the run
/// is then admitted strictly fewer packets than after any time on air that
/// leaves it one.
pub proof fn law_long_airtime_admits_fewer(
    v: LimiterView,
    short: int,
    long: int,
    times: Seq<int>,
)
    requires
        v.wf(),
        !v.rate.unbounded(),
        0 <= short <= long,
        times.len() > 0,
        times[0] >= v.last_refill,
        forall|i: int, j: int| 0 <= i <= j < times.len() ==> times[i] <= times[j],
        v.charged(long).credit + (times.last() - v.last_refill) * v.rate.gain() < v.rate.token(),
    ensures
        requests(v.charged(long), times).1 == 0,
        requests(v.charged(short), times).1 > 0 ==> requests(v.charged(long), times).1 < requests(
            v.charged(short),
            times,
        ).1,
{
    law_rate_is_positive(v.rate);
    law_longer_airtime_leaves_less(v, short, long);
    let w = v.charged(long);
    lemma_spent_credit(w, times);
    let (end, n) = requests(w, times);
    let u = v.rate.token();
    assert(n * u >= u || n <= 0) by (nonlinear_arith)
        requires
            u > 0,
    ;
}

/// Something that happens to a limiter: a packet asks for a token at some
/// time, or a transmission is measured, in microseconds.
pub enum LimiterStep {
    Asked(int),
    Measured(int),
}

/// The bucket after a run of steps.
pub open spec fn after_steps(v: LimiterView, steps: Seq<LimiterStep>) -> LimiterView
    decreases steps.len(),
{
    if steps.len() == 0 {
        v
    } else {
        let w = after_steps(v, steps.drop_last());
        match steps.last() {
            LimiterStep::Asked(now) => w.asked(now),
            LimiterStep::Measured(airtime_us) => w.charged(airtime_us),
        }
    }
}

/// The number of packets admitted in a run of steps.
pub open spec fn admitted_in(v: LimiterView, steps: Seq<LimiterStep>) -> int
    decreases steps.len(),
{
    if steps.len() == 0 {
        0
    } else {
        admitted_in(v, steps.drop_last()) + match steps.last() {
            LimiterStep::Asked(now) => admitted(after_steps(v, steps.drop_last()), now),
            LimiterStep::Measured(_) => 0,
        }
    }
}

/// The number of transmissions measured in a run of steps.
pub open spec fn measured_in(steps: Seq<LimiterStep>) -> int
    decreases steps.len(),
{
    if steps.len() == 0 {
        0
    } else {
        measured_in(steps.drop_last()) + if steps.last() is Measured {
            1int
        } else {
            0
        }
    }
}

/// The time on air measured in a run of steps, in microseconds.
pub open spec fn airtime_in(steps: Seq<LimiterStep>) -> int
    decreases steps.len(),
{
    if steps.len() == 0 {
        0
    } else {
        airtime_in(steps.drop_last()) + match steps.last() {
            LimiterStep::Asked(_) => 0,
            LimiterStep::Measured(airtime_us) => airtime_us,
        }
    }
}

/// Whether the clock does not go back in a run of steps, and no time on air
/// is negative.
pub open spec fn in_order(v: LimiterView, steps: Seq<LimiterStep>) -> bool
    decreases steps.len(),
{
    steps.len() == 0 || {
        &&& in_order(v, steps.drop_last())
        &&& match steps.last() {
            LimiterStep::Asked(now) => now >= after_steps(v, steps.drop_last()).last_refill,
            LimiterStep::Measured(airtime_us) => airtime_us >= 0,
        }
    }
}

/// Law: over any run in which at most the admitted packets are transmitted,
/// the bucket's share of the time measured on the air is no more, beyond the
/// burst, than the time that has passed, whenever the bucket owes nothing.
/// Under the rate derived from a radio config, the radio is then on the air
/// for at most half of the time.
pub proof fn law_measured_airtime_keeps_its_share(v: LimiterView, steps: Seq<LimiterStep>)
    requires
        v.wf(),
        !v.rate.unbounded(),
        v.credit >= 0,
        in_order(v, steps),
        measured_in(steps) <= admitted_in(v, steps),
        v.airtime_cost(airtime_in(steps)) < MAX_DEBT,
        after_steps(v, steps).credit >= 0,
    ensures
        v.share * (1000 * airtime_in(steps)) * v.rate.gain() <= DEFAULT_BURST * v.rate.token() + (
        after_steps(v, steps).last_refill - v.last_refill) * v.rate.gain(),
{
    law_rate_is_positive(v.rate);
    lemma_steps_paid(v, steps);
    let k = measured_in(steps);
    let n = admitted_in(v, steps);
    let u = v.rate.token();
    assert(k * u <= n * u) by (nonlinear_arith)
        requires
            k <= n,
            u > 0,
    ;
}

/// What the measured transmissions of a run cost beyond their tokens.
spec fn excess_in(v: LimiterView, steps: Seq<LimiterStep>) -> int
    decreases steps.len(),
{
    if steps.len() == 0 {
        0
    } else {
        excess_in(v, steps.drop_last()) + match steps.last() {
            LimiterStep::Asked(_) => 0,
            LimiterStep::Measured(airtime_us) => if v.airtime_cost(airtime_us) > v.rate.token() {
                v.airtime_cost(airtime_us) - v.rate.token()
            } else {
                0
            },
        }
    }
}

proof fn lemma_steps_paid(v: LimiterView, steps: Seq<LimiterStep>)
    requires
        v.wf(),
        !v.rate.unbounded(),
        v.credit >= 0,
        in_order(v, steps),
        v.airtime_cost(airtime_in(steps)) < MAX_DEBT,
    ensures
        ({
            let w = after_steps(v, steps);
            let excess = excess_in(v, steps);
            &&& w.wf()
            &&& w.rate == v.rate
            &&& w.share == v.share
            &&& w.last_refill >= v.last_refill
            &&& measured_in(steps) >= 0
            &&& airtime_in(steps) >= 0
            &&& 0 <= excess <= v.airtime_cost(airtime_in(steps)) <= measured_in(steps)
                * v.rate.token() + excess
            &&& w.credit >= -excess
            &&& admitted_in(v, steps) * v.rate.token() + excess + w.credit <= v.credit + (
            w.last_refill - v.last_refill) * v.rate.gain()
        }),
    decreases steps.len(),
{
    law_rate_is_positive(v.rate);
    let u = v.rate.token();
    let p = v.rate.gain();
    let s = v.last_refill;
    if steps.len() == 0 {
        assert(v.airtime_cost(0) == 0) by (nonlinear_arith)
            requires
                v.airtime_cost(0) == v.share * (1000 * 0) * p,
        ;
        assert(0 * u == 0 && (s - s) * p == 0) by (nonlinear_arith);
    } else {
        let before = steps.drop_last();
        let total = airtime_in(before);
        let w = after_steps(v, before);
        let n = admitted_in(v, before);
        let k = measured_in(before);
        match steps.last() {
            LimiterStep::Asked(now) => {
                lemma_steps_paid(v, before);
                law_bucket_stays_in_bounds(w, now);
                let e = w.last_refill;
                assert((now - e) * p + (e - s) * p == (now - s) * p) by (nonlinear_arith);
                assert((n + 1) * u == n * u + u) by (nonlinear_arith);
                assert((now - e) * p >= 0) by (nonlinear_arith)
                    requires
                        now >= e,
                        p > 0,
                ;
            },
            LimiterStep::Measured(a) => {
                let x = v.share * (1000 * total);
                let y = v.share * (1000 * a);
                assert(v.share * (1000 * (total + a)) == x + y) by (nonlinear_arith)
                    requires
                        x == v.share * (1000 * total),
                        y == v.share * (1000 * a),
                ;
                assert((x + y) * p == x * p + y * p) by (nonlinear_arith);
                assert(y >= 0) by (nonlinear_arith)
                    requires
                        y == v.share * (1000 * a),
                        a >= 0,
                        v.share >= 1,
                ;
                assert(y * p >= 0) by (nonlinear_arith)
                    requires
                        y >= 0,
                        p > 0,
                ;
                assert((k + 1) * u == k * u + u) by (nonlinear_arith);
                lemma_steps_paid(v, before);
                law_longer_airtime_leaves_less(w, 0, a);
            },
        }
    }
}

proof fn lemma_reference_air_time(sf: int, bw: LoRaBandwidth, cr: int, preamble: int)
    requires
        5 <= sf <= 12,
        0 <= cr <= 255,
        0 <= preamble <= 65535,
    ensures
        0 < air_nanos(REFERENCE_PAYLOAD_BYTES as int, sf, bw, cr, preamble)
            <= 0x1_0000_0000_0000_0000 * 1_000_000_000,
{
    law_ordinary_air_time_fits(REFERENCE_PAYLOAD_BYTES as int, sf, bw, cr, preamble);
    let n = air_units(REFERENCE_PAYLOAD_BYTES as int, sf, bw, cr, preamble);
    let hz = bw.hz();
    let q = quarter_symbols(REFERENCE_PAYLOAD_BYTES as int, sf, bw, cr, preamble);
    let blocks = payload_blocks(REFERENCE_PAYLOAD_BYTES as int, sf, bw);
    let p = power2::pow2(sf as nat) as int;
    assert(blocks >= 0) by (nonlinear_arith)
        requires
            blocks == (8 * 50 - 4 * sf + 44 + block_bits(sf, bw) - 1) / block_bits(sf, bw),
            5 <= sf <= 12,
            block_bits(sf, bw) > 0,
    ;
    assert(blocks * cr >= 0) by (nonlinear_arith)
        requires
            blocks >= 0,
            cr >= 0,
    ;
    power2::lemma2_to64();
    power2::lemma_pow2_strictly_increases(0, sf as nat);
    assert(n >= 106) by (nonlinear_arith)
        requires
            n == q * p,
            q >= 53,
            p >= 2,
    ;
    let top = 2 * (n * 1_000_000_000) + 4 * hz;
    let d = 2 * (4 * hz);
    assert(0 < top / d <= 0x1_0000_0000_0000_0000 * 1_000_000_000) by (nonlinear_arith)
        requires
            top == 2 * (n * 1_000_000_000) + 4 * hz,
            d == 2 * (4 * hz),
            7_800 <= hz <= 1_600_000,
            106 <= n < 0x1_0000_0000_0000_0000 * (4 * hz),
    ;
}

proof fn lemma_spent_credit(v: LimiterView, times: Seq<int>)
    requires
        v.wf(),
        !v.rate.unbounded(),
        times.len() > 0 ==> times[0] >= v.last_refill,
        forall|i: int, j: int| 0 <= i <= j < times.len() ==> times[i] <= times[j],
    ensures
        ({
            let (w, n) = requests(v, times);
            let end = if times.len() == 0 {
                v.last_refill
            } else {
                times.last()
            };
            &&& w.wf()
            &&& w.rate == v.rate
            &&& w.last_refill == end
            &&& n == 0 || w.credit >= 0
            &&& n >= 0
            &&& n * v.rate.token() + w.credit <= v.credit + (end - v.last_refill) * v.rate.gain()
        }),
    decreases times.len(),
{
    law_rate_is_positive(v.rate);
    if times.len() > 0 {
        let before = times.drop_last();
        lemma_spent_credit(v, before);
        let (w, n) = requests(v, before);
        let t = times.last();
        if before.len() > 0 {
            assert(before.last() <= t);
        }
        law_bucket_stays_in_bounds(w, t);
        let p = v.rate.gain();
        let u = v.rate.token();
        let e = w.last_refill;
        let s = v.last_refill;
        assert((t - e) * p + (e - s) * p == (t - s) * p) by (nonlinear_arith);
        assert((n + 1) * u == n * u + u) by (nonlinear_arith);
        assert((t - e) * p >= 0) by (nonlinear_arith)
            requires
                t >= e,
                p > 0,
        ;
    }
}

} // verus!
