//! `LoRa` radio parameters as plain values.

use vstd::arithmetic::power2;
use vstd::prelude::*;
use vstd::string::*;

use crate::number;
use crate::text;

verus! {

/// Signal bandwidth.
#[derive(Debug, Clone, Copy, PartialEq, Eq, Structural)]
pub enum LoRaBandwidth {
    Khz7,
    Khz10,
    Khz15,
    Khz20,
    Khz31,
    Khz41,
    Khz62,
    Khz125,
    Khz250,
    Khz500,
    /// 2.4 GHz chips only, as are the three below.
    Khz200,
    Khz400,
    Khz800,
    Khz1600,
}

/// Forward error correction rate.
#[derive(Debug, Clone, Copy, PartialEq, Eq, Structural)]
pub enum LoRaCodingRate {
    Cr4_5,
    Cr4_6,
    Cr4_7,
    Cr4_8,
}

/// Whether packets carry their own length.
#[derive(Debug, Clone, Copy, PartialEq, Eq, Structural)]
pub enum LoRaHeaderMode {
    Explicit,
    Implicit,
}

/// A complete radio configuration.
#[derive(Debug, Clone, Copy, PartialEq, Eq, Structural)]
pub struct LoRaConfig {
    pub freq_hz: u32,
    pub bw: LoRaBandwidth,
    pub sf: u8,
    pub cr: LoRaCodingRate,
    pub sync_word: u16,
    pub tx_power_dbm: i8,
    pub preamble_len: u16,
    pub header_mode: LoRaHeaderMode,
    pub payload_crc: bool,
    pub iq_invert: bool,
}

impl LoRaCodingRate {
    /// The `n` of a coding rate `4/n`.
    pub open spec fn spec_denominator(self) -> u8 {
        match self {
            LoRaCodingRate::Cr4_5 => 5,
            LoRaCodingRate::Cr4_6 => 6,
            LoRaCodingRate::Cr4_7 => 7,
            LoRaCodingRate::Cr4_8 => 8,
        }
    }

    /// The `n` of a coding rate `4/n`.
    pub fn denominator(self) -> (n: u8)
        ensures
            n == self.spec_denominator(),
    {
        match self {
            LoRaCodingRate::Cr4_5 => 5,
            LoRaCodingRate::Cr4_6 => 6,
            LoRaCodingRate::Cr4_7 => 7,
            LoRaCodingRate::Cr4_8 => 8,
        }
    }
}

/// Law: a coding rate is named by its denominator.
pub proof fn law_coding_rate_is_its_denominator(cr: LoRaCodingRate, n: u8)
    requires
        call_ensures(LoRaCodingRate::denominator, (cr,), n),
    ensures
        n == 5 <==> cr == LoRaCodingRate::Cr4_5,
        n == 6 <==> cr == LoRaCodingRate::Cr4_6,
        n == 7 <==> cr == LoRaCodingRate::Cr4_7,
        n == 8 <==> cr == LoRaCodingRate::Cr4_8,
        5 <= n <= 8,
{
}

// ── Frequencies in MHz ──────────────────────────────────────────────

/// `x` doubled until it reaches a million times 2^52: the scale on which the
/// 53-bit significand of `x / 1_000_000` counts whole millions.
pub open spec fn scaled_up(x: nat) -> nat
    decreases
        (if x < 4_503_599_627_370_496_000_000 {
            4_503_599_627_370_496_000_000 - x
        } else {
            0
        }),
{
    if x == 0 || x >= 4_503_599_627_370_496_000_000 {
        x
    } else {
        scaled_up(2 * x)
    }
}

/// A frequency in Hz as a number of kHz: the double-precision quotient
/// `hz / 1_000_000` rounded to three decimals. Away from a half this is the
/// nearest kHz. At a half it is decided by which side of the half the
/// quotient was rounded to; a quotient that is exact goes to the even kHz.
pub open spec fn khz_rounded(hz: nat) -> nat {
    let down = hz / 1000;
    let rest = hz % 1000;
    if rest < 500 {
        down
    } else if rest > 500 {
        down + 1
    } else {
        let lost = scaled_up(hz) % 1_000_000;
        if lost == 0 {
            down + down % 2
        } else if lost < 500_000 {
            down
        } else {
            down + 1
        }
    }
}

/// Three digits with leading zeros.
pub open spec fn three_digits(n: int) -> Seq<char> {
    seq![
        text::digit_char(n / 100),
        text::digit_char((n / 10) % 10),
        text::digit_char(n % 10),
    ]
}

/// A frequency in MHz with three decimals.
pub open spec fn mhz(hz: nat) -> Seq<char> {
    text::decimal(khz_rounded(hz) / 1000) + "."@ + three_digits((khz_rounded(hz) % 1000) as int)
}

/// Law: a frequency is shown in whole kHz, as MHz with three decimals: the
/// text without its dot, which stands before the last three digits, is the
/// number of the kHz nearest to the frequency.
pub proof fn law_shown_frequency_is_the_nearest_khz(hz: u32, out: String, khz: int)
    requires
        call_ensures(mhz_text, (hz,), out),
        -500 < 1000 * khz - hz < 500,
    ensures
        out@.len() >= 5,
        out@[out@.len() - 4] == '.',
        number::int_value(out@.remove(out@.len() - 4), 10, 0, 10_000_000) == Ok::<
            int,
            number::IntError,
        >(khz),
{
    lemma_shown_khz(hz as nat, out@);
}

/// Law: a frequency is appended as it is shown alone.
pub proof fn law_appended_frequency(s: &mut String, hz: u32, alone: String)
    requires
        call_ensures(push_mhz, (s, hz), ()),
        call_ensures(mhz_text, (hz,), alone),
    ensures
        final(s)@ == old(s)@ + alone@,
{
}

/// Law: also at a half, the kHz shown is one of the two nearest.
pub proof fn law_shown_frequency_is_near(hz: u32, out: String)
    requires
        call_ensures(mhz_text, (hz,), out),
    ensures
        ({
            let khz = number::int_value(out@.remove(out@.len() - 4), 10, 0, 10_000_000);
            khz matches Ok(n) && -500 <= 1000 * n - hz <= 500
        }),
{
    lemma_shown_khz(hz as nat, out@);
}

/// Law: at a half, the kHz shown is the one on the side to which the quotient
/// of the frequency and a million is rounded as a double-precision number, and
/// the even one where that quotient is exact. The quotient times the power of
/// two that brings it to 53 bits is rounded to the nearest whole number `m`.
pub proof fn law_halves_follow_the_double(hz: u32, out: String, k: nat, m: int, khz: int)
    requires
        call_ensures(mhz_text, (hz,), out),
        hz % 1000 == 500,
        4_503_599_627_370_496_000_000 <= hz * power2::pow2(k) < 9_007_199_254_740_992_000_000,
        -500_000 < 1_000_000 * m - hz * power2::pow2(k) < 500_000,
        number::int_value(out@.remove(out@.len() - 4), 10, 0, 10_000_000) == Ok::<
            int,
            number::IntError,
        >(khz),
    ensures
        1_000_000 * m > hz * power2::pow2(k) ==> 1000 * khz == hz + 500,
        1_000_000 * m < hz * power2::pow2(k) ==> 1000 * khz == hz - 500,
        1_000_000 * m == hz * power2::pow2(k) ==> khz % 2 == 0 && (1000 * khz == hz + 500 || 1000
            * khz == hz - 500),
{
    lemma_shown_khz(hz as nat, out@);
    lemma_scaled_up(hz as nat, k);
}

proof fn lemma_scaled_up(x: nat, k: nat)
    requires
        x > 0,
        4_503_599_627_370_496_000_000 <= x * power2::pow2(k) < 9_007_199_254_740_992_000_000,
    ensures
        scaled_up(x) == x * power2::pow2(k),
    decreases k,
{
    power2::lemma2_to64();
    if k == 0 {
        assert(x * 1 == x);
    } else {
        let p = power2::pow2((k - 1) as nat);
        power2::lemma_pow2_unfold(k);
        power2::lemma_pow2_pos((k - 1) as nat);
        assert(x * (2 * p) == (2 * x) * p && 2 * x <= (2 * x) * p) by (nonlinear_arith)
            requires
                x > 0,
                p > 0,
        ;
        lemma_scaled_up(2 * x, (k - 1) as nat);
    }
}

proof fn lemma_shown_khz(hz: nat, t: Seq<char>)
    requires
        t == mhz(hz),
        hz <= u32::MAX,
    ensures
        t.len() >= 5,
        t[t.len() - 4] == '.',
        number::int_value(t.remove(t.len() - 4), 10, 0, 10_000_000) == Ok::<int, number::IntError>(
            khz_rounded(hz) as int,
        ),
{
    lemma_three_decimals(khz_rounded(hz), t);
}

proof fn lemma_three_decimals(k: nat, t: Seq<char>)
    requires
        t == text::decimal(k / 1000) + "."@ + three_digits((k % 1000) as int),
        k <= 10_000_000,
    ensures
        t.len() >= 5,
        t[t.len() - 4] == '.',
        number::int_value(t.remove(t.len() - 4), 10, 0, 10_000_000) == Ok::<int, number::IntError>(
            k as int,
        ),
{
    reveal_strlit(".");
    let whole = text::decimal(k / 1000);
    let x = (k % 1000 / 100) as int;
    let y = ((k % 1000 / 10) % 10) as int;
    let z = (k % 10) as int;
    assert(k % 1000 % 10 == z);
    assert(k == 1000 * (k / 1000) + 100 * x + 10 * y + z);
    let a = text::digit_char(x);
    let b = text::digit_char(y);
    let c = text::digit_char(z);
    let digits = t.remove(t.len() - 4);
    number::lemma_scan_decimal(k / 1000, false, 0, 10_000_000);
    assert(digits =~= whole.push(a).push(b).push(c));
    assert(number::digit_value(a, 10) == Some(x));
    assert(number::digit_value(b, 10) == Some(y));
    assert(number::digit_value(c, 10) == Some(z));
    number::lemma_scan_push(whole, a, 10, false, 0, 10_000_000, 0);
    number::lemma_scan_push(whole.push(a), b, 10, false, 0, 10_000_000, 0);
    number::lemma_scan_push(whole.push(a).push(b), c, 10, false, 0, 10_000_000, 0);
    let w = (k / 1000) as int;
    lemma_scan_digit(a, x, w);
    lemma_scan_digit(b, y, 10 * w + x);
    lemma_scan_digit(c, z, 100 * w + 10 * x + y);
    assert(digits[0] == whole[0]);
}

proof fn lemma_scan_digit(c: char, d: int, acc: int)
    requires
        number::digit_value(c, 10) == Some(d),
        0 <= acc,
        0 <= d < 10,
        10 * acc + d <= 10_000_000,
    ensures
        number::scan(seq![c], 10, false, 0, 10_000_000, acc) == Ok::<int, number::IntError>(
            10 * acc + d,
        ),
{
    reveal_with_fuel(number::scan, 2);
    assert(seq![c].drop_first().len() == 0);
}

fn to_khz(hz: u32) -> (khz: u32)
    ensures
        khz == khz_rounded(hz as nat),
        khz <= 4_294_968,
{
    let down: u32 = hz / 1000;
    let rest: u32 = hz % 1000;
    if rest < 500 {
        down
    } else if rest > 500 {
        down + 1
    } else {
        let mut x: u128 = hz as u128;
        while x < 4_503_599_627_370_496_000_000
            invariant
                0 < x < 9_007_199_254_740_992_000_000,
                scaled_up(x as nat) == scaled_up(hz as nat),
            decreases 9_007_199_254_740_992_000_000 - x,
        {
            x = 2 * x;
        }
        let lost: u128 = x % 1_000_000;
        if lost == 0 {
            down + down % 2
        } else if lost < 500_000 {
            down
        } else {
            down + 1
        }
    }
}

/// Append a frequency in MHz with three decimals.
pub fn push_mhz(s: &mut String, hz: u32)
    ensures
        final(s)@ == old(s)@ + mhz(hz as nat),
{
    let khz: u32 = to_khz(hz);
    text::push_decimal(s, (khz / 1000) as u64);
    s.append(".");
    let frac: u32 = khz % 1000;
    s.push((48u8 + (frac / 100) as u8) as char);
    s.push((48u8 + ((frac / 10) % 10) as u8) as char);
    s.push((48u8 + (frac % 10) as u8) as char);
    assert(s@ =~= old(s)@ + mhz(hz as nat));
}

/// A frequency in MHz with three decimals.
pub fn mhz_text(hz: u32) -> (out: String)
    ensures
        out@ == mhz(hz as nat),
{
    let mut out: String = String::new();
    push_mhz(&mut out, hz);
    assert(out@ =~= mhz(hz as nat));
    out
}

} // verus!
