//! Configuration values and their validation.
//!
//! Handles the `[radio]`, `[bridge]`, and `[tx]` sections with `MeshCore` US/Canada
//! recommended defaults, and conversion to the radio's `LoRaConfig`. Floating-point
//! settings, which nothing here looks into, are carried as their bit patterns.

use vstd::prelude::*;
use vstd::string::*;

use crate::lora;
use crate::lora::{LoRaBandwidth, LoRaCodingRate, LoRaConfig, LoRaHeaderMode};
use crate::number;
use crate::radio::RetryPolicy;
use crate::rate_limit;
use crate::text;
use crate::text::same_text;

verus! {

/// Top-level bridge configuration.
#[derive(Debug, Clone)]
pub struct Config {
    pub radio: RadioSection,
    pub bridge: BridgeSection,
    pub tx: TxSection,
}

#[derive(Debug, Clone)]
pub struct RadioSection {
    /// Serial port path (auto-detect if omitted).
    pub port: Option<String>,
    pub frequency: u32,
    pub bandwidth: String,
    pub spreading_factor: u8,
    pub coding_rate: u8,
    pub sync_word: u16,
    pub tx_power_dbm: i8,
    pub preamble: u16,
}

#[derive(Debug, Clone)]
pub struct BridgeSection {
    /// Shared passphrase. All bridges with the same passphrase join the same swarm.
    pub passphrase: String,
    pub dedup_window_secs: u64,
    pub tx_queue_size: usize,
    /// Optional manual override for the radio TX rate limit (packets per second,
    /// as the bit pattern of a double-precision number).
    /// If omitted, a rate is calculated from the radio config.
    pub rate_limit_pps_bits: Option<u64>,
    pub log_file: Option<String>,
}

/// Per-TX retry policy. Applied to every transmission. Defaults: 3 attempts,
/// randomized 20–100 ms backoff on the first retry, doubling up to a 500 ms cap.
#[derive(Debug, Clone, Copy, PartialEq, Eq, Structural)]
pub struct TxSection {
    pub max_attempts: u8,
    pub backoff_min_ms: u32,
    pub backoff_max_ms: u32,
    pub backoff_cap_ms: u32,
    /// Bit pattern of a single-precision number.
    pub backoff_multiplier_bits: u32,
    pub per_attempt_timeout_secs: u64,
    /// Transmit without listening for channel activity first.
    pub skip_cad: bool,
}

/// What a text option holds.
pub open spec fn option_text(o: Option<String>) -> Option<Seq<char>> {
    match o {
        Some(s) => Some(s@),
        None => None,
    }
}

/// What a [`RadioSection`] holds.
#[verifier::ext_equal]
pub struct RadioSectionView {
    pub port: Option<Seq<char>>,
    pub frequency: u32,
    pub bandwidth: Seq<char>,
    pub spreading_factor: u8,
    pub coding_rate: u8,
    pub sync_word: u16,
    pub tx_power_dbm: i8,
    pub preamble: u16,
}

impl View for RadioSection {
    type V = RadioSectionView;

    open spec fn view(&self) -> RadioSectionView {
        RadioSectionView {
            port: option_text(self.port),
            frequency: self.frequency,
            bandwidth: self.bandwidth@,
            spreading_factor: self.spreading_factor,
            coding_rate: self.coding_rate,
            sync_word: self.sync_word,
            tx_power_dbm: self.tx_power_dbm,
            preamble: self.preamble,
        }
    }
}

/// What a [`BridgeSection`] holds.
#[verifier::ext_equal]
pub struct BridgeSectionView {
    pub passphrase: Seq<char>,
    pub dedup_window_secs: u64,
    pub tx_queue_size: usize,
    pub rate_limit_pps_bits: Option<u64>,
    pub log_file: Option<Seq<char>>,
}

impl View for BridgeSection {
    type V = BridgeSectionView;

    open spec fn view(&self) -> BridgeSectionView {
        BridgeSectionView {
            passphrase: self.passphrase@,
            dedup_window_secs: self.dedup_window_secs,
            tx_queue_size: self.tx_queue_size,
            rate_limit_pps_bits: self.rate_limit_pps_bits,
            log_file: option_text(self.log_file),
        }
    }
}

/// What a [`Config`] holds.
#[verifier::ext_equal]
pub struct ConfigView {
    pub radio: RadioSectionView,
    pub bridge: BridgeSectionView,
    pub tx: TxSection,
}

impl View for Config {
    type V = ConfigView;

    open spec fn view(&self) -> ConfigView {
        ConfigView { radio: self.radio@, bridge: self.bridge@, tx: self.tx }
    }
}

// ── Errors ──────────────────────────────────────────────────────────

/// Why a configuration is refused.
#[derive(Debug, Clone)]
pub enum ConfigError {
    SpreadingFactor(u8),
    Frequency(u32),
    UnknownBandwidth(String),
    CodingRate(u8),
    NoAttempts,
    InvertedBackoff { min: u32, max: u32 },
    PassphraseRequired,
    NoConfigDir,
    NoStateDir,
}

/// What a [`ConfigError`] says.
#[verifier::ext_equal]
pub enum ConfigErrorView {
    SpreadingFactor(u8),
    Frequency(u32),
    UnknownBandwidth(Seq<char>),
    CodingRate(u8),
    NoAttempts,
    InvertedBackoff { min: u32, max: u32 },
    PassphraseRequired,
    NoConfigDir,
    NoStateDir,
}

impl View for ConfigError {
    type V = ConfigErrorView;

    open spec fn view(&self) -> ConfigErrorView {
        match *self {
            ConfigError::SpreadingFactor(v) => ConfigErrorView::SpreadingFactor(v),
            ConfigError::Frequency(v) => ConfigErrorView::Frequency(v),
            ConfigError::UnknownBandwidth(s) => ConfigErrorView::UnknownBandwidth(s@),
            ConfigError::CodingRate(v) => ConfigErrorView::CodingRate(v),
            ConfigError::NoAttempts => ConfigErrorView::NoAttempts,
            ConfigError::InvertedBackoff { min, max } => ConfigErrorView::InvertedBackoff {
                min,
                max,
            },
            ConfigError::PassphraseRequired => ConfigErrorView::PassphraseRequired,
            ConfigError::NoConfigDir => ConfigErrorView::NoConfigDir,
            ConfigError::NoStateDir => ConfigErrorView::NoStateDir,
        }
    }
}

impl ConfigErrorView {
    /// The message shown to the operator.
    pub open spec fn text(self) -> Seq<char> {
        match self {
            ConfigErrorView::SpreadingFactor(v) => "spreading_factor must be 7-12, got "@
                + text::decimal(v as nat),
            ConfigErrorView::Frequency(v) => "frequency "@ + lora::mhz(v as nat)
                + " MHz out of range (150 MHz to 1.02 GHz)"@,
            ConfigErrorView::UnknownBandwidth(s) => "unknown bandwidth: "@ + s,
            ConfigErrorView::CodingRate(v) => "coding_rate must be 5-8 (meaning 4/5 to 4/8), got "@
                + text::decimal(v as nat),
            ConfigErrorView::NoAttempts => "tx.max_attempts must be >= 1"@,
            ConfigErrorView::InvertedBackoff { min, max } => "tx.backoff_min_ms ("@ + text::decimal(
                min as nat,
            ) + ") must not exceed backoff_max_ms ("@ + text::decimal(max as nat) + ")"@,
            ConfigErrorView::PassphraseRequired => {
                "passphrase is required — run `donglora-bridge config` to set it"@
            },
            ConfigErrorView::NoConfigDir => "cannot determine config directory"@,
            ConfigErrorView::NoStateDir => "cannot determine state directory"@,
        }
    }
}

impl ConfigError {
    /// The message shown to the operator.
    pub fn message(&self) -> (out: String)
        ensures
            out@ == self@.text(),
    {
        match self {
            ConfigError::SpreadingFactor(v) => {
                let mut s: String = "spreading_factor must be 7-12, got ".to_owned();
                text::push_decimal(&mut s, *v as u64);
                s
            },
            ConfigError::Frequency(v) => {
                let mut s: String = "frequency ".to_owned();
                lora::push_mhz(&mut s, *v);
                s.append(" MHz out of range (150 MHz to 1.02 GHz)");
                s
            },
            ConfigError::UnknownBandwidth(b) => {
                let mut s: String = "unknown bandwidth: ".to_owned();
                s.append(b.as_str());
                s
            },
            ConfigError::CodingRate(v) => {
                let mut s: String = "coding_rate must be 5-8 (meaning 4/5 to 4/8), got ".to_owned();
                text::push_decimal(&mut s, *v as u64);
                s
            },
            ConfigError::NoAttempts => "tx.max_attempts must be >= 1".to_owned(),
            ConfigError::InvertedBackoff { min, max } => {
                let mut s: String = "tx.backoff_min_ms (".to_owned();
                text::push_decimal(&mut s, *min as u64);
                s.append(") must not exceed backoff_max_ms (");
                text::push_decimal(&mut s, *max as u64);
                s.append(")");
                s
            },
            ConfigError::PassphraseRequired => {
                "passphrase is required — run `donglora-bridge config` to set it".to_owned()
            },
            ConfigError::NoConfigDir => "cannot determine config directory".to_owned(),
            ConfigError::NoStateDir => "cannot determine state directory".to_owned(),
        }
    }
}

// ── Defaults (MeshCore US/Canada Recommended) ───────────────────────

pub fn default_frequency() -> (v: u32)
    ensures
        v == 910_525_000,
{
    910_525_000
}

pub fn default_bandwidth() -> (v: String)
    ensures
        v@ == "62.5kHz"@,
{
    "62.5kHz".to_owned()
}

pub fn default_sf() -> (v: u8)
    ensures
        v == 7,
{
    7
}

pub fn default_cr() -> (v: u8)
    ensures
        v == 5,
{
    5
}

/// `MeshCore` private sync word encoded for the `SX126x`.
pub fn default_sync_word() -> (v: u16)
    ensures
        v == 0x1424,
{
    0x1424
}

pub fn default_tx_power() -> (v: i8)
    ensures
        v == 20,
{
    20
}

pub fn default_preamble() -> (v: u16)
    ensures
        v == 16,
{
    16
}

pub fn default_dedup_window() -> (v: u64)
    ensures
        v == 300,
{
    300
}

pub fn default_tx_queue_size() -> (v: usize)
    ensures
        v == 32,
{
    32
}

pub fn default_max_attempts() -> (v: u8)
    ensures
        v == 3,
{
    3
}

pub fn default_backoff_min_ms() -> (v: u32)
    ensures
        v == 20,
{
    20
}

pub fn default_backoff_max_ms() -> (v: u32)
    ensures
        v == 100,
{
    100
}

pub fn default_backoff_cap_ms() -> (v: u32)
    ensures
        v == 500,
{
    500
}

/// The bit pattern of the single-precision number two.
pub fn default_backoff_multiplier_bits() -> (v: u32)
    ensures
        v == 0x4000_0000,
{
    0x4000_0000
}

pub fn default_per_attempt_timeout_secs() -> (v: u64)
    ensures
        v == 5,
{
    5
}

/// The default `[radio]` section.
pub open spec fn radio_defaults() -> RadioSectionView {
    RadioSectionView {
        port: None,
        frequency: 910_525_000,
        bandwidth: "62.5kHz"@,
        spreading_factor: 7,
        coding_rate: 5,
        sync_word: 0x1424,
        tx_power_dbm: 20,
        preamble: 16,
    }
}

/// The default `[bridge]` section.
pub open spec fn bridge_defaults() -> BridgeSectionView {
    BridgeSectionView {
        passphrase: Seq::empty(),
        dedup_window_secs: 300,
        tx_queue_size: 32,
        rate_limit_pps_bits: None,
        log_file: None,
    }
}

/// The default `[tx]` section.
pub open spec fn tx_defaults() -> TxSection {
    TxSection {
        max_attempts: 3,
        backoff_min_ms: 20,
        backoff_max_ms: 100,
        backoff_cap_ms: 500,
        backoff_multiplier_bits: 0x4000_0000,
        per_attempt_timeout_secs: 5,
        skip_cad: false,
    }
}

impl Default for RadioSection {
    fn default() -> (r: Self)
        ensures
            r@ == radio_defaults(),
    {
        RadioSection {
            port: None,
            frequency: default_frequency(),
            bandwidth: default_bandwidth(),
            spreading_factor: default_sf(),
            coding_rate: default_cr(),
            sync_word: default_sync_word(),
            tx_power_dbm: default_tx_power(),
            preamble: default_preamble(),
        }
    }
}

impl Default for BridgeSection {
    fn default() -> (r: Self)
        ensures
            r@ == bridge_defaults(),
    {
        BridgeSection {
            passphrase: String::new(),
            dedup_window_secs: default_dedup_window(),
            tx_queue_size: default_tx_queue_size(),
            rate_limit_pps_bits: None,
            log_file: None,
        }
    }
}

impl Default for TxSection {
    fn default() -> (r: Self)
        ensures
            r == tx_defaults(),
    {
        TxSection {
            max_attempts: default_max_attempts(),
            backoff_min_ms: default_backoff_min_ms(),
            backoff_max_ms: default_backoff_max_ms(),
            backoff_cap_ms: default_backoff_cap_ms(),
            backoff_multiplier_bits: default_backoff_multiplier_bits(),
            per_attempt_timeout_secs: default_per_attempt_timeout_secs(),
            skip_cad: false,
        }
    }
}

/// Law: the settings that a config file leaves out. Those of the radio are the
/// ones recommended for the US and Canada.
pub proof fn law_defaults(r: RadioSection, b: BridgeSection, t: TxSection)
    requires
        call_ensures(<RadioSection as Default>::default, (), r),
        call_ensures(<BridgeSection as Default>::default, (), b),
        call_ensures(<TxSection as Default>::default, (), t),
    ensures
        r.port is None,
        r.frequency == 910_525_000,
        r.bandwidth@ == "62.5kHz"@,
        r.spreading_factor == 7,
        r.coding_rate == 5,
        r.sync_word == 0x1424,
        r.tx_power_dbm == 20,
        r.preamble == 16,
        b.passphrase@.len() == 0,
        b.dedup_window_secs == 300,
        b.tx_queue_size == 32,
        b.rate_limit_pps_bits is None,
        b.log_file is None,
        t.max_attempts == 3,
        t.backoff_min_ms == 20,
        t.backoff_max_ms == 100,
        t.backoff_cap_ms == 500,
        t.backoff_multiplier_bits == 0x4000_0000,
        t.per_attempt_timeout_secs == 5,
        !t.skip_cad,
{
}

/// Law: the defaults of single settings are those of their section.
pub proof fn law_single_defaults(
    r: RadioSection,
    b: BridgeSection,
    t: TxSection,
    frequency: u32,
    bandwidth: String,
    sf: u8,
    cr: u8,
    sync_word: u16,
    tx_power: i8,
    preamble: u16,
    window: u64,
    queue_size: usize,
    attempts: u8,
    backoff: (u32, u32, u32),
    multiplier: u32,
    timeout: u64,
)
    requires
        call_ensures(<RadioSection as Default>::default, (), r),
        call_ensures(<BridgeSection as Default>::default, (), b),
        call_ensures(<TxSection as Default>::default, (), t),
        call_ensures(default_frequency, (), frequency),
        call_ensures(default_bandwidth, (), bandwidth),
        call_ensures(default_sf, (), sf),
        call_ensures(default_cr, (), cr),
        call_ensures(default_sync_word, (), sync_word),
        call_ensures(default_tx_power, (), tx_power),
        call_ensures(default_preamble, (), preamble),
        call_ensures(default_dedup_window, (), window),
        call_ensures(default_tx_queue_size, (), queue_size),
        call_ensures(default_max_attempts, (), attempts),
        call_ensures(default_backoff_min_ms, (), backoff.0),
        call_ensures(default_backoff_max_ms, (), backoff.1),
        call_ensures(default_backoff_cap_ms, (), backoff.2),
        call_ensures(default_backoff_multiplier_bits, (), multiplier),
        call_ensures(default_per_attempt_timeout_secs, (), timeout),
    ensures
        r.frequency == frequency,
        r.bandwidth@ == bandwidth@,
        r.spreading_factor == sf,
        r.coding_rate == cr,
        r.sync_word == sync_word,
        r.tx_power_dbm == tx_power,
        r.preamble == preamble,
        b.dedup_window_secs == window,
        b.tx_queue_size == queue_size,
        t.max_attempts == attempts,
        t.backoff_min_ms == backoff.0,
        t.backoff_max_ms == backoff.1,
        t.backoff_cap_ms == backoff.2,
        t.backoff_multiplier_bits == multiplier,
        t.per_attempt_timeout_secs == timeout,
{
}

// ── Conversion ──────────────────────────────────────────────────────

/// The bandwidth that a lower-case name stands for.
pub open spec fn bandwidth_named(name: Seq<char>) -> Option<LoRaBandwidth> {
    if name == "7.8khz"@ || name == "7khz"@ || name == "khz7"@ {
        Some(LoRaBandwidth::Khz7)
    } else if name == "10.4khz"@ || name == "10khz"@ || name == "khz10"@ {
        Some(LoRaBandwidth::Khz10)
    } else if name == "15.6khz"@ || name == "15khz"@ || name == "khz15"@ {
        Some(LoRaBandwidth::Khz15)
    } else if name == "20.8khz"@ || name == "20khz"@ || name == "khz20"@ {
        Some(LoRaBandwidth::Khz20)
    } else if name == "31.25khz"@ || name == "31khz"@ || name == "khz31"@ {
        Some(LoRaBandwidth::Khz31)
    } else if name == "41.7khz"@ || name == "41khz"@ || name == "khz41"@ {
        Some(LoRaBandwidth::Khz41)
    } else if name == "62.5khz"@ || name == "62khz"@ || name == "khz62"@ {
        Some(LoRaBandwidth::Khz62)
    } else if name == "125khz"@ || name == "khz125"@ {
        Some(LoRaBandwidth::Khz125)
    } else if name == "250khz"@ || name == "khz250"@ {
        Some(LoRaBandwidth::Khz250)
    } else if name == "500khz"@ || name == "khz500"@ {
        Some(LoRaBandwidth::Khz500)
    } else {
        None
    }
}

/// Look up a bandwidth by its lower-case name.
pub fn bandwidth_from_lowercase(name: &str) -> (r: Option<LoRaBandwidth>)
    ensures
        r == bandwidth_named(name@),
{
    if same_text(name, "7.8khz") || same_text(name, "7khz") || same_text(name, "khz7") {
        Some(LoRaBandwidth::Khz7)
    } else if same_text(name, "10.4khz") || same_text(name, "10khz") || same_text(name, "khz10") {
        Some(LoRaBandwidth::Khz10)
    } else if same_text(name, "15.6khz") || same_text(name, "15khz") || same_text(name, "khz15") {
        Some(LoRaBandwidth::Khz15)
    } else if same_text(name, "20.8khz") || same_text(name, "20khz") || same_text(name, "khz20") {
        Some(LoRaBandwidth::Khz20)
    } else if same_text(name, "31.25khz") || same_text(name, "31khz") || same_text(name, "khz31") {
        Some(LoRaBandwidth::Khz31)
    } else if same_text(name, "41.7khz") || same_text(name, "41khz") || same_text(name, "khz41") {
        Some(LoRaBandwidth::Khz41)
    } else if same_text(name, "62.5khz") || same_text(name, "62khz") || same_text(name, "khz62") {
        Some(LoRaBandwidth::Khz62)
    } else if same_text(name, "125khz") || same_text(name, "khz125") {
        Some(LoRaBandwidth::Khz125)
    } else if same_text(name, "250khz") || same_text(name, "khz250") {
        Some(LoRaBandwidth::Khz250)
    } else if same_text(name, "500khz") || same_text(name, "khz500") {
        Some(LoRaBandwidth::Khz500)
    } else {
        None
    }
}

/// A lookup result as a parse result.
pub open spec fn bandwidth_or_error(found: Option<LoRaBandwidth>, name: Seq<char>) -> Result<
    LoRaBandwidth,
    ConfigErrorView,
> {
    match found {
        Some(bw) => Ok(bw),
        None => Err(ConfigErrorView::UnknownBandwidth(name)),
    }
}

/// What a parse result says.
pub open spec fn result_view<T>(r: Result<T, ConfigError>) -> Result<T, ConfigErrorView> {
    match r {
        Ok(v) => Ok(v),
        Err(e) => Err(e@),
    }
}

/// Parse a bandwidth name, in any case.
pub fn parse_bandwidth(s: &str) -> (r: Result<LoRaBandwidth, ConfigError>)
    ensures
        result_view(r) == bandwidth_or_error(bandwidth_named(text::lowered(s@)), s@),
{
    let lower: String = text::to_lowercase(s);
    match bandwidth_from_lowercase(lower.as_str()) {
        Some(bw) => Ok(bw),
        None => Err(ConfigError::UnknownBandwidth(s.to_owned())),
    }
}

/// Law: an ASCII name and its lower-case form name the same bandwidth, or none.
pub proof fn law_bandwidth_ignores_case(name: Seq<char>)
    requires
        text::all_ascii(name),
    ensures
        bandwidth_named(text::lowered(text::ascii_lower(name))) == bandwidth_named(
            text::lowered(name),
        ),
{
    text::law_lowering_ascii_twice(name);
}

proof fn lemma_digits_value(n: nat, t: Seq<char>)
    requires
        text::decimal(n) == t,
    ensures
        number::int_value(t, 10, 0, n as int + 10_000) == Ok::<int, number::IntError>(n as int),
{
    number::law_decimal_reads_back(n as int, 0, n as int + 10_000);
}

proof fn lemma_short_numbers(t: Seq<char>, top: int)
    requires
        1 <= t.len() <= 3,
        forall|i: int| 0 <= i < t.len() ==> 48 <= (#[trigger] t[i]) as int <= 57,
        top >= 1000,
    ensures
        t.len() == 1 ==> number::int_value(t, 10, 0, top) == Ok::<int, number::IntError>(
            t[0] as int - 48,
        ),
        t.len() == 2 ==> number::int_value(t, 10, 0, top) == Ok::<int, number::IntError>(
            10 * (t[0] as int - 48) + (t[1] as int - 48),
        ),
        t.len() == 3 ==> number::int_value(t, 10, 0, top) == Ok::<int, number::IntError>(
            100 * (t[0] as int - 48) + 10 * (t[1] as int - 48) + (t[2] as int - 48),
        ),
{
    let t1 = t.drop_first();
    let t2 = t1.drop_first();
    let t3 = t2.drop_first();
    reveal_with_fuel(number::scan, 4);
    if t.len() >= 2 {
        assert(t1[0] == t[1]);
    }
    if t.len() >= 3 {
        assert(t2[0] == t[2]);
    }
}

/// Law: a name made of a number and `khz`, in either order, stands for no
/// bandwidth or for one of that many kHz, cut to whole ones.
pub proof fn law_bandwidth_name_is_its_number(
    n: nat,
    name: &str,
    found: Option<LoRaBandwidth>,
    bw: LoRaBandwidth,
    hz: u32,
)
    requires
        name@ == text::decimal(n) + "khz"@ || name@ == "khz"@ + text::decimal(n),
        call_ensures(bandwidth_from_lowercase, (name,), found),
        found == Some(bw),
        call_ensures(rate_limit::bandwidth_hz, (bw,), hz),
    ensures
        hz / 1000 == n,
        hz <= 500_000,
{
    reveal_bandwidth_names();
    reveal_strlit("khz");
    let d = text::decimal(n);
    lemma_digits_value(n, d);
    let t = name@;
    let top = n as int + 10_000;
    assert(d.len() >= 1);
    if t == d + "khz"@ {
        assert(d =~= t.take(t.len() - 3));
        assert(t.last() == 'z');
    } else {
        assert(d =~= t.skip(3));
        assert(t[0] == 'k');
    }
    if d.len() <= 3 && (forall|i: int| 0 <= i < d.len() ==> 48 <= (#[trigger] d[i]) as int <= 57) {
        lemma_short_numbers(d, top);
    }
    lemma_no_dot(d, top);
}

/// A number of Hz in kHz, with as many decimals as it takes.
pub open spec fn khz_text(hz: nat) -> Seq<char> {
    text::decimal(hz / 1000) + if hz % 1000 == 0 {
        Seq::empty()
    } else if hz % 100 == 0 {
        seq!['.'] + text::decimal(hz % 1000 / 100)
    } else {
        seq!['.'] + text::decimal(hz % 1000 / 10)
    }
}

/// Law: every bandwidth below the 2.4 GHz ones is found under its number of
/// kHz, in full or cut to whole ones, before or (cut) behind the unit.
pub proof fn law_bandwidth_is_found_by_its_number(
    bw: LoRaBandwidth,
    hz: u32,
    name: &str,
    found: Option<LoRaBandwidth>,
)
    requires
        bw != LoRaBandwidth::Khz200,
        bw != LoRaBandwidth::Khz400,
        bw != LoRaBandwidth::Khz800,
        bw != LoRaBandwidth::Khz1600,
        call_ensures(rate_limit::bandwidth_hz, (bw,), hz),
        name@ == khz_text(hz as nat) + "khz"@ || name@ == text::decimal((hz / 1000) as nat)
            + "khz"@ || name@ == "khz"@ + text::decimal((hz / 1000) as nat),
        call_ensures(bandwidth_from_lowercase, (name,), found),
    ensures
        found == Some(bw),
{
    reveal_bandwidth_names();
    reveal_strlit("khz");
    reveal_with_fuel(text::decimal, 4);
    let d = text::decimal((hz / 1000) as nat);
    let t = name@;
    match bw {
        LoRaBandwidth::Khz7 => {
            assert(d =~= seq!['7']);
            assert(khz_text(hz as nat) =~= seq!['7', '.', '8']);
            assert(t =~= "7.8khz"@ || t =~= "7khz"@ || t =~= "khz7"@);
        },
        LoRaBandwidth::Khz10 => {
            assert(d =~= seq!['1', '0']);
            assert(khz_text(hz as nat) =~= seq!['1', '0', '.', '4']);
            assert(t =~= "10.4khz"@ || t =~= "10khz"@ || t =~= "khz10"@);
        },
        LoRaBandwidth::Khz15 => {
            assert(d =~= seq!['1', '5']);
            assert(khz_text(hz as nat) =~= seq!['1', '5', '.', '6']);
            assert(t =~= "15.6khz"@ || t =~= "15khz"@ || t =~= "khz15"@);
        },
        LoRaBandwidth::Khz20 => {
            assert(d =~= seq!['2', '0']);
            assert(khz_text(hz as nat) =~= seq!['2', '0', '.', '8']);
            assert(t =~= "20.8khz"@ || t =~= "20khz"@ || t =~= "khz20"@);
        },
        LoRaBandwidth::Khz31 => {
            assert(d =~= seq!['3', '1']);
            assert(text::decimal(25) =~= seq!['2', '5']);
            assert(khz_text(hz as nat) =~= seq!['3', '1', '.', '2', '5']);
            assert(t =~= "31.25khz"@ || t =~= "31khz"@ || t =~= "khz31"@);
        },
        LoRaBandwidth::Khz41 => {
            assert(d =~= seq!['4', '1']);
            assert(khz_text(hz as nat) =~= seq!['4', '1', '.', '7']);
            assert(t =~= "41.7khz"@ || t =~= "41khz"@ || t =~= "khz41"@);
        },
        LoRaBandwidth::Khz62 => {
            assert(d =~= seq!['6', '2']);
            assert(khz_text(hz as nat) =~= seq!['6', '2', '.', '5']);
            assert(t =~= "62.5khz"@ || t =~= "62khz"@ || t =~= "khz62"@);
        },
        LoRaBandwidth::Khz125 => {
            assert(d =~= seq!['1', '2', '5']);
            assert(t =~= "125khz"@ || t =~= "khz125"@);
        },
        LoRaBandwidth::Khz250 => {
            assert(d =~= seq!['2', '5', '0']);
            assert(t =~= "250khz"@ || t =~= "khz250"@);
        },
        LoRaBandwidth::Khz500 => {
            assert(d =~= seq!['5', '0', '0']);
            assert(t =~= "500khz"@ || t =~= "khz500"@);
        },
        _ => {},
    }
}

/// Law: no name stands for a bandwidth of the 2.4 GHz chips, and a name that
/// stands for none is given back in the error.
pub proof fn law_unknown_bandwidth_is_named(name: &str, result: Result<LoRaBandwidth, ConfigError>)
    requires
        call_ensures(parse_bandwidth, (name,), result),
    ensures
        result matches Ok(bw) ==> {
            &&& bw != LoRaBandwidth::Khz200
            &&& bw != LoRaBandwidth::Khz400
            &&& bw != LoRaBandwidth::Khz800
            &&& bw != LoRaBandwidth::Khz1600
        },
        result matches Err(e) ==> e matches ConfigError::UnknownBandwidth(t) && t@ == name@,
{
}

/// A text that is read as a number holds no dot.
proof fn lemma_no_dot(d: Seq<char>, top: int)
    requires
        top >= 1,
        number::int_value(d, 10, 0, top) is Ok,
    ensures
        forall|i: int| 0 <= i < d.len() ==> #[trigger] d[i] != '.',
{
    if d[0] == '+' {
        lemma_scan_no_dot(d.drop_first(), top, 0);
        assert forall|i: int| 0 <= i < d.len() implies #[trigger] d[i] != '.' by {
            if i > 0 {
                assert(d.drop_first()[i - 1] == d[i]);
            }
        }
    } else {
        lemma_scan_no_dot(d, top, 0);
    }
}

proof fn lemma_scan_no_dot(d: Seq<char>, top: int, acc: int)
    requires
        number::scan(d, 10, false, 0, top, acc) is Ok,
    ensures
        forall|i: int| 0 <= i < d.len() ==> #[trigger] d[i] != '.',
    decreases d.len(),
{
    if d.len() > 0 {
        let v = number::digit_value(d[0], 10)->0;
        lemma_scan_no_dot(d.drop_first(), top, acc * 10 + v);
        assert forall|i: int| 0 <= i < d.len() implies #[trigger] d[i] != '.' by {
            if i > 0 {
                assert(d.drop_first()[i - 1] == d[i]);
            }
        }
    }
}

proof fn reveal_bandwidth_names()
    ensures
        "7.8khz"@ =~= seq!['7', '.', '8', 'k', 'h', 'z'],
        "7khz"@ =~= seq!['7', 'k', 'h', 'z'],
        "khz7"@ =~= seq!['k', 'h', 'z', '7'],
        "10.4khz"@ =~= seq!['1', '0', '.', '4', 'k', 'h', 'z'],
        "10khz"@ =~= seq!['1', '0', 'k', 'h', 'z'],
        "khz10"@ =~= seq!['k', 'h', 'z', '1', '0'],
        "15.6khz"@ =~= seq!['1', '5', '.', '6', 'k', 'h', 'z'],
        "15khz"@ =~= seq!['1', '5', 'k', 'h', 'z'],
        "khz15"@ =~= seq!['k', 'h', 'z', '1', '5'],
        "20.8khz"@ =~= seq!['2', '0', '.', '8', 'k', 'h', 'z'],
        "20khz"@ =~= seq!['2', '0', 'k', 'h', 'z'],
        "khz20"@ =~= seq!['k', 'h', 'z', '2', '0'],
        "31.25khz"@ =~= seq!['3', '1', '.', '2', '5', 'k', 'h', 'z'],
        "31khz"@ =~= seq!['3', '1', 'k', 'h', 'z'],
        "khz31"@ =~= seq!['k', 'h', 'z', '3', '1'],
        "41.7khz"@ =~= seq!['4', '1', '.', '7', 'k', 'h', 'z'],
        "41khz"@ =~= seq!['4', '1', 'k', 'h', 'z'],
        "khz41"@ =~= seq!['k', 'h', 'z', '4', '1'],
        "62.5khz"@ =~= seq!['6', '2', '.', '5', 'k', 'h', 'z'],
        "62khz"@ =~= seq!['6', '2', 'k', 'h', 'z'],
        "khz62"@ =~= seq!['k', 'h', 'z', '6', '2'],
        "125khz"@ =~= seq!['1', '2', '5', 'k', 'h', 'z'],
        "khz125"@ =~= seq!['k', 'h', 'z', '1', '2', '5'],
        "250khz"@ =~= seq!['2', '5', '0', 'k', 'h', 'z'],
        "khz250"@ =~= seq!['k', 'h', 'z', '2', '5', '0'],
        "500khz"@ =~= seq!['5', '0', '0', 'k', 'h', 'z'],
        "khz500"@ =~= seq!['k', 'h', 'z', '5', '0', '0'],
{
    reveal_strlit("7.8khz");
    reveal_strlit("7khz");
    reveal_strlit("khz7");
    reveal_strlit("10.4khz");
    reveal_strlit("10khz");
    reveal_strlit("khz10");
    reveal_strlit("15.6khz");
    reveal_strlit("15khz");
    reveal_strlit("khz15");
    reveal_strlit("20.8khz");
    reveal_strlit("20khz");
    reveal_strlit("khz20");
    reveal_strlit("31.25khz");
    reveal_strlit("31khz");
    reveal_strlit("khz31");
    reveal_strlit("41.7khz");
    reveal_strlit("41khz");
    reveal_strlit("khz41");
    reveal_strlit("62.5khz");
    reveal_strlit("62khz");
    reveal_strlit("khz62");
    reveal_strlit("125khz");
    reveal_strlit("khz125");
    reveal_strlit("250khz");
    reveal_strlit("khz250");
    reveal_strlit("500khz");
    reveal_strlit("khz500");
}

/// The coding rate with denominator `v`.
pub open spec fn coding_rate_of(v: u8) -> Result<LoRaCodingRate, ConfigErrorView> {
    if v == 5 {
        Ok(LoRaCodingRate::Cr4_5)
    } else if v == 6 {
        Ok(LoRaCodingRate::Cr4_6)
    } else if v == 7 {
        Ok(LoRaCodingRate::Cr4_7)
    } else if v == 8 {
        Ok(LoRaCodingRate::Cr4_8)
    } else {
        Err(ConfigErrorView::CodingRate(v))
    }
}

/// The coding rate with denominator `v`.
pub fn parse_coding_rate(v: u8) -> (r: Result<LoRaCodingRate, ConfigError>)
    ensures
        result_view(r) == coding_rate_of(v),
{
    if v == 5 {
        Ok(LoRaCodingRate::Cr4_5)
    } else if v == 6 {
        Ok(LoRaCodingRate::Cr4_6)
    } else if v == 7 {
        Ok(LoRaCodingRate::Cr4_7)
    } else if v == 8 {
        Ok(LoRaCodingRate::Cr4_8)
    } else {
        Err(ConfigError::CodingRate(v))
    }
}

/// Law: a coding rate and its denominator determine each other.
pub proof fn law_coding_rate_denominator(v: u8)
    ensures
        match coding_rate_of(v) {
            Ok(cr) => cr.spec_denominator() == v,
            Err(_) => v < 5 || v > 8,
        },
{
}

/// The radio config of a section whose bandwidth name was looked up. The
/// spreading factor is checked first, then the frequency, the bandwidth and
/// the coding rate.
pub open spec fn lora_config_of(s: RadioSectionView, found: Option<LoRaBandwidth>) -> Result<
    LoRaConfig,
    ConfigErrorView,
> {
    if s.spreading_factor < 7 || s.spreading_factor > 12 {
        Err(ConfigErrorView::SpreadingFactor(s.spreading_factor))
    } else if s.frequency < 150_000_000 || s.frequency > 1_020_000_000 {
        Err(ConfigErrorView::Frequency(s.frequency))
    } else {
        match (found, coding_rate_of(s.coding_rate)) {
            (None, _) => Err(ConfigErrorView::UnknownBandwidth(s.bandwidth)),
            (Some(_), Err(e)) => Err(e),
            (Some(bw), Ok(cr)) => Ok(
                LoRaConfig {
                    freq_hz: s.frequency,
                    bw,
                    sf: s.spreading_factor,
                    cr,
                    sync_word: s.sync_word,
                    tx_power_dbm: s.tx_power_dbm,
                    preamble_len: s.preamble,
                    header_mode: LoRaHeaderMode::Explicit,
                    payload_crc: true,
                    iq_invert: false,
                },
            ),
        }
    }
}

impl RadioSection {
    /// Convert to a `LoRaConfig`.
    ///
    /// Validates that all radio parameters are within hardware-supported ranges
    /// before constructing the config.
    pub fn to_lora_config(&self) -> (r: Result<LoRaConfig, ConfigError>)
        ensures
            result_view(r) == lora_config_of(
                self@,
                bandwidth_named(text::lowered(self.bandwidth@)),
            ),
    {
        let found: Option<LoRaBandwidth> = match parse_bandwidth(self.bandwidth.as_str()) {
            Ok(bw) => Some(bw),
            Err(_) => None,
        };
        self.lora_config_with(found)
    }

    /// Convert to a `LoRaConfig`, given what the bandwidth name was found to mean.
    pub fn lora_config_with(&self, found: Option<LoRaBandwidth>) -> (r: Result<
        LoRaConfig,
        ConfigError,
    >)
        ensures
            result_view(r) == lora_config_of(self@, found),
    {
        if self.spreading_factor < 7 || self.spreading_factor > 12 {
            return Err(ConfigError::SpreadingFactor(self.spreading_factor));
        }
        if self.frequency < 150_000_000 || self.frequency > 1_020_000_000 {
            return Err(ConfigError::Frequency(self.frequency));
        }
        let bw: LoRaBandwidth = match found {
            Some(bw) => bw,
            None => {
                return Err(ConfigError::UnknownBandwidth(self.bandwidth.clone()));
            },
        };
        let cr: LoRaCodingRate = match parse_coding_rate(self.coding_rate) {
            Ok(cr) => cr,
            Err(e) => {
                return Err(e);
            },
        };
        Ok(
            LoRaConfig {
                freq_hz: self.frequency,
                bw,
                sf: self.spreading_factor,
                cr,
                sync_word: self.sync_word,
                tx_power_dbm: self.tx_power_dbm,
                preamble_len: self.preamble,
                header_mode: LoRaHeaderMode::Explicit,
                payload_crc: true,
                iq_invert: false,
            },
        )
    }
}

/// Law: a config that passed validation is within the hardware's ranges.
pub proof fn law_validated_config_in_range(s: RadioSectionView, found: Option<LoRaBandwidth>)
    requires
        lora_config_of(s, found) is Ok,
    ensures
        ({
            let c = lora_config_of(s, found)->Ok_0;
            &&& 7 <= c.sf <= 12
            &&& 150_000_000 <= c.freq_hz <= 1_020_000_000
            &&& 5 <= c.cr.spec_denominator() <= 8
            &&& c.cr.spec_denominator() == s.coding_rate
        }),
{
}

/// Law: a section is accepted if and only if its spreading factor is 7 to 12,
/// its frequency 150 MHz to 1.02 GHz, its bandwidth known and its coding rate
/// 5 to 8. Every field of the radio config that results is then the setting
/// it came from, with an explicit header, a CRC, and IQ not inverted.
pub proof fn law_accepted_settings_are_kept(
    section: RadioSection,
    found: Option<LoRaBandwidth>,
    result: Result<LoRaConfig, ConfigError>,
)
    requires
        call_ensures(RadioSection::lora_config_with, (&section, found), result),
    ensures
        result is Ok <==> {
            &&& 7 <= section.spreading_factor <= 12
            &&& 150_000_000 <= section.frequency <= 1_020_000_000
            &&& found is Some
            &&& 5 <= section.coding_rate <= 8
        },
        result matches Ok(c) ==> {
            &&& c.sf == section.spreading_factor
            &&& c.freq_hz == section.frequency
            &&& found == Some(c.bw)
            &&& section.coding_rate == 5 <==> c.cr == LoRaCodingRate::Cr4_5
            &&& section.coding_rate == 6 <==> c.cr == LoRaCodingRate::Cr4_6
            &&& section.coding_rate == 7 <==> c.cr == LoRaCodingRate::Cr4_7
            &&& section.coding_rate == 8 <==> c.cr == LoRaCodingRate::Cr4_8
            &&& c.sync_word == section.sync_word
            &&& c.tx_power_dbm == section.tx_power_dbm
            &&& c.preamble_len == section.preamble
            &&& c.header_mode == LoRaHeaderMode::Explicit
            &&& c.payload_crc
            &&& !c.iq_invert
        },
{
}

/// Law: a section that is refused is refused for the first of its settings
/// that is wrong, in the order spreading factor, frequency, bandwidth, coding
/// rate, and the error holds that setting.
pub proof fn law_refusal_names_the_first_wrong_setting(
    section: RadioSection,
    found: Option<LoRaBandwidth>,
    result: Result<LoRaConfig, ConfigError>,
)
    requires
        call_ensures(RadioSection::lora_config_with, (&section, found), result),
    ensures
        ({
            let sf_wrong = section.spreading_factor < 7 || section.spreading_factor > 12;
            let freq_wrong = section.frequency < 150_000_000 || section.frequency > 1_020_000_000;
            result matches Err(e) ==> {
                &&& sf_wrong ==> e == ConfigError::SpreadingFactor(section.spreading_factor)
                &&& !sf_wrong && freq_wrong ==> e == ConfigError::Frequency(section.frequency)
                &&& !sf_wrong && !freq_wrong && found is None ==> {
                    &&& e matches ConfigError::UnknownBandwidth(name)
                    &&& name@ == section.bandwidth@
                }
                &&& !sf_wrong && !freq_wrong && found is Some ==> e == ConfigError::CodingRate(
                    section.coding_rate,
                )
            }
        }),
{
}

/// Law: the config file's section is looked at with the bandwidth that its
/// name, in any case, stands for: all its settings are kept.
pub proof fn law_radio_section_is_kept(
    section: RadioSection,
    found: Option<LoRaBandwidth>,
    direct: Result<LoRaConfig, ConfigError>,
    given: Result<LoRaConfig, ConfigError>,
)
    requires
        call_ensures(RadioSection::to_lora_config, (&section,), direct),
        call_ensures(RadioSection::lora_config_with, (&section, found), given),
        found == bandwidth_named(text::lowered(section.bandwidth@)),
    ensures
        direct is Ok <==> given is Ok,
        direct matches Ok(c) ==> {
            &&& given == Ok::<LoRaConfig, ConfigError>(c)
            &&& c.sf == section.spreading_factor
            &&& c.freq_hz == section.frequency
            &&& found == Some(c.bw)
            &&& c.sync_word == section.sync_word
            &&& c.tx_power_dbm == section.tx_power_dbm
            &&& c.preamble_len == section.preamble
        },
{
}

/// Law: a `[tx]` section is accepted if and only if it allows an attempt and
/// its shortest backoff is not above its longest. Every field of the policy is
/// then the setting it came from; otherwise the error says which of the two,
/// the attempts first.
pub proof fn law_retry_settings_are_kept(
    section: TxSection,
    result: Result<RetryPolicy, ConfigError>,
)
    requires
        call_ensures(TxSection::to_retry_policy, (&section,), result),
    ensures
        result is Ok <==> section.max_attempts >= 1 && section.backoff_min_ms
            <= section.backoff_max_ms,
        result matches Ok(p) ==> {
            &&& p.max_attempts == section.max_attempts
            &&& p.backoff_ms_min == section.backoff_min_ms
            &&& p.backoff_ms_max == section.backoff_max_ms
            &&& p.backoff_cap_ms == section.backoff_cap_ms
            &&& p.backoff_multiplier_bits == section.backoff_multiplier_bits
            &&& p.per_attempt_timeout_secs == section.per_attempt_timeout_secs
            &&& p.skip_cad == section.skip_cad
        },
        result matches Err(e) ==> {
            &&& section.max_attempts == 0 ==> e == ConfigError::NoAttempts
            &&& section.max_attempts > 0 ==> e == (ConfigError::InvertedBackoff {
                min: section.backoff_min_ms,
                max: section.backoff_max_ms,
            })
        },
{
}

/// The retry policy of a `[tx]` section.
pub open spec fn retry_policy_of(s: TxSection) -> Result<RetryPolicy, ConfigErrorView> {
    if s.max_attempts == 0 {
        Err(ConfigErrorView::NoAttempts)
    } else if s.backoff_min_ms > s.backoff_max_ms {
        Err(ConfigErrorView::InvertedBackoff { min: s.backoff_min_ms, max: s.backoff_max_ms })
    } else {
        Ok(
            RetryPolicy {
                max_attempts: s.max_attempts,
                backoff_ms_min: s.backoff_min_ms,
                backoff_ms_max: s.backoff_max_ms,
                backoff_multiplier_bits: s.backoff_multiplier_bits,
                backoff_cap_ms: s.backoff_cap_ms,
                per_attempt_timeout_secs: s.per_attempt_timeout_secs,
                skip_cad: s.skip_cad,
            },
        )
    }
}

impl TxSection {
    /// Materialize the section into a [`RetryPolicy`].
    pub fn to_retry_policy(&self) -> (r: Result<RetryPolicy, ConfigError>)
        ensures
            result_view(r) == retry_policy_of(*self),
    {
        if self.max_attempts == 0 {
            return Err(ConfigError::NoAttempts);
        }
        if self.backoff_min_ms > self.backoff_max_ms {
            return Err(
                ConfigError::InvertedBackoff { min: self.backoff_min_ms, max: self.backoff_max_ms },
            );
        }
        Ok(
            RetryPolicy {
                max_attempts: self.max_attempts,
                backoff_ms_min: self.backoff_min_ms,
                backoff_ms_max: self.backoff_max_ms,
                backoff_multiplier_bits: self.backoff_multiplier_bits,
                backoff_cap_ms: self.backoff_cap_ms,
                per_attempt_timeout_secs: self.per_attempt_timeout_secs,
                skip_cad: self.skip_cad,
            },
        )
    }
}

/// Law: a message about a setting ends with or holds what was set, as it is
/// shown, and says what is allowed; any other says what is missing.
pub proof fn law_messages_show_the_setting(e: ConfigError, out: String)
    requires
        call_ensures(ConfigError::message, (&e,), out),
    ensures
        e matches ConfigError::SpreadingFactor(v) ==> out@ == "spreading_factor must be 7-12, got "@
            + text::decimal(v as nat),
        e matches ConfigError::CodingRate(v) ==> out@
            == "coding_rate must be 5-8 (meaning 4/5 to 4/8), got "@ + text::decimal(v as nat),
        e matches ConfigError::UnknownBandwidth(name) ==> out@ == "unknown bandwidth: "@ + name@,
        e matches ConfigError::Frequency(v) ==> out@ == "frequency "@ + lora::mhz(v as nat)
            + " MHz out of range (150 MHz to 1.02 GHz)"@,
        e matches ConfigError::InvertedBackoff { min, max } ==> out@ == "tx.backoff_min_ms ("@
            + text::decimal(min as nat) + ") must not exceed backoff_max_ms ("@ + text::decimal(
            max as nat,
        ) + ")"@,
        e is NoAttempts ==> out@ == "tx.max_attempts must be >= 1"@,
        e is PassphraseRequired ==> out@
            == "passphrase is required — run `donglora-bridge config` to set it"@,
        e is NoConfigDir ==> out@ == "cannot determine config directory"@,
        e is NoStateDir ==> out@ == "cannot determine state directory"@,
{
}

// ── Files ───────────────────────────────────────────────────────────

/// A path with one more component.
pub open spec fn joined(base: Seq<char>, name: Seq<char>) -> Seq<char> {
    if base.len() == 0 || base.last() == '/' {
        base + name
    } else {
        base + "/"@ + name
    }
}

fn ends_with_slash(s: &str) -> (r: bool)
    requires
        s@.len() > 0,
    ensures
        r == (s@.last() == '/'),
{
    let n: usize = s.unicode_len();
    s.get_char(n - 1) == '/'
}

/// A path with one more component.
pub fn join_path(base: &str, name: &str) -> (out: String)
    ensures
        out@ == joined(base@, name@),
{
    let mut out: String = base.to_owned();
    if !base.is_empty() && !ends_with_slash(base) {
        out.append("/");
    }
    out.append(name);
    out
}

/// Law: a joined path is the base, then the name, with one slash between them
/// where the base does not end in one; an empty base gives the name alone.
pub proof fn law_joined_path(base: &str, name: &str, out: String)
    requires
        call_ensures(join_path, (base, name), out),
    ensures
        out@.take(base@.len() as int) == base@,
        out@.skip(out@.len() - name@.len()) == name@,
        base@.len() == 0 ==> out@ == name@,
        base@.len() > 0 ==> out@[out@.len() - name@.len() - 1] == '/',
        base@.len() > 0 && base@.last() == '/' <==> base@.len() > 0 && out@.len() == base@.len()
            + name@.len(),
        out@.len() <= base@.len() + name@.len() + 1,
{
    reveal_strlit("/");
    assert(out@.take(base@.len() as int) =~= base@);
    assert(out@.skip(out@.len() - name@.len()) =~= name@);
    assert(base@.len() == 0 ==> out@ =~= name@);
}

/// The bridge's directory below a base directory.
pub open spec fn bridge_dir(base: Seq<char>) -> Seq<char> {
    joined(base, "donglora-bridge"@)
}

/// Default config directory: `donglora-bridge` below the user's config directory.
pub fn config_dir(user_config_dir: Option<String>) -> (r: Result<String, ConfigError>)
    ensures
        match (user_config_dir, r) {
            (Some(base), Ok(dir)) => dir@ == bridge_dir(base@),
            (None, Err(e)) => e == ConfigError::NoConfigDir,
            _ => false,
        },
{
    match user_config_dir {
        Some(base) => Ok(join_path(base.as_str(), "donglora-bridge")),
        None => Err(ConfigError::NoConfigDir),
    }
}

/// Default config file path.
pub fn config_path(user_config_dir: Option<String>) -> (r: Result<String, ConfigError>)
    ensures
        match (user_config_dir, r) {
            (Some(base), Ok(path)) => path@ == joined(bridge_dir(base@), "config.toml"@),
            (None, Err(e)) => e == ConfigError::NoConfigDir,
            _ => false,
        },
{
    match config_dir(user_config_dir) {
        Ok(dir) => Ok(join_path(dir.as_str(), "config.toml")),
        Err(e) => Err(e),
    }
}

/// Default log file path: `donglora-bridge/bridge.log` below the user's state
/// directory, or below the local data directory where there is none.
pub fn default_log_path(state_dir: Option<String>, data_local_dir: Option<String>) -> (r: Result<
    String,
    ConfigError,
>)
    ensures
        match (state_dir, data_local_dir, r) {
            (Some(base), _, Ok(path)) => path@ == joined(bridge_dir(base@), "bridge.log"@),
            (None, Some(base), Ok(path)) => path@ == joined(bridge_dir(base@), "bridge.log"@),
            (None, None, Err(e)) => e == ConfigError::NoStateDir,
            _ => false,
        },
{
    let base: String = match state_dir {
        Some(base) => base,
        None => match data_local_dir {
            Some(base) => base,
            None => {
                return Err(ConfigError::NoStateDir);
            },
        },
    };
    let dir: String = join_path(base.as_str(), "donglora-bridge");
    Ok(join_path(dir.as_str(), "bridge.log"))
}

/// A passphrase has been chosen.
pub open spec fn passphrase_chosen(passphrase: Seq<char>) -> bool {
    passphrase.len() > 0 && passphrase != "change-me"@
}

/// Whether a passphrase has been chosen.
pub fn passphrase_set(passphrase: &str) -> (r: bool)
    ensures
        r == passphrase_chosen(passphrase@),
{
    !passphrase.is_empty() && !same_text(passphrase, "change-me")
}

/// Law: a config is refused if and only if its passphrase is empty or the
/// placeholder, and is handed on as it is otherwise.
pub proof fn law_passphrase_is_required(
    cfg: Config,
    r: Result<Config, ConfigError>,
    passphrase: &str,
    set: bool,
)
    requires
        call_ensures(check_config, (cfg,), r),
        call_ensures(passphrase_set, (passphrase,), set),
    ensures
        set <==> passphrase@.len() > 0 && passphrase@ != "change-me"@,
        r is Err <==> cfg.bridge.passphrase@.len() == 0 || cfg.bridge.passphrase@ == "change-me"@,
        r matches Err(e) ==> e == ConfigError::PassphraseRequired,
        r matches Ok(c) ==> c == cfg,
{
}

/// Law: where the bridge's files are by default: in `donglora-bridge` below
/// the directory of the user's configs, of their state, or, without one, of
/// their local data; without any of these there is no such file.
pub proof fn law_default_paths(
    base: Option<String>,
    data: Option<String>,
    dir: Result<String, ConfigError>,
    path: Result<String, ConfigError>,
    log: Result<String, ConfigError>,
)
    requires
        call_ensures(config_dir, (base,), dir),
        call_ensures(config_path, (base,), path),
        call_ensures(default_log_path, (base, data), log),
    ensures
        base is None ==> {
            &&& dir == Err::<String, ConfigError>(ConfigError::NoConfigDir)
            &&& path == Err::<String, ConfigError>(ConfigError::NoConfigDir)
        },
        base is None && data is None ==> log == Err::<String, ConfigError>(ConfigError::NoStateDir),
        base matches Some(b) ==> {
            &&& dir is Ok && dir->Ok_0@ == joined(b@, "donglora-bridge"@)
            &&& path is Ok && path->Ok_0@ == joined(dir->Ok_0@, "config.toml"@)
            &&& log is Ok && log->Ok_0@ == joined(dir->Ok_0@, "bridge.log"@)
        },
        base is None ==> {
            data matches Some(d) ==> log is Ok && log->Ok_0@ == joined(
                joined(d@, "donglora-bridge"@),
                "bridge.log"@,
            )
        },
{
}

/// Accept a config that was read from a file, if its passphrase has been chosen.
pub fn check_config(cfg: Config) -> (r: Result<Config, ConfigError>)
    ensures
        match r {
            Ok(c) => c == cfg && passphrase_chosen(cfg.bridge.passphrase@),
            Err(e) => e == ConfigError::PassphraseRequired && !passphrase_chosen(
                cfg.bridge.passphrase@,
            ),
        },
{
    if passphrase_set(cfg.bridge.passphrase.as_str()) {
        Ok(cfg)
    } else {
        Err(ConfigError::PassphraseRequired)
    }
}

} // verus!
