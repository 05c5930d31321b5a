//! Starting up: which mode to run in, where files are, and what is derived
//! from the config before the bridge runs.

use vstd::prelude::*;
use vstd::string::*;

use crate::config;
use crate::config::{config_path, default_log_path, Config, ConfigError, ConfigErrorView};
use crate::lora::LoRaConfig;
use crate::radio::RetryPolicy;
use crate::rate_limit;
use crate::rate_limit::{LimiterView, RateLimiter};
use crate::text;

verus! {

/// What the program does when started.
#[derive(Debug, Clone, Copy, PartialEq, Eq, Structural)]
pub enum StartMode {
    /// The setup wizard was asked for; an existing config gives its defaults.
    Wizard { existing: bool },
    /// There is no config: greet, and run the setup wizard.
    FirstRun,
    /// Load the config and run the bridge.
    Bridge,
}

/// What to do when started with or without the `config` command, and with or
/// without a config file.
pub fn start_mode(config_command: bool, config_exists: bool) -> (m: StartMode)
    ensures
        m == if config_command {
            StartMode::Wizard { existing: config_exists }
        } else if !config_exists {
            StartMode::FirstRun
        } else {
            StartMode::Bridge
        },
{
    if config_command {
        StartMode::Wizard { existing: config_exists }
    } else if !config_exists {
        StartMode::FirstRun
    } else {
        StartMode::Bridge
    }
}

/// Law: the wizard runs if it is asked for or if there is no config; only a
/// config that exists gives it its defaults; and the bridge runs otherwise.
pub proof fn law_start(command: bool, exists_already: bool, m: StartMode)
    requires
        call_ensures(start_mode, (command, exists_already), m),
    ensures
        m == StartMode::Bridge <==> !command && exists_already,
        m == StartMode::FirstRun <==> !command && !exists_already,
        m matches StartMode::Wizard { existing } ==> command && existing == exists_already,
{
}

/// The config file: the one named on the command line, or else the default.
pub fn resolve_config_path(named: Option<String>, user_config_dir: Option<String>) -> (r: Result<
    String,
    ConfigError,
>)
    ensures
        match (named, user_config_dir, r) {
            (Some(p), _, Ok(path)) => path@ == p@,
            (None, Some(base), Ok(path)) => path@ == config::joined(
                config::bridge_dir(base@),
                "config.toml"@,
            ),
            (None, None, Err(e)) => e == ConfigError::NoConfigDir,
            _ => false,
        },
{
    match named {
        Some(p) => Ok(p),
        None => config_path(user_config_dir),
    }
}

/// The log file: the configured one, or else the default, or else one in the
/// temporary directory.
pub fn resolve_log_path(
    log_file: Option<String>,
    state_dir: Option<String>,
    data_local_dir: Option<String>,
) -> (path: String)
    ensures
        path@ == match (log_file, state_dir, data_local_dir) {
            (Some(p), _, _) => p@,
            (None, Some(base), _) => config::joined(config::bridge_dir(base@), "bridge.log"@),
            (None, None, Some(base)) => config::joined(config::bridge_dir(base@), "bridge.log"@),
            (None, None, None) => "/tmp/donglora-bridge.log"@,
        },
{
    match log_file {
        Some(p) => p,
        None => match default_log_path(state_dir, data_local_dir) {
            Ok(p) => p,
            Err(_) => "/tmp/donglora-bridge.log".to_owned(),
        },
    }
}

/// Law: a file that is named is taken as it is named, whatever directories
/// there are; without a name or a directory there is no config, and the log
/// goes to the temporary directory; the state directory goes before the data
/// directory.
pub proof fn law_named_files_are_taken(
    name: String,
    dir: Option<String>,
    other: Option<String>,
    config: Result<String, ConfigError>,
    log: String,
    unnamed_config: Result<String, ConfigError>,
    unnamed_log: String,
)
    requires
        call_ensures(resolve_config_path, (Some(name), dir), config),
        call_ensures(resolve_log_path, (Some(name), dir, other), log),
        call_ensures(resolve_config_path, (None, dir), unnamed_config),
        call_ensures(resolve_log_path, (None, dir, other), unnamed_log),
    ensures
        config is Ok && config->Ok_0@ == name@,
        log@ == name@,
        unnamed_config is Err <==> dir is None,
        dir matches Some(d) ==> {
            &&& unnamed_config->Ok_0@ == config::joined(
                config::joined(d@, "donglora-bridge"@),
                "config.toml"@,
            )
            &&& unnamed_log@ == config::joined(
                config::joined(d@, "donglora-bridge"@),
                "bridge.log"@,
            )
        },
        dir is None ==> {
            other matches Some(d) ==> unnamed_log@ == config::joined(
                config::joined(d@, "donglora-bridge"@),
                "bridge.log"@,
            )
        },
        dir is None && other is None ==> unnamed_log@ == "/tmp/donglora-bridge.log"@,
{
}

/// The dedup window in nanoseconds, or the longest time that can be counted.
pub fn dedup_window_nanos(secs: u64) -> (nanos: u64)
    ensures
        nanos == if secs * 1_000_000_000 <= u64::MAX {
            secs * 1_000_000_000
        } else {
            u64::MAX as int
        },
{
    if secs <= 18_446_744_073 {
        secs * 1_000_000_000
    } else {
        u64::MAX
    }
}

/// Law: the dedup window is the whole number of seconds asked for, or, where
/// that cannot be counted in nanoseconds, the longest time that can.
pub proof fn law_window_in_seconds(secs: u64, nanos: u64)
    requires
        call_ensures(dedup_window_nanos, (secs,), nanos),
    ensures
        secs <= 18_446_744_073 ==> nanos / 1_000_000_000 == secs && nanos % 1_000_000_000 == 0,
        secs > 18_446_744_073 ==> nanos == 18_446_744_073_709_551_615,
{
}

/// What the bridge runs with.
#[derive(Debug)]
pub struct Prepared {
    pub radio: LoRaConfig,
    pub retry: RetryPolicy,
    pub limiter: RateLimiter,
}

/// The limiter of a radio config.
pub open spec fn limiter_of(c: LoRaConfig, override_pps_bits: Option<u64>, now: u64) -> LimiterView {
    LimiterView::full(
        rate_limit::radio_rate(
            c.sf as int,
            c.bw,
            c.cr.spec_denominator() as int,
            c.preamble_len as int,
            override_pps_bits,
        ),
        rate_limit::radio_share(override_pps_bits),
        now as int,
    )
}

/// Law: the bridge runs with what the config says. Its radio config and its
/// retry policy hold the settings of their sections, and its rate limiter,
/// without an override, allows one packet in twice the time on air of 50 bytes
/// under those settings.
pub proof fn law_bridge_runs_with_its_config(
    cfg: Config,
    now: u64,
    p: Prepared,
    rate: rate_limit::Rate,
    air: u128,
)
    requires
        call_ensures(prepare, (&cfg, now), Ok(p)),
        call_ensures(RateLimiter::rate_pps, (&p.limiter,), rate),
        call_ensures(
            rate_limit::lora_air_time,
            (
                50,
                cfg.radio.spreading_factor,
                p.radio.bw,
                cfg.radio.coding_rate,
                cfg.radio.preamble,
            ),
            air,
        ),
    ensures
        7 <= cfg.radio.spreading_factor <= 12,
        p.radio.sf == cfg.radio.spreading_factor,
        p.radio.freq_hz == cfg.radio.frequency,
        p.radio.sync_word == cfg.radio.sync_word,
        p.radio.tx_power_dbm == cfg.radio.tx_power_dbm,
        p.radio.preamble_len == cfg.radio.preamble,
        p.retry.max_attempts == cfg.tx.max_attempts,
        p.retry.backoff_ms_min == cfg.tx.backoff_min_ms,
        p.retry.backoff_ms_max == cfg.tx.backoff_max_ms,
        p.retry.backoff_cap_ms == cfg.tx.backoff_cap_ms,
        p.retry.per_attempt_timeout_secs == cfg.tx.per_attempt_timeout_secs,
        p.retry.skip_cad == cfg.tx.skip_cad,
        cfg.bridge.rate_limit_pps_bits is None ==> {
            &&& rate.packets == 1
            &&& rate.exponent == 0
            &&& rate.nanos == 2 * air
        },
        cfg.bridge.rate_limit_pps_bits matches Some(bits) ==> rate == rate_limit::asked_rate(bits),
        p.limiter@.last_refill == now,
{
    rate_limit::law_derived_rate_is_half_the_air(
        p.radio.sf as int,
        p.radio.bw,
        cfg.radio.coding_rate as int,
        p.radio.preamble_len as int,
    );
}

/// Law: a bridge that cannot run is told what is wrong with its radio
/// section, or, where nothing is, with its retry settings.
pub proof fn law_radio_faults_come_first(
    cfg: Config,
    now: u64,
    e: ConfigError,
    radio: Result<LoRaConfig, ConfigError>,
    retry: Result<RetryPolicy, ConfigError>,
)
    requires
        call_ensures(prepare, (&cfg, now), Err(e)),
        call_ensures(config::RadioSection::to_lora_config, (&cfg.radio,), radio),
        call_ensures(config::TxSection::to_retry_policy, (&cfg.tx,), retry),
    ensures
        radio is Err ==> e@ == radio->Err_0@,
        radio is Ok ==> retry is Err && e@ == retry->Err_0@,
{
}

/// Derive from a config what the bridge runs with: the radio config, the
/// retry policy and the rate limiter, or the first thing wrong with them.
pub fn prepare(cfg: &Config, now: u64) -> (r: Result<
    Prepared,
    ConfigError,
>)
    ensures
        ({
            let radio = config::lora_config_of(
                cfg.radio@,
                config::bandwidth_named(text::lowered(cfg.radio.bandwidth@)),
            );
            let retry = config::retry_policy_of(cfg.tx);
            match r {
                Ok(p) => {
                    &&& radio == Ok::<LoRaConfig, ConfigErrorView>(p.radio)
                    &&& retry == Ok::<RetryPolicy, ConfigErrorView>(p.retry)
                    &&& p.limiter.wf()
                    &&& p.limiter@ == limiter_of(p.radio, cfg.bridge.rate_limit_pps_bits, now)
                },
                Err(e) => match radio {
                    Err(x) => e@ == x,
                    Ok(_) => retry == Err::<RetryPolicy, ConfigErrorView>(e@),
                },
            }
        }),
{
    let radio: LoRaConfig = match cfg.radio.to_lora_config() {
        Ok(c) => c,
        Err(e) => {
            return Err(e);
        },
    };
    let retry: RetryPolicy = match cfg.tx.to_retry_policy() {
        Ok(p) => p,
        Err(e) => {
            return Err(e);
        },
    };
    proof {
        config::law_validated_config_in_range(
            cfg.radio@,
            config::bandwidth_named(text::lowered(cfg.radio.bandwidth@)),
        );
    }
    let limiter: RateLimiter = RateLimiter::from_radio_config(
        radio.sf,
        radio.bw,
        radio.cr.denominator(),
        radio.preamble_len,
        cfg.bridge.rate_limit_pps_bits,
        now,
    );
    Ok(Prepared { radio, retry, limiter })
}

} // verus!
