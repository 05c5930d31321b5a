//! The radio task's decisions: connecting and reconnecting, choosing the
//! active config, grading received packets, and reporting transmissions.

use vstd::prelude::*;
use vstd::string::*;

use crate::lora;
use crate::lora::{LoRaBandwidth, LoRaConfig};
use crate::packet;
use crate::packet::{PacketView, RadioPacket, snr_grade};
use crate::text;

verus! {

/// How the radio config was resolved.
#[derive(Debug, Clone, Copy, PartialEq, Eq, Structural)]
pub enum ConfigSource {
    /// We set the config ourselves.
    Ours,
    /// The mux already had a locked config; we adopted it.
    Mux,
}

/// Why a TX attempt was retried — carried alongside the retry event for
/// the TUI.
#[derive(Debug, Clone, Copy, PartialEq, Eq, Structural)]
pub enum TxRetryReason {
    /// CAD detected channel activity before TX.
    ChannelBusy,
    /// Firmware TX queue was full.
    QueueFull,
    /// Other retryable condition (future-compat).
    Other,
}

impl TxRetryReason {
    /// The label of a reason.
    pub open spec fn text(self) -> Seq<char> {
        match self {
            TxRetryReason::ChannelBusy => "channel_busy"@,
            TxRetryReason::QueueFull => "queue_full"@,
            TxRetryReason::Other => "other"@,
        }
    }

    /// The label of a reason.
    pub fn label(self) -> (out: String)
        ensures
            out@ == self.text(),
    {
        match self {
            TxRetryReason::ChannelBusy => "channel_busy".to_owned(),
            TxRetryReason::QueueFull => "queue_full".to_owned(),
            TxRetryReason::Other => "other".to_owned(),
        }
    }
}

/// Messages from the radio task to the router.
#[derive(Debug)]
pub enum RadioEvent {
    /// A valid packet received from the radio (already SNR-filtered).
    Packet(RadioPacket),
    /// Radio connected (or reconnected) with the active config and device info.
    Connected(LoRaConfig, ConfigSource, String),
    /// Radio disconnected — attempting reconnect.
    Disconnected,
    /// TX attempt started. `attempt` is 1-indexed.
    TxAttempt { seq: u64, attempt: u8, total_attempts: u8, size: usize },
    /// Previous TX attempt failed and a retry is scheduled.
    TxRetry {
        seq: u64,
        attempt_that_failed: u8,
        total_attempts: u8,
        reason: TxRetryReason,
        backoff_ms: u32,
    },
    /// TX completed successfully (perhaps after retries).
    TxSucceeded {
        seq: u64,
        attempts_used: u8,
        total_attempts: u8,
        final_airtime_us: u32,
        size: usize,
    },
    /// TX policy exhausted or errored terminally.
    TxFailed { seq: u64, attempts_used: u8, reason: String, size: usize },
}

/// What a [`RadioEvent`] says.
#[verifier::ext_equal]
pub enum RadioEventView {
    Packet(PacketView),
    Connected(LoRaConfig, ConfigSource, Seq<char>),
    Disconnected,
    TxAttempt { seq: u64, attempt: u8, total_attempts: u8, size: usize },
    TxRetry {
        seq: u64,
        attempt_that_failed: u8,
        total_attempts: u8,
        reason: TxRetryReason,
        backoff_ms: u32,
    },
    TxSucceeded {
        seq: u64,
        attempts_used: u8,
        total_attempts: u8,
        final_airtime_us: u32,
        size: usize,
    },
    TxFailed { seq: u64, attempts_used: u8, reason: Seq<char>, size: usize },
}

impl View for RadioEvent {
    type V = RadioEventView;

    open spec fn view(&self) -> RadioEventView {
        match *self {
            RadioEvent::Packet(p) => RadioEventView::Packet(p@),
            RadioEvent::Connected(c, s, d) => RadioEventView::Connected(c, s, d@),
            RadioEvent::Disconnected => RadioEventView::Disconnected,
            RadioEvent::TxAttempt { seq, attempt, total_attempts, size } => {
                RadioEventView::TxAttempt { seq, attempt, total_attempts, size }
            },
            RadioEvent::TxRetry { seq, attempt_that_failed, total_attempts, reason, backoff_ms } => {
                RadioEventView::TxRetry {
                    seq,
                    attempt_that_failed,
                    total_attempts,
                    reason,
                    backoff_ms,
                }
            },
            RadioEvent::TxSucceeded {
                seq,
                attempts_used,
                total_attempts,
                final_airtime_us,
                size,
            } => {
                RadioEventView::TxSucceeded {
                    seq,
                    attempts_used,
                    total_attempts,
                    final_airtime_us,
                    size,
                }
            },
            RadioEvent::TxFailed { seq, attempts_used, reason, size } => {
                RadioEventView::TxFailed { seq, attempts_used, reason: reason@, size }
            },
        }
    }
}

/// One outbound TX request from the router: the payload plus a sequence id so
/// the event stream can correlate back to the packet log entry.
#[derive(Debug)]
pub struct TxRequest {
    pub seq: u64,
    pub data: Vec<u8>,
}

// ── Reconnecting ────────────────────────────────────────────────────

/// First wait before a reconnect, in milliseconds.
pub const INITIAL_BACKOFF_MS: u64 = 250;

/// Longest wait before a reconnect, in milliseconds.
pub const MAX_BACKOFF_MS: u64 = 5_000;

/// A session that lasted longer than this, in nanoseconds, resets the wait.
pub const STABLE_SESSION_NANOS: u64 = 5_000_000_000;

/// Which transports a connection attempt may use.
#[derive(Debug, Clone, Copy, PartialEq, Eq, Structural)]
pub enum ConnectMode {
    /// The normal auto-discovery chain.
    Auto,
    /// The mux only: a mux connection was made before, and the serial port is its own.
    MuxOnly,
}

/// How a radio session ended.
#[derive(Debug, Clone, Copy, PartialEq, Eq, Structural)]
pub enum SessionEnd {
    /// The session ended without an error.
    Clean { was_mux: bool, router_closed: bool },
    /// Connecting failed, or the session ended with an error.
    Failed { was_mux: bool },
}

/// What the radio task does after a session.
#[derive(Debug, Clone, Copy, PartialEq, Eq, Structural)]
pub enum NextStep {
    /// The router is gone: stop.
    Exit,
    /// Connect again at once.
    Reconnect,
    /// Report the disconnect, wait, and connect again.
    ReportAndRetry { backoff_ms: u64 },
}

/// The state that the radio task keeps from one session to the next.
#[derive(Debug, Clone, Copy, PartialEq, Eq, Structural)]
pub struct RadioLoop {
    pub backoff_ms: u64,
    pub stick_to_mux: bool,
}

impl RadioLoop {
    /// The wait stays between its bounds.
    pub open spec fn wf(self) -> bool {
        INITIAL_BACKOFF_MS <= self.backoff_ms <= MAX_BACKOFF_MS
    }

    /// The transports that the next attempt may use.
    pub open spec fn spec_mode(self) -> ConnectMode {
        if self.stick_to_mux {
            ConnectMode::MuxOnly
        } else {
            ConnectMode::Auto
        }
    }

    /// The wait before the next attempt, after a session of `lasted_nanos`.
    pub open spec fn wait_after(self, lasted_nanos: u64) -> u64 {
        if lasted_nanos > STABLE_SESSION_NANOS {
            INITIAL_BACKOFF_MS
        } else {
            self.backoff_ms
        }
    }

    /// The state after a session of `lasted_nanos` ended.
    pub open spec fn after(self, end: SessionEnd, lasted_nanos: u64) -> RadioLoop {
        match end {
            SessionEnd::Clean { was_mux, router_closed } => if router_closed {
                self
            } else {
                RadioLoop { stick_to_mux: self.stick_to_mux || was_mux, ..self }
            },
            SessionEnd::Failed { was_mux } => RadioLoop {
                stick_to_mux: self.stick_to_mux || was_mux,
                backoff_ms: if 2 * self.wait_after(lasted_nanos) < MAX_BACKOFF_MS {
                    (2 * self.wait_after(lasted_nanos)) as u64
                } else {
                    MAX_BACKOFF_MS
                },
            },
        }
    }

    /// What is done after a session of `lasted_nanos` ended.
    pub open spec fn step(self, end: SessionEnd, lasted_nanos: u64) -> NextStep {
        match end {
            SessionEnd::Clean { was_mux, router_closed } => if router_closed {
                NextStep::Exit
            } else {
                NextStep::Reconnect
            },
            SessionEnd::Failed { was_mux } => NextStep::ReportAndRetry {
                backoff_ms: self.wait_after(lasted_nanos),
            },
        }
    }

    /// The state before the first connection.
    pub fn new() -> (r: RadioLoop)
        ensures
            r == (RadioLoop { backoff_ms: INITIAL_BACKOFF_MS, stick_to_mux: false }),
            r.wf(),
    {
        RadioLoop { backoff_ms: INITIAL_BACKOFF_MS, stick_to_mux: false }
    }

    /// The transports that the next attempt may use.
    pub fn mode(&self) -> (m: ConnectMode)
        ensures
            m == self.spec_mode(),
    {
        if self.stick_to_mux {
            ConnectMode::MuxOnly
        } else {
            ConnectMode::Auto
        }
    }

    /// How an attempt counts that never got as far as a session.
    pub fn connect_failed(&self) -> (end: SessionEnd)
        ensures
            end == (SessionEnd::Failed { was_mux: self.stick_to_mux }),
    {
        SessionEnd::Failed { was_mux: self.stick_to_mux }
    }

    /// Decide what follows a session that lasted `lasted_nanos` nanoseconds.
    pub fn session_ended(&mut self, end: SessionEnd, lasted_nanos: u64) -> (next: NextStep)
        requires
            old(self).wf(),
        ensures
            final(self).wf(),
            *final(self) == old(self).after(end, lasted_nanos),
            next == old(self).step(end, lasted_nanos),
            end matches SessionEnd::Clean { router_closed, .. } ==> {
                &&& router_closed ==> next == NextStep::Exit
                &&& !router_closed ==> next == NextStep::Reconnect
                &&& final(self).backoff_ms == old(self).backoff_ms
            },
            end matches SessionEnd::Failed { .. } ==> {
                &&& next matches NextStep::ReportAndRetry { backoff_ms }
                &&& backoff_ms == if lasted_nanos > 5_000_000_000 {
                    250
                } else {
                    old(self).backoff_ms
                }
                &&& final(self).backoff_ms == if backoff_ms <= 2_500 {
                    2 * backoff_ms
                } else {
                    5_000
                }
            },
    {
        match end {
            SessionEnd::Clean { was_mux, router_closed } => {
                if router_closed {
                    return NextStep::Exit;
                }
                if was_mux {
                    self.stick_to_mux = true;
                }
                NextStep::Reconnect
            },
            SessionEnd::Failed { was_mux } => {
                if was_mux {
                    self.stick_to_mux = true;
                }
                if lasted_nanos > STABLE_SESSION_NANOS {
                    self.backoff_ms = INITIAL_BACKOFF_MS;
                }
                let wait: u64 = self.backoff_ms;
                self.backoff_ms = if 2 * wait < MAX_BACKOFF_MS {
                    2 * wait
                } else {
                    MAX_BACKOFF_MS
                };
                NextStep::ReportAndRetry { backoff_ms: wait }
            },
        }
    }
}

/// The state after a run of sessions, each given by how it ended and how long it lasted.
pub open spec fn after_sessions(r: RadioLoop, ends: Seq<(SessionEnd, u64)>) -> RadioLoop
    decreases ends.len(),
{
    if ends.len() == 0 {
        r
    } else {
        after_sessions(r, ends.drop_last()).after(ends.last().0, ends.last().1)
    }
}

/// Law: once a session ran over the mux (and the router was still there),
/// every later attempt is mux-only, whatever happens in between.
pub proof fn law_mux_is_sticky(
    r: RadioLoop,
    end: SessionEnd,
    lasted_nanos: u64,
    later: Seq<(SessionEnd, u64)>,
)
    requires
        match end {
            SessionEnd::Clean { was_mux, router_closed } => was_mux && !router_closed,
            SessionEnd::Failed { was_mux } => was_mux,
        },
    ensures
        after_sessions(r.after(end, lasted_nanos), later).spec_mode() == ConnectMode::MuxOnly,
    decreases later.len(),
{
    if later.len() > 0 {
        law_mux_is_sticky(r, end, lasted_nanos, later.drop_last());
    }
}

/// Law: with no mux session, the auto-discovery chain stays in use.
pub proof fn law_auto_without_mux(r: RadioLoop, ends: Seq<(SessionEnd, u64)>)
    requires
        r.spec_mode() == ConnectMode::Auto,
        forall|i: int|
            0 <= i < ends.len() ==> match (#[trigger] ends[i]).0 {
                SessionEnd::Clean { was_mux, .. } => !was_mux,
                SessionEnd::Failed { was_mux } => !was_mux,
            },
    ensures
        after_sessions(r, ends).spec_mode() == ConnectMode::Auto,
    decreases ends.len(),
{
    if ends.len() > 0 {
        let before = ends.drop_last();
        assert forall|i: int| 0 <= i < before.len() implies match (#[trigger] before[i]).0 {
            SessionEnd::Clean { was_mux, .. } => !was_mux,
            SessionEnd::Failed { was_mux } => !was_mux,
        } by {
            assert(before[i] == ends[i]);
        }
        law_auto_without_mux(r, before);
        assert(ends.last() == ends[ends.len() - 1]);
    }
}

/// Twice `x`, `n` times over.
pub open spec fn doubled(x: int, n: nat) -> int
    decreases n,
{
    if n == 0 {
        x
    } else {
        2 * doubled(x, (n - 1) as nat)
    }
}

/// Law: the wait doubles with every failure of a short session, from a
/// quarter of a second up to five seconds.
pub proof fn law_backoff_doubles_to_cap(ends: Seq<(SessionEnd, u64)>)
    requires
        forall|i: int|
            0 <= i < ends.len() ==> (#[trigger] ends[i]).0 is Failed && ends[i].1
                <= STABLE_SESSION_NANOS,
    ensures
        ({
            let start = RadioLoop { backoff_ms: INITIAL_BACKOFF_MS, stick_to_mux: false };
            let wait = doubled(INITIAL_BACKOFF_MS as int, ends.len());
            after_sessions(start, ends).backoff_ms == if wait < MAX_BACKOFF_MS {
                wait
            } else {
                MAX_BACKOFF_MS as int
            }
        }),
    decreases ends.len(),
{
    if ends.len() > 0 {
        let before = ends.drop_last();
        assert forall|i: int| 0 <= i < before.len() implies (#[trigger] before[i]).0 is Failed
            && before[i].1 <= STABLE_SESSION_NANOS by {
            assert(before[i] == ends[i]);
        }
        law_backoff_doubles_to_cap(before);
        assert(ends.last() == ends[ends.len() - 1]);
    }
}

/// Law: a session that fails is followed by a report and a wait, in
/// milliseconds: 250 after a session of more than five seconds, and otherwise
/// twice the wait before, up to 5000. A session that ends cleanly is followed
/// by the next one at once and leaves the wait as it is, unless the router has
/// closed, which ends the task.
pub proof fn law_waits_between_sessions(r: RadioLoop, end: SessionEnd, lasted_nanos: u64)
    requires
        r.backoff_ms <= 5_000,
    ensures
        end matches SessionEnd::Failed { was_mux } ==> {
            let wait = if lasted_nanos > 5_000_000_000 {
                250
            } else {
                r.backoff_ms
            };
            &&& r.step(end, lasted_nanos) == (NextStep::ReportAndRetry { backoff_ms: wait })
            &&& r.after(end, lasted_nanos).backoff_ms <= 5_000
            &&& 2 * wait <= 5_000 ==> r.after(end, lasted_nanos).backoff_ms == 2 * wait
            &&& 2 * wait > 5_000 ==> r.after(end, lasted_nanos).backoff_ms == 5_000
            &&& r.after(end, lasted_nanos).stick_to_mux == (r.stick_to_mux || was_mux)
        },
        end matches SessionEnd::Clean { was_mux, router_closed } ==> {
            &&& r.step(end, lasted_nanos) == if router_closed {
                NextStep::Exit
            } else {
                NextStep::Reconnect
            }
            &&& r.after(end, lasted_nanos).backoff_ms == r.backoff_ms
            &&& !router_closed ==> r.after(end, lasted_nanos).stick_to_mux == (r.stick_to_mux
                || was_mux)
        },
{
}

/// Law: what follows a session. Without the router the task ends; after a
/// session that ended well it connects again at once; after a failure it
/// reports, and waits 250 ms where the session lasted more than five seconds
/// and else as long as it had come to, which then doubles up to five seconds.
/// Once a session ran over the mux, the task sticks to it.
pub proof fn law_session_ended(
    r: &mut RadioLoop,
    end: SessionEnd,
    lasted_nanos: u64,
    next: NextStep,
)
    requires
        call_ensures(RadioLoop::session_ended, (r, end, lasted_nanos), next),
        old(r).backoff_ms <= 5_000,
    ensures
        end matches SessionEnd::Clean { was_mux, router_closed } ==> {
            &&& router_closed ==> next == NextStep::Exit && *final(r) == *old(r)
            &&& !router_closed ==> next == NextStep::Reconnect && final(r).stick_to_mux == (
            old(r).stick_to_mux || was_mux)
            &&& final(r).backoff_ms == old(r).backoff_ms
        },
        end matches SessionEnd::Failed { was_mux } ==> {
            &&& next matches NextStep::ReportAndRetry { backoff_ms }
            &&& lasted_nanos > 5_000_000_000 ==> backoff_ms == 250
            &&& lasted_nanos <= 5_000_000_000 ==> backoff_ms == old(r).backoff_ms
            &&& 2 * backoff_ms <= 5_000 ==> final(r).backoff_ms == 2 * backoff_ms
            &&& 2 * backoff_ms > 5_000 ==> final(r).backoff_ms == 5_000
            &&& final(r).stick_to_mux == (old(r).stick_to_mux || was_mux)
        },
{
}

/// Law: a fresh task waits 250 ms after its first failure and may use any
/// transport; once it sticks to the mux it may use nothing else, and a failed
/// attempt to connect counts as one of the mux exactly then.
pub proof fn law_fresh_task_and_its_mode(
    fresh: RadioLoop,
    r: RadioLoop,
    mode: ConnectMode,
    failed: SessionEnd,
)
    requires
        call_ensures(RadioLoop::new, (), fresh),
        call_ensures(RadioLoop::mode, (&r,), mode),
        call_ensures(RadioLoop::connect_failed, (&r,), failed),
    ensures
        fresh.backoff_ms == 250,
        !fresh.stick_to_mux,
        mode == ConnectMode::MuxOnly <==> r.stick_to_mux,
        mode == ConnectMode::Auto <==> !r.stick_to_mux,
        failed == (SessionEnd::Failed { was_mux: r.stick_to_mux }),
{
}

// ── Sessions ────────────────────────────────────────────────────────

/// The modulation that a dongle reports after connecting.
#[derive(Debug, Clone, Copy, PartialEq, Eq, Structural)]
pub enum ReportedModulation {
    LoRa(LoRaConfig),
    /// Another client locked a modulation that is not `LoRa`.
    Other,
}

/// The config in force: the reported one, or the requested one where none is
/// reported or it is not `LoRa`.
pub open spec fn config_in_force(
    reported: Option<ReportedModulation>,
    requested: LoRaConfig,
) -> LoRaConfig {
    match reported {
        Some(ReportedModulation::LoRa(c)) => c,
        _ => requested,
    }
}

/// Determine the config in force and whose it is.
pub fn active_config(reported: Option<ReportedModulation>, requested: &LoRaConfig) -> (r: (
    LoRaConfig,
    ConfigSource,
))
    ensures
        r.0 == config_in_force(reported, *requested),
        r.1 == if config_in_force(reported, *requested) == *requested {
            ConfigSource::Ours
        } else {
            ConfigSource::Mux
        },
{
    let active: LoRaConfig = match reported {
        Some(ReportedModulation::LoRa(c)) => c,
        Some(ReportedModulation::Other) => *requested,
        None => *requested,
    };
    let source: ConfigSource = if lora_configs_match(&active, requested) {
        ConfigSource::Ours
    } else {
        ConfigSource::Mux
    };
    (active, source)
}

/// Law: when the dongle reports a `LoRa` config, that config is in force, in
/// every field, and it is ours if and only if it is the requested one in every
/// field. When it reports none, the requested one is in force, and is ours.
pub proof fn law_reported_config_is_adopted(
    reported: Option<ReportedModulation>,
    requested: LoRaConfig,
    given: (LoRaConfig, ConfigSource),
)
    requires
        call_ensures(active_config, (reported, &requested), given),
    ensures
        reported matches Some(ReportedModulation::LoRa(c)) ==> {
            &&& given.0.freq_hz == c.freq_hz
            &&& given.0.bw == c.bw
            &&& given.0.sf == c.sf
            &&& given.0.cr == c.cr
            &&& given.0.sync_word == c.sync_word
            &&& given.0.tx_power_dbm == c.tx_power_dbm
            &&& given.0.preamble_len == c.preamble_len
            &&& given.0.header_mode == c.header_mode
            &&& given.0.payload_crc == c.payload_crc
            &&& given.0.iq_invert == c.iq_invert
            &&& given.1 == ConfigSource::Ours <==> {
                &&& c.freq_hz == requested.freq_hz
                &&& c.bw == requested.bw
                &&& c.sf == requested.sf
                &&& c.cr == requested.cr
                &&& c.sync_word == requested.sync_word
                &&& c.tx_power_dbm == requested.tx_power_dbm
                &&& c.preamble_len == requested.preamble_len
                &&& c.header_mode == requested.header_mode
                &&& c.payload_crc == requested.payload_crc
                &&& c.iq_invert == requested.iq_invert
            }
            &&& given.1 == ConfigSource::Ours || given.1 == ConfigSource::Mux
        },
        !(reported matches Some(ReportedModulation::LoRa(_))) ==> given == (
            requested,
            ConfigSource::Ours,
        ),
{
}

/// Law: two configs match if and only if no field differs.
pub proof fn law_configs_match_in_every_field(a: LoRaConfig, b: LoRaConfig, same: bool)
    requires
        call_ensures(lora_configs_match, (&a, &b), same),
    ensures
        same <==> {
            &&& a.freq_hz == b.freq_hz
            &&& a.bw == b.bw
            &&& a.sf == b.sf
            &&& a.cr == b.cr
            &&& a.sync_word == b.sync_word
            &&& a.tx_power_dbm == b.tx_power_dbm
            &&& a.preamble_len == b.preamble_len
            &&& a.header_mode == b.header_mode
            &&& a.payload_crc == b.payload_crc
            &&& a.iq_invert == b.iq_invert
        },
{
}

/// Whether two configs agree in every field.
pub fn lora_configs_match(a: &LoRaConfig, b: &LoRaConfig) -> (r: bool)
    ensures
        r == (*a == *b),
{
    a.freq_hz == b.freq_hz && a.bw == b.bw && a.sf == b.sf && a.cr == b.cr && a.sync_word
        == b.sync_word && a.tx_power_dbm == b.tx_power_dbm && a.preamble_len == b.preamble_len
        && a.header_mode == b.header_mode && a.payload_crc == b.payload_crc && a.iq_invert
        == b.iq_invert
}

/// A packet as the dongle delivers it, levels in tenths of a dB.
#[derive(Debug, Clone)]
pub struct RxFrame {
    pub rssi_tenths_dbm: i16,
    pub snr_tenths_db: i16,
    pub data: Vec<u8>,
}

/// Tenths to whole units, halves away from zero.
pub open spec fn rounded_tenths(t: int) -> int {
    if t >= 0 {
        (t + 5) / 10
    } else {
        -((-t + 5) / 10)
    }
}

fn round_tenths(t: i16) -> (n: i16)
    ensures
        n == rounded_tenths(t as int),
{
    if t >= 0 {
        ((t as i32 + 5) / 10) as i16
    } else {
        (-((-(t as i32) + 5) / 10)) as i16
    }
}

/// The packet that a received frame becomes, if its SNR is good enough for
/// the spreading factor in force.
pub open spec fn received_packet(
    rssi_tenths: int,
    snr_tenths: int,
    data: Seq<u8>,
    sf: int,
) -> Option<PacketView> {
    if packet::grade_of(rounded_tenths(snr_tenths), sf).forwards() {
        Some(
            PacketView {
                rssi: rounded_tenths(rssi_tenths) as i16,
                snr: rounded_tenths(snr_tenths) as i16,
                payload: data,
            },
        )
    } else {
        None
    }
}

/// Grade a received frame; only a reliable one becomes an event.
pub fn handle_rx(pkt: RxFrame, active_config: &LoRaConfig) -> (r: Option<RadioEvent>)
    ensures
        match (
            r,
            received_packet(
                pkt.rssi_tenths_dbm as int,
                pkt.snr_tenths_db as int,
                pkt.data@,
                active_config.sf as int,
            ),
        ) {
            (Some(e), Some(p)) => e@ == RadioEventView::Packet(p),
            (None, None) => true,
            _ => false,
        },
{
    let rssi: i16 = round_tenths(pkt.rssi_tenths_dbm);
    let snr: i16 = round_tenths(pkt.snr_tenths_db);
    if !snr_grade(snr, active_config.sf).should_forward() {
        return None;
    }
    Some(RadioEvent::Packet(RadioPacket { rssi, snr, payload: pkt.data }))
}

/// `whole` is the whole number nearest to `tenths` tenths; of two that are as
/// near, the one farther from zero.
pub open spec fn nearest_whole(whole: int, tenths: int) -> bool {
    &&& -5 <= 10 * whole - tenths <= 5
    &&& 10 * whole - tenths == 5 ==> tenths > 0
    &&& 10 * whole - tenths == -5 ==> tenths < 0
}

/// Law: a received frame is passed on if and only if its SNR in whole dB is
/// valid and not below the demodulation floor of the spreading factor in
/// force; what is passed on is its payload and its two levels in whole units.
pub proof fn law_packet_passed_iff_reliable(
    pkt: RxFrame,
    active: LoRaConfig,
    rssi: int,
    snr: int,
    given: Option<RadioEvent>,
)
    requires
        call_ensures(handle_rx, (pkt, &active), given),
        nearest_whole(rssi, pkt.rssi_tenths_dbm as int),
        nearest_whole(snr, pkt.snr_tenths_db as int),
    ensures
        given is Some <==> -32 <= snr <= 32 && 2 * snr + 5 * (active.sf - 4) >= 0,
        given matches Some(event) ==> {
            &&& event matches RadioEvent::Packet(p)
            &&& p.rssi == rssi
            &&& p.snr == snr
            &&& p.payload@ == pkt.data@
        },
{
}

/// Law: at every SNR from -20 to -8 dB, a packet is passed on under the
/// highest spreading factor and not under the lowest.
pub proof fn law_high_spreading_factor_hears_weaker_packets(
    pkt: RxFrame,
    slow: LoRaConfig,
    fast: LoRaConfig,
    snr: int,
    far: Option<RadioEvent>,
    near: Option<RadioEvent>,
)
    requires
        slow.sf == 12,
        fast.sf == 7,
        nearest_whole(snr, pkt.snr_tenths_db as int),
        -20 <= snr <= -8,
        call_ensures(handle_rx, (pkt, &slow), far),
        call_ensures(handle_rx, (pkt, &fast), near),
    ensures
        far is Some,
        near is None,
{
}

/// What woke a running session: the router's TX channel or the dongle's RX
/// stream, each of which may have ended.
#[derive(Debug)]
pub enum SessionInput {
    Tx(Option<TxRequest>),
    Rx(Option<RxFrame>),
}

/// What a running session does next.
#[derive(Debug)]
pub enum SessionAction {
    /// Transmit a request.
    Transmit(TxRequest),
    /// Send the event to the router, if the packet was reliable.
    Deliver(Option<RadioEvent>),
    /// End the session without an error.
    End,
}

/// Decide what a running session does with what woke it.
pub fn session_step(input: SessionInput, active_config: &LoRaConfig) -> (action: SessionAction)
    ensures
        match input {
            SessionInput::Tx(Some(req)) => action == SessionAction::Transmit(req),
            SessionInput::Tx(None) => action is End,
            SessionInput::Rx(None) => action is End,
            SessionInput::Rx(Some(pkt)) => match (
                action,
                received_packet(
                    pkt.rssi_tenths_dbm as int,
                    pkt.snr_tenths_db as int,
                    pkt.data@,
                    active_config.sf as int,
                ),
            ) {
                (SessionAction::Deliver(Some(e)), Some(p)) => e@ == RadioEventView::Packet(p),
                (SessionAction::Deliver(None), None) => true,
                _ => false,
            },
        },
{
    match input {
        SessionInput::Tx(Some(req)) => SessionAction::Transmit(req),
        SessionInput::Tx(None) => SessionAction::End,
        SessionInput::Rx(Some(pkt)) => SessionAction::Deliver(handle_rx(pkt, active_config)),
        SessionInput::Rx(None) => SessionAction::End,
    }
}

/// Law: a running session transmits what the router asks for, as it is, passes
/// on a frame that it hears exactly when it is reliable at the spreading
/// factor in force, and ends when either side has ended.
pub proof fn law_session_serves_both_sides(
    input: SessionInput,
    active: LoRaConfig,
    action: SessionAction,
)
    requires
        call_ensures(session_step, (input, &active), action),
    ensures
        input matches SessionInput::Tx(Some(request)) ==> action == SessionAction::Transmit(
            request,
        ),
        input == SessionInput::Tx(None) || input == SessionInput::Rx(None) ==> action is End,
        input matches SessionInput::Rx(Some(pkt)) ==> {
            &&& action matches SessionAction::Deliver(given)
            &&& forall|snr: int| #[trigger]
                nearest_whole(snr, pkt.snr_tenths_db as int) ==> (given is Some <==> -32 <= snr
                    <= 32 && 2 * snr + 5 * (active.sf - 4) >= 0)
            &&& given matches Some(event) ==> {
                &&& event matches RadioEvent::Packet(p)
                &&& nearest_whole(p.rssi as int, pkt.rssi_tenths_dbm as int)
                &&& nearest_whole(p.snr as int, pkt.snr_tenths_db as int)
                &&& p.payload@ == pkt.data@
            }
        },
{
}

// ── Transmissions ───────────────────────────────────────────────────

/// Per-TX retry policy. The backoff multiplier is carried as the bit pattern
/// of a single-precision number.
#[derive(Debug, Clone, Copy, PartialEq, Eq, Structural)]
pub struct RetryPolicy {
    pub max_attempts: u8,
    pub backoff_ms_min: u32,
    pub backoff_ms_max: u32,
    pub backoff_multiplier_bits: u32,
    pub backoff_cap_ms: u32,
    pub per_attempt_timeout_secs: u64,
    pub skip_cad: bool,
}

/// How one TX attempt ended.
#[derive(Debug, Clone, Copy, PartialEq, Eq, Structural)]
pub enum AttemptResult {
    /// On the air.
    Sent,
    /// CAD detected channel activity.
    ChannelBusy,
    /// The firmware TX queue was full.
    Busy,
    /// Any other error.
    OtherError,
}

/// One TX attempt.
#[derive(Debug, Clone, Copy, PartialEq, Eq, Structural)]
pub struct TxAttempt {
    /// 1-indexed attempt number.
    pub attempt: u8,
    pub result: AttemptResult,
}

/// A TX that succeeded in the end.
#[derive(Debug, Clone)]
pub struct TxOutcome {
    pub final_airtime_us: u32,
    /// Every attempt, in order.
    pub attempts: Vec<TxAttempt>,
}

/// Why a TX failed in the end.
#[derive(Debug, Clone)]
pub struct TxError {
    /// How the last attempt ended.
    pub last: AttemptResult,
    pub reason: String,
}

/// Whether an attempt that ended so is made again, if any are left.
pub open spec fn is_retried(result: AttemptResult) -> bool {
    result == AttemptResult::ChannelBusy || result == AttemptResult::Busy
}

/// Why an attempt that ended so was retried.
pub open spec fn retry_reason(result: AttemptResult) -> TxRetryReason {
    match result {
        AttemptResult::ChannelBusy => TxRetryReason::ChannelBusy,
        AttemptResult::Busy => TxRetryReason::QueueFull,
        AttemptResult::Sent => TxRetryReason::Other,
        AttemptResult::OtherError => TxRetryReason::Other,
    }
}

/// The attempt numbers point into the list of attempts.
pub open spec fn attempts_in_range(attempts: Seq<TxAttempt>) -> bool {
    forall|i: int| 0 <= i < attempts.len() - 1 ==> (#[trigger] attempts[i]).attempt
        <= attempts.len()
}

/// The retry events for the first `n` attempts: one for every attempt beyond
/// the first, naming the attempt before it and why that one failed.
pub open spec fn retry_events(
    seq: u64,
    policy: RetryPolicy,
    attempts: Seq<TxAttempt>,
    n: int,
) -> Seq<RadioEventView>
    decreases n,
{
    if n <= 1 {
        Seq::empty()
    } else {
        let before = retry_events(seq, policy, attempts, n - 1);
        let failed = attempts[n - 2].attempt;
        if failed == 0 {
            before
        } else {
            before.push(
                RadioEventView::TxRetry {
                    seq,
                    attempt_that_failed: failed,
                    total_attempts: policy.max_attempts,
                    reason: retry_reason(attempts[failed - 1].result),
                    backoff_ms: policy.backoff_ms_min,
                },
            )
        }
    }
}

/// The retry events for the first `n` attempts of a transmission that used up
/// its attempts: all are put down to how the last one ended.
pub open spec fn used_up_events(
    seq: u64,
    policy: RetryPolicy,
    last: AttemptResult,
    n: int,
) -> Seq<RadioEventView> {
    Seq::new(
        if n >= 0 {
            n as nat
        } else {
            0
        },
        |i: int|
            RadioEventView::TxRetry {
                seq,
                attempt_that_failed: (i + 1) as u8,
                total_attempts: policy.max_attempts,
                reason: retry_reason(last),
                backoff_ms: policy.backoff_ms_min,
            },
    )
}

/// The number of retries before a transmission that ended so failed: an error
/// that is retried is given back only when no attempt is left.
pub open spec fn retries_before_failure(policy: RetryPolicy, last: AttemptResult) -> int {
    if is_retried(last) && policy.max_attempts > 0 {
        policy.max_attempts - 1
    } else {
        0
    }
}

/// The events that report a finished transmission.
pub open spec fn tx_events(
    seq: u64,
    size: usize,
    policy: RetryPolicy,
    outcome: Result<TxOutcome, TxError>,
) -> Seq<RadioEventView> {
    match outcome {
        Ok(o) => retry_events(seq, policy, o.attempts@, o.attempts@.len() as int).push(
            RadioEventView::TxSucceeded {
                seq,
                attempts_used: (o.attempts@.len() % 256) as u8,
                total_attempts: policy.max_attempts,
                final_airtime_us: o.final_airtime_us,
                size,
            },
        ),
        Err(e) => used_up_events(
            seq,
            policy,
            e.last,
            retries_before_failure(policy, e.last),
        ).push(
            RadioEventView::TxFailed {
                seq,
                attempts_used: policy.max_attempts,
                reason: e.reason@,
                size,
            },
        ),
    }
}

/// What a list of events says.
pub open spec fn events_view(events: Seq<RadioEvent>) -> Seq<RadioEventView> {
    events.map_values(|e: RadioEvent| e@)
}

/// The event that announces a transmission.
pub fn tx_started(req: &TxRequest, policy: &RetryPolicy) -> (e: RadioEvent)
    ensures
        e@ == (RadioEventView::TxAttempt {
            seq: req.seq,
            attempt: 1,
            total_attempts: policy.max_attempts,
            size: req.data@.len() as usize,
        }),
{
    RadioEvent::TxAttempt {
        seq: req.seq,
        attempt: 1,
        total_attempts: policy.max_attempts,
        size: req.data.len(),
    }
}

fn reason_of(result: AttemptResult) -> (reason: TxRetryReason)
    ensures
        reason == retry_reason(result),
{
    match result {
        AttemptResult::ChannelBusy => TxRetryReason::ChannelBusy,
        AttemptResult::Busy => TxRetryReason::QueueFull,
        AttemptResult::Sent => TxRetryReason::Other,
        AttemptResult::OtherError => TxRetryReason::Other,
    }
}

/// The events that report a finished transmission, in order.
pub fn tx_finished(
    seq: u64,
    size: usize,
    policy: &RetryPolicy,
    outcome: Result<TxOutcome, TxError>,
) -> (events: Vec<RadioEvent>)
    requires
        outcome is Ok ==> attempts_in_range(outcome->Ok_0.attempts@),
    ensures
        events_view(events@) == tx_events(seq, size, *policy, outcome),
{
    let mut events: Vec<RadioEvent> = Vec::new();
    match outcome {
        Ok(o) => {
            let mut prev_attempt: u8 = 0;
            let mut i: usize = 0;
            assert(events_view(events@) =~= Seq::<RadioEventView>::empty());
            while i < o.attempts.len()
                invariant
                    i <= o.attempts@.len(),
                    attempts_in_range(o.attempts@),
                    prev_attempt == if i == 0 {
                        0
                    } else {
                        o.attempts@[i - 1].attempt
                    },
                    events_view(events@) == retry_events(seq, *policy, o.attempts@, i as int),
                decreases o.attempts@.len() - i,
            {
                let ghost before = events@;
                if prev_attempt != 0 {
                    let reason: TxRetryReason = reason_of(
                        o.attempts[(prev_attempt - 1) as usize].result,
                    );
                    events.push(
                        RadioEvent::TxRetry {
                            seq,
                            attempt_that_failed: prev_attempt,
                            total_attempts: policy.max_attempts,
                            reason,
                            backoff_ms: policy.backoff_ms_min,
                        },
                    );
                    assert(events_view(events@) =~= events_view(before).push(events@.last()@));
                }
                prev_attempt = o.attempts[i].attempt;
                i = i + 1;
            }
            let ghost before = events@;
            events.push(
                RadioEvent::TxSucceeded {
                    seq,
                    attempts_used: (o.attempts.len() % 256) as u8,
                    total_attempts: policy.max_attempts,
                    final_airtime_us: o.final_airtime_us,
                    size,
                },
            );
            assert(events_view(events@) =~= events_view(before).push(events@.last()@));
        },
        Err(e) => {
            let retried: bool = match e.last {
                AttemptResult::ChannelBusy => true,
                AttemptResult::Busy => true,
                AttemptResult::Sent => false,
                AttemptResult::OtherError => false,
            };
            let mut failed: u8 = 0;
            assert(events_view(events@) =~= used_up_events(seq, *policy, e.last, 0));
            while retried && failed + 1 < policy.max_attempts
                invariant
                    retried == is_retried(e.last),
                    failed <= retries_before_failure(*policy, e.last),
                    events_view(events@) == used_up_events(seq, *policy, e.last, failed as int),
                decreases policy.max_attempts - failed,
            {
                let ghost before = events@;
                failed = failed + 1;
                events.push(
                    RadioEvent::TxRetry {
                        seq,
                        attempt_that_failed: failed,
                        total_attempts: policy.max_attempts,
                        reason: reason_of(e.last),
                        backoff_ms: policy.backoff_ms_min,
                    },
                );
                assert(events_view(events@) =~= events_view(before).push(events@.last()@));
                assert(events_view(events@) =~= used_up_events(
                    seq,
                    *policy,
                    e.last,
                    failed as int,
                ));
            }
            let ghost before = events@;
            events.push(
                RadioEvent::TxFailed {
                    seq,
                    attempts_used: policy.max_attempts,
                    reason: e.reason,
                    size,
                },
            );
            assert(events_view(events@) =~= events_view(before).push(events@.last()@));
        },
    }
    events
}

/// Law: when attempts are numbered from one, every attempt beyond the first
/// is announced by exactly one retry event, in order, and the final event
/// follows them.
pub proof fn law_one_retry_event_per_extra_attempt(
    seq: u64,
    policy: RetryPolicy,
    attempts: Seq<TxAttempt>,
    n: int,
)
    requires
        0 <= n <= attempts.len() <= 255,
        forall|i: int| 0 <= i < attempts.len() ==> (#[trigger] attempts[i]).attempt == i + 1,
    ensures
        retry_events(seq, policy, attempts, n).len() == if n <= 1 {
            0
        } else {
            n - 1
        },
        forall|k: int|
            0 <= k < n - 1 ==> (#[trigger] retry_events(seq, policy, attempts, n)[k])
                == (RadioEventView::TxRetry {
                seq,
                attempt_that_failed: (k + 1) as u8,
                total_attempts: policy.max_attempts,
                reason: retry_reason(attempts[k].result),
                backoff_ms: policy.backoff_ms_min,
            }),
    decreases n,
{
    if n > 1 {
        law_one_retry_event_per_extra_attempt(seq, policy, attempts, n - 1);
        assert(attempts[n - 2].attempt == n - 1);
    }
}

/// Law: a transmission that fails because every attempt found the channel or
/// the dongle busy is reported by one retry event for every attempt but the
/// last, in order, and then by its failure; any other failure stands alone.
pub proof fn law_used_up_attempts_are_reported(
    seq: u64,
    size: usize,
    policy: RetryPolicy,
    error: TxError,
)
    ensures
        ({
            let events = tx_events(seq, size, policy, Err(error));
            let retries = if is_retried(error.last) && policy.max_attempts >= 1 {
                policy.max_attempts - 1
            } else {
                0
            };
            &&& events.len() == retries + 1
            &&& forall|k: int|
                0 <= k < retries ==> (#[trigger] events[k]) == (RadioEventView::TxRetry {
                    seq,
                    attempt_that_failed: (k + 1) as u8,
                    total_attempts: policy.max_attempts,
                    reason: retry_reason(error.last),
                    backoff_ms: policy.backoff_ms_min,
                })
            &&& events.last() == (RadioEventView::TxFailed {
                seq,
                attempts_used: policy.max_attempts,
                reason: error.reason@,
                size,
            })
        }),
{
}

/// Law: a transmission that succeeded is reported by one retry event for every
/// attempt beyond the first, which says which attempt failed and why, and then
/// by a success with the attempts it took of those allowed, its measured time
/// on air and its size, all under its own sequence number.
pub proof fn law_success_is_reported(
    seq: u64,
    size: usize,
    policy: RetryPolicy,
    outcome: TxOutcome,
    events: Vec<RadioEvent>,
)
    requires
        call_ensures(tx_finished, (seq, size, &policy, Ok(outcome)), events),
        1 <= outcome.attempts@.len() <= 255,
        forall|i: int|
            0 <= i < outcome.attempts@.len() ==> (#[trigger] outcome.attempts@[i]).attempt == i + 1,
    ensures
        events@.len() == outcome.attempts@.len(),
        forall|k: int|
            0 <= k < events@.len() - 1 ==> {
                &&& (#[trigger] events@[k]) matches RadioEvent::TxRetry {
                    seq: s,
                    attempt_that_failed,
                    total_attempts,
                    reason,
                    backoff_ms,
                }
                &&& s == seq
                &&& attempt_that_failed == k + 1
                &&& total_attempts == policy.max_attempts
                &&& backoff_ms == policy.backoff_ms_min
                &&& reason_fits(reason, outcome.attempts@[k].result)
            },
        ({
            &&& events@.last() matches RadioEvent::TxSucceeded {
                seq: s,
                attempts_used,
                total_attempts,
                final_airtime_us,
                size: n,
            }
            &&& s == seq
            &&& attempts_used == outcome.attempts@.len()
            &&& total_attempts == policy.max_attempts
            &&& final_airtime_us == outcome.final_airtime_us
            &&& n == size
        }),
{
    let n = outcome.attempts@.len() as int;
    law_one_retry_event_per_extra_attempt(seq, policy, outcome.attempts@, n);
    let told = events_view(events@);
    assert(told.len() == events@.len());
    assert forall|k: int| 0 <= k < events@.len() implies (#[trigger] events@[k])@ == told[k] by {}
    assert forall|k: int| 0 <= k < events@.len() - 1 implies {
        &&& (#[trigger] events@[k]) matches RadioEvent::TxRetry {
            seq: s,
            attempt_that_failed,
            total_attempts,
            reason,
            backoff_ms,
        }
        &&& s == seq
        &&& attempt_that_failed == k + 1
        &&& total_attempts == policy.max_attempts
        &&& backoff_ms == policy.backoff_ms_min
        &&& reason_fits(reason, outcome.attempts@[k].result)
    } by {
        assert(told[k] == retry_events(seq, policy, outcome.attempts@, n)[k]);
    }
    assert(events@.last()@ == told[n - 1]);
}

/// Whether a reason is the one for how an attempt ended: a busy channel, a
/// full queue in the dongle, or something else.
pub open spec fn reason_fits(reason: TxRetryReason, result: AttemptResult) -> bool {
    &&& reason == TxRetryReason::ChannelBusy <==> result == AttemptResult::ChannelBusy
    &&& reason == TxRetryReason::QueueFull <==> result == AttemptResult::Busy
}

/// Law: a transmission that failed is reported by a failure with its own
/// sequence number, its size and the words of the error. Before it, where
/// every attempt found the channel or the dongle busy, stands one retry event
/// for every attempt but the last; otherwise it stands alone.
pub proof fn law_failure_is_reported(
    seq: u64,
    size: usize,
    policy: RetryPolicy,
    error: TxError,
    events: Vec<RadioEvent>,
)
    requires
        call_ensures(tx_finished, (seq, size, &policy, Err(error)), events),
        policy.max_attempts >= 1,
    ensures
        ({
            let busy = error.last == AttemptResult::ChannelBusy || error.last
                == AttemptResult::Busy;
            &&& busy ==> events@.len() == policy.max_attempts
            &&& !busy ==> events@.len() == 1
        }),
        forall|k: int|
            0 <= k < events@.len() - 1 ==> {
                &&& (#[trigger] events@[k]) matches RadioEvent::TxRetry {
                    seq: s,
                    attempt_that_failed,
                    total_attempts,
                    reason,
                    backoff_ms,
                }
                &&& s == seq
                &&& attempt_that_failed == k + 1
                &&& total_attempts == policy.max_attempts
                &&& backoff_ms == policy.backoff_ms_min
                &&& reason_fits(reason, error.last)
            },
        ({
            &&& events@.last() matches RadioEvent::TxFailed { seq: s, attempts_used, reason, size: n }
            &&& s == seq
            &&& attempts_used == policy.max_attempts
            &&& reason@ == error.reason@
            &&& n == size
        }),
{
    law_used_up_attempts_are_reported(seq, size, policy, error);
    let told = events_view(events@);
    assert(told.len() == events@.len());
    assert forall|k: int| 0 <= k < events@.len() implies (#[trigger] events@[k])@ == told[k] by {}
    assert(events@.last()@ == told[events@.len() - 1]);
}

/// Law: a transmission is announced with its own sequence number and size, as
/// the first of the attempts allowed.
pub proof fn law_start_is_announced(request: TxRequest, policy: RetryPolicy, event: RadioEvent)
    requires
        call_ensures(tx_started, (&request, &policy), event),
    ensures
        event matches RadioEvent::TxAttempt { seq, attempt, total_attempts, size } && seq
            == request.seq && attempt == 1 && total_attempts == policy.max_attempts && size
            == request.data@.len() as usize,
{
}

// ── Display helpers ─────────────────────────────────────────────────

impl LoRaBandwidth {
    /// A bandwidth for display.
    pub open spec fn text(self) -> Seq<char> {
        match self {
            LoRaBandwidth::Khz7 => "7.8 kHz"@,
            LoRaBandwidth::Khz10 => "10.4 kHz"@,
            LoRaBandwidth::Khz15 => "15.6 kHz"@,
            LoRaBandwidth::Khz20 => "20.8 kHz"@,
            LoRaBandwidth::Khz31 => "31.25 kHz"@,
            LoRaBandwidth::Khz41 => "41.7 kHz"@,
            LoRaBandwidth::Khz62 => "62.5 kHz"@,
            LoRaBandwidth::Khz125 => "125 kHz"@,
            LoRaBandwidth::Khz250 => "250 kHz"@,
            LoRaBandwidth::Khz500 => "500 kHz"@,
            LoRaBandwidth::Khz200 => "200 kHz"@,
            LoRaBandwidth::Khz400 => "400 kHz"@,
            LoRaBandwidth::Khz800 => "800 kHz"@,
            LoRaBandwidth::Khz1600 => "1600 kHz"@,
        }
    }
}

/// Format a bandwidth value for display.
pub fn format_bandwidth(bw: LoRaBandwidth) -> (out: &'static str)
    ensures
        out@ == bw.text(),
{
    match bw {
        LoRaBandwidth::Khz7 => "7.8 kHz",
        LoRaBandwidth::Khz10 => "10.4 kHz",
        LoRaBandwidth::Khz15 => "15.6 kHz",
        LoRaBandwidth::Khz20 => "20.8 kHz",
        LoRaBandwidth::Khz31 => "31.25 kHz",
        LoRaBandwidth::Khz41 => "41.7 kHz",
        LoRaBandwidth::Khz62 => "62.5 kHz",
        LoRaBandwidth::Khz125 => "125 kHz",
        LoRaBandwidth::Khz250 => "250 kHz",
        LoRaBandwidth::Khz500 => "500 kHz",
        LoRaBandwidth::Khz200 => "200 kHz",
        LoRaBandwidth::Khz400 => "400 kHz",
        LoRaBandwidth::Khz800 => "800 kHz",
        LoRaBandwidth::Khz1600 => "1600 kHz",
    }
}

/// Law: a bandwidth is shown as its number of kHz and the unit.
pub proof fn law_shown_bandwidth_is_its_number(bw: LoRaBandwidth, hz: u32, out: &'static str)
    requires
        call_ensures(crate::rate_limit::bandwidth_hz, (bw,), hz),
        call_ensures(format_bandwidth, (bw,), out),
    ensures
        out@ == crate::config::khz_text(hz as nat) + " kHz"@,
{
    reveal_strlit(" kHz");
    reveal_strlit("7.8 kHz");
    reveal_strlit("10.4 kHz");
    reveal_strlit("15.6 kHz");
    reveal_strlit("20.8 kHz");
    reveal_strlit("31.25 kHz");
    reveal_strlit("41.7 kHz");
    reveal_strlit("62.5 kHz");
    reveal_strlit("125 kHz");
    reveal_strlit("250 kHz");
    reveal_strlit("500 kHz");
    reveal_strlit("200 kHz");
    reveal_strlit("400 kHz");
    reveal_strlit("800 kHz");
    reveal_strlit("1600 kHz");
    reveal_with_fuel(text::decimal, 5);
    assert(text::decimal(hz as nat / 1000) =~= match bw {
        LoRaBandwidth::Khz7 => seq!['7'],
        LoRaBandwidth::Khz10 => seq!['1', '0'],
        LoRaBandwidth::Khz15 => seq!['1', '5'],
        LoRaBandwidth::Khz20 => seq!['2', '0'],
        LoRaBandwidth::Khz31 => seq!['3', '1'],
        LoRaBandwidth::Khz41 => seq!['4', '1'],
        LoRaBandwidth::Khz62 => seq!['6', '2'],
        LoRaBandwidth::Khz125 => seq!['1', '2', '5'],
        LoRaBandwidth::Khz250 => seq!['2', '5', '0'],
        LoRaBandwidth::Khz500 => seq!['5', '0', '0'],
        LoRaBandwidth::Khz200 => seq!['2', '0', '0'],
        LoRaBandwidth::Khz400 => seq!['4', '0', '0'],
        LoRaBandwidth::Khz800 => seq!['8', '0', '0'],
        LoRaBandwidth::Khz1600 => seq!['1', '6', '0', '0'],
    });
    assert(text::decimal(25) =~= seq!['2', '5']);
    assert(out@ =~= crate::config::khz_text(hz as nat) + " kHz"@);
}

/// Law: the reasons of a retry have labels of their own.
pub proof fn law_retry_labels(reason: TxRetryReason, label: String)
    requires
        call_ensures(TxRetryReason::label, (reason,), label),
    ensures
        reason == TxRetryReason::ChannelBusy <==> label@ == "channel_busy"@,
        reason == TxRetryReason::QueueFull <==> label@ == "queue_full"@,
        reason == TxRetryReason::Other <==> label@ == "other"@,
{
    reveal_strlit("channel_busy");
    reveal_strlit("queue_full");
    reveal_strlit("other");
    assert("channel_busy"@.len() == 12);
    assert("queue_full"@.len() == 10);
    assert("other"@.len() == 5);
}

/// Law: a config is shown by each of its settings as that setting is shown
/// alone.
pub proof fn law_config_line_shows_every_setting(
    c: LoRaConfig,
    out: String,
    mhz: String,
    sf: String,
    bw: &'static str,
    cr: u8,
    cr_text: String,
    power: String,
    preamble: String,
)
    requires
        call_ensures(format_lora_config, (&c,), out),
        call_ensures(lora::mhz_text, (c.freq_hz,), mhz),
        call_ensures(text::decimal_text, (c.sf as u64,), sf),
        call_ensures(format_bandwidth, (c.bw,), bw),
        call_ensures(lora::LoRaCodingRate::denominator, (c.cr,), cr),
        call_ensures(text::decimal_text, (cr as u64,), cr_text),
        call_ensures(text::signed_text, (c.tx_power_dbm as i64,), power),
        call_ensures(text::decimal_text, (c.preamble_len as u64,), preamble),
    ensures
        out@ == mhz@ + "MHz SF"@ + sf@ + " BW"@ + bw@ + " CR4/"@ + cr_text@ + " SW0x"@
            + text::hex_word(c.sync_word as int) + " TX:"@ + power@ + " dBm Pre:"@ + preamble@,
{
}

/// A config on one line.
pub open spec fn config_line(c: LoRaConfig) -> Seq<char> {
    lora::mhz(c.freq_hz as nat) + "MHz SF"@ + text::decimal(c.sf as nat) + " BW"@ + c.bw.text()
        + " CR4/"@ + text::decimal(c.cr.spec_denominator() as nat) + " SW0x"@ + text::hex_word(
        c.sync_word as int,
    ) + " TX:"@ + text::decimal_signed(c.tx_power_dbm as int) + " dBm Pre:"@ + text::decimal(
        c.preamble_len as nat,
    )
}

/// Format a `LoRaConfig` for display.
pub fn format_lora_config(config: &LoRaConfig) -> (out: String)
    ensures
        out@ == config_line(*config),
{
    let mut s: String = lora::mhz_text(config.freq_hz);
    s.append("MHz SF");
    text::push_decimal(&mut s, config.sf as u64);
    s.append(" BW");
    s.append(format_bandwidth(config.bw));
    s.append(" CR4/");
    text::push_decimal(&mut s, config.cr.denominator() as u64);
    s.append(" SW0x");
    text::push_hex_word(&mut s, config.sync_word);
    s.append(" TX:");
    text::push_signed(&mut s, config.tx_power_dbm as i64);
    s.append(" dBm Pre:");
    text::push_decimal(&mut s, config.preamble_len as u64);
    s
}

} // verus!
