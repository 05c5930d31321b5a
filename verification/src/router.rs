//! Central packet bus bridging radio and gossip swarm.
//!
//! Applies blake3 content-hash deduplication, token bucket rate limiting,
//! and TX queue management.

use std::collections::VecDeque;

use vstd::prelude::*;
use vstd::string::*;

use crate::dedup::{DedupCache, DedupView};
use crate::gossip;
use crate::gossip::{GossipEvent, GossipEventView, ReceiverActionView, ReceiverInput, SwarmEvent};
use crate::lora::LoRaConfig;
use crate::packet;
use crate::packet::{content_hash, FrameView, GossipFrame, PacketView, RadioPacket};
use crate::radio;
use crate::radio::{
    AttemptResult, ConfigSource, RadioEvent, RadioEventView, RetryPolicy, TxAttempt, TxError,
    TxOutcome, TxRequest, TxRetryReason,
};
use crate::rate_limit::{LimiterView, RateLimiter};

verus! {

/// Time between two prunings of the dedup cache, in nanoseconds.
pub const CLEANUP_INTERVAL_NANOS: u64 = 30_000_000_000;

// ── Radio config info ───────────────────────────────────────────────

/// Active radio config info, shown by the TUI.
#[derive(Debug, Clone)]
pub struct RadioConfigInfo {
    pub active: LoRaConfig,
    pub requested: LoRaConfig,
    pub source: ConfigSource,
    pub device: String,
    pub connected: bool,
}

/// What a [`RadioConfigInfo`] says.
#[verifier::ext_equal]
pub struct ConfigInfoView {
    pub active: LoRaConfig,
    pub requested: LoRaConfig,
    pub source: ConfigSource,
    pub device: Seq<char>,
    pub connected: bool,
}

impl View for RadioConfigInfo {
    type V = ConfigInfoView;

    open spec fn view(&self) -> ConfigInfoView {
        ConfigInfoView {
            active: self.active,
            requested: self.requested,
            source: self.source,
            device: self.device@,
            connected: self.connected,
        }
    }
}

/// A change of the radio config info.
#[derive(Debug)]
pub enum ConfigUpdate {
    /// The radio connected: all of the info is new.
    Connected(RadioConfigInfo),
    /// The radio disconnected: the rest of the info stands.
    Disconnected,
}

/// What a [`ConfigUpdate`] says.
#[verifier::ext_equal]
pub enum ConfigUpdateView {
    Connected(ConfigInfoView),
    Disconnected,
}

impl View for ConfigUpdate {
    type V = ConfigUpdateView;

    open spec fn view(&self) -> ConfigUpdateView {
        match *self {
            ConfigUpdate::Connected(info) => ConfigUpdateView::Connected(info@),
            ConfigUpdate::Disconnected => ConfigUpdateView::Disconnected,
        }
    }
}

impl ConfigInfoView {
    /// The info before the radio has connected.
    pub open spec fn not_connected(requested: LoRaConfig) -> ConfigInfoView {
        ConfigInfoView {
            active: requested,
            requested,
            source: ConfigSource::Ours,
            device: ""@,
            connected: false,
        }
    }

    /// The info after an update.
    pub open spec fn updated(self, update: ConfigUpdateView) -> ConfigInfoView {
        match update {
            ConfigUpdateView::Connected(info) => info,
            ConfigUpdateView::Disconnected => ConfigInfoView { connected: false, ..self },
        }
    }
}

impl RadioConfigInfo {
    /// The info before the radio has connected.
    pub fn not_connected(requested: LoRaConfig) -> (info: RadioConfigInfo)
        ensures
            info@ == ConfigInfoView::not_connected(requested),
    {
        RadioConfigInfo {
            active: requested,
            requested,
            source: ConfigSource::Ours,
            device: "".to_owned(),
            connected: false,
        }
    }

    /// Take in an update.
    pub fn apply(&mut self, update: ConfigUpdate)
        ensures
            final(self)@ == old(self)@.updated(update@),
    {
        match update {
            ConfigUpdate::Connected(info) => {
                *self = info;
            },
            ConfigUpdate::Disconnected => {
                self.connected = false;
            },
        }
    }
}

// ── Packet log ──────────────────────────────────────────────────────

/// Packet event for the TUI log. The timestamp is in nanoseconds on the
/// router's monotonic clock.
#[derive(Debug, Clone)]
pub struct PacketLogEntry {
    pub timestamp: u64,
    pub hash: [u8; 32],
    pub direction: PacketDirection,
    pub size: usize,
    pub snr: Option<i16>,
    pub rssi: Option<i16>,
    pub action: PacketAction,
    /// When set, indicates this entry is a TX-attempt update.
    pub tx_retry: Option<TxRetryInfo>,
}

/// What a [`PacketLogEntry`] says.
#[verifier::ext_equal]
pub struct LogEntryView {
    pub timestamp: u64,
    pub hash: Seq<u8>,
    pub direction: PacketDirection,
    pub size: nat,
    pub snr: Option<i16>,
    pub rssi: Option<i16>,
    pub action: PacketAction,
    pub tx_retry: Option<TxRetryInfo>,
}

impl View for PacketLogEntry {
    type V = LogEntryView;

    open spec fn view(&self) -> LogEntryView {
        LogEntryView {
            timestamp: self.timestamp,
            hash: self.hash@,
            direction: self.direction,
            size: self.size as nat,
            snr: self.snr,
            rssi: self.rssi,
            action: self.action,
            tx_retry: self.tx_retry,
        }
    }
}

/// Per-attempt retry metadata attached to a TX [`PacketLogEntry`].
#[derive(Debug, Clone, Copy, PartialEq, Eq, Structural)]
pub struct TxRetryInfo {
    pub attempt: u8,
    pub total_attempts: u8,
    pub state: TxRetryState,
}

/// State a TX entry is currently in.
#[derive(Debug, Clone, Copy, PartialEq, Eq, Structural)]
pub enum TxRetryState {
    /// First attempt in flight.
    InFlight,
    /// A previous attempt failed; this attempt is a retry.
    Retrying(TxRetryReason),
    /// Final success, possibly after retries.
    Succeeded,
    /// All attempts exhausted; terminal failure.
    Failed,
}

/// Which side the packet arrived from.
#[derive(Debug, Clone, Copy, PartialEq, Eq, Structural)]
pub enum PacketDirection {
    /// Heard on local radio → forwarded to gossip swarm.
    RadioIn,
    /// Received from gossip swarm → queued for radio TX.
    GossipIn,
}

/// What happened to the packet.
#[derive(Debug, Clone, Copy, PartialEq, Eq, Structural)]
pub enum PacketAction {
    /// Successfully bridged (radio→gossip or gossip→radio).
    Bridged,
    /// Dropped: duplicate payload.
    DroppedDedup,
    /// Dropped: TX queue full.
    DroppedQueueFull,
    /// Dropped: rate limiter.
    DroppedRateLimit,
}

impl PacketAction {
    /// The label of an action.
    pub open spec fn text(self) -> Seq<char> {
        match self {
            PacketAction::Bridged => ""@,
            PacketAction::DroppedDedup => "DUP"@,
            PacketAction::DroppedQueueFull => "FULL"@,
            PacketAction::DroppedRateLimit => "RATE"@,
        }
    }

    /// The label of an action.
    pub fn label(self) -> (out: String)
        ensures
            out@ == self.text(),
    {
        match self {
            PacketAction::Bridged => "".to_owned(),
            PacketAction::DroppedDedup => "DUP".to_owned(),
            PacketAction::DroppedQueueFull => "FULL".to_owned(),
            PacketAction::DroppedRateLimit => "RATE".to_owned(),
        }
    }
}

// ── Stats ───────────────────────────────────────────────────────────

/// Aggregate stats for the TUI. The counters wrap around.
#[derive(Debug, Clone, Copy, PartialEq, Eq, Structural)]
pub struct Stats {
    pub radio_rx: u64,
    pub radio_tx: u64,
    pub gossip_rx: u64,
    pub gossip_tx: u64,
    pub dedup_hits: u64,
    pub rate_limit_drops: u64,
    pub dropped_queue: u64,
    pub neighbor_count: u64,
    /// 0 = disconnected, 1 = connected
    pub radio_connected: u64,
    /// Cumulative TX retries across the bridge lifetime (each retry after
    /// the first attempt increments by 1).
    pub tx_retries: u64,
    /// TX calls that exhausted the retry policy.
    pub tx_failures: u64,
}

/// Stats with every counter at zero.
pub open spec fn zero_stats() -> Stats {
    Stats {
        radio_rx: 0,
        radio_tx: 0,
        gossip_rx: 0,
        gossip_tx: 0,
        dedup_hits: 0,
        rate_limit_drops: 0,
        dropped_queue: 0,
        neighbor_count: 0,
        radio_connected: 0,
        tx_retries: 0,
        tx_failures: 0,
    }
}

impl Default for Stats {
    fn default() -> (s: Stats)
        ensures
            s == zero_stats(),
    {
        Stats {
            radio_rx: 0,
            radio_tx: 0,
            gossip_rx: 0,
            gossip_tx: 0,
            dedup_hits: 0,
            rate_limit_drops: 0,
            dropped_queue: 0,
            neighbor_count: 0,
            radio_connected: 0,
            tx_retries: 0,
            tx_failures: 0,
        }
    }
}

/// The snapshot of given stats.
pub open spec fn snapshot_of(s: Stats) -> StatsSnapshot {
    StatsSnapshot {
        radio_rx: s.radio_rx,
        radio_tx: s.radio_tx,
        gossip_rx: s.gossip_rx,
        gossip_tx: s.gossip_tx,
        dedup_hits: s.dedup_hits,
        rate_limit_drops: s.rate_limit_drops,
        dropped_queue: s.dropped_queue,
        neighbor_count: s.neighbor_count,
        radio_connected: s.radio_connected != 0,
        tx_retries: s.tx_retries,
        tx_failures: s.tx_failures,
    }
}

impl Stats {
    #[must_use]
    pub fn snapshot(&self) -> (snap: StatsSnapshot)
        ensures
            snap == snapshot_of(*self),
    {
        StatsSnapshot {
            radio_rx: self.radio_rx,
            radio_tx: self.radio_tx,
            gossip_rx: self.gossip_rx,
            gossip_tx: self.gossip_tx,
            dedup_hits: self.dedup_hits,
            rate_limit_drops: self.rate_limit_drops,
            dropped_queue: self.dropped_queue,
            neighbor_count: self.neighbor_count,
            radio_connected: self.radio_connected != 0,
            tx_retries: self.tx_retries,
            tx_failures: self.tx_failures,
        }
    }
}

/// Point-in-time snapshot of bridge statistics.
#[derive(Debug, Clone, Copy, PartialEq, Eq, Structural)]
pub struct StatsSnapshot {
    pub radio_rx: u64,
    pub radio_tx: u64,
    pub gossip_rx: u64,
    pub gossip_tx: u64,
    pub dedup_hits: u64,
    pub rate_limit_drops: u64,
    pub dropped_queue: u64,
    pub neighbor_count: u64,
    pub radio_connected: bool,
    pub tx_retries: u64,
    pub tx_failures: u64,
}

/// Law: a snapshot shows every counter as it is, and the radio as connected
/// exactly when its mark is set.
pub proof fn law_snapshot_shows_every_counter(stats: Stats, snap: StatsSnapshot)
    requires
        call_ensures(Stats::snapshot, (&stats,), snap),
    ensures
        snap.radio_rx == stats.radio_rx,
        snap.radio_tx == stats.radio_tx,
        snap.gossip_rx == stats.gossip_rx,
        snap.gossip_tx == stats.gossip_tx,
        snap.dedup_hits == stats.dedup_hits,
        snap.rate_limit_drops == stats.rate_limit_drops,
        snap.dropped_queue == stats.dropped_queue,
        snap.neighbor_count == stats.neighbor_count,
        snap.radio_connected <==> stats.radio_connected > 0,
        snap.tx_retries == stats.tx_retries,
        snap.tx_failures == stats.tx_failures,
{
}

/// Law: the radio config info starts as what was asked for, not connected; a
/// connection replaces all of it, and a disconnection only takes the mark off.
pub proof fn law_config_info_follows_the_radio(
    requested: LoRaConfig,
    fresh: RadioConfigInfo,
    info: ConfigInfoView,
    new: ConfigInfoView,
)
    requires
        call_ensures(RadioConfigInfo::not_connected, (requested,), fresh),
    ensures
        fresh.active == requested,
        fresh.requested == requested,
        fresh.source == ConfigSource::Ours,
        fresh.device@.len() == 0,
        !fresh.connected,
        info.updated(ConfigUpdateView::Connected(new)) == new,
        ({
            let gone = info.updated(ConfigUpdateView::Disconnected);
            &&& !gone.connected
            &&& gone.active == info.active
            &&& gone.requested == info.requested
            &&& gone.source == info.source
            &&& gone.device == info.device
        }),
{
    reveal_strlit("");
}

/// Law: an update of the radio config info is taken in: that of a connection
/// as it is, that of a disconnection by taking the mark off.
pub proof fn law_update_is_taken_in(info: &mut RadioConfigInfo, update: ConfigUpdate)
    requires
        call_ensures(RadioConfigInfo::apply, (info, update), ()),
    ensures
        update matches ConfigUpdate::Connected(new) ==> final(info)@ == new@,
        update is Disconnected ==> final(info)@ == (ConfigInfoView {
            connected: false,
            ..old(info)@
        }),
{
}

/// Law: the labels of the actions are told apart, and only a packet that was
/// bridged has none.
pub proof fn law_action_labels(action: PacketAction, label: String)
    requires
        call_ensures(PacketAction::label, (action,), label),
    ensures
        label@ == ""@ <==> action == PacketAction::Bridged,
        label@ == "DUP"@ <==> action == PacketAction::DroppedDedup,
        label@ == "FULL"@ <==> action == PacketAction::DroppedQueueFull,
        label@ == "RATE"@ <==> action == PacketAction::DroppedRateLimit,
{
    reveal_strlit("");
    reveal_strlit("DUP");
    reveal_strlit("FULL");
    reveal_strlit("RATE");
    assert(""@.len() == 0 && "DUP"@.len() == 3 && "FULL"@.len() == 4 && "RATE"@.len() == 4);
    assert("FULL"@[0] == 'F' && "RATE"@[0] == 'R');
    assert(label@.len() == 0 <==> action == PacketAction::Bridged);
    assert(label@.len() == 3 <==> action == PacketAction::DroppedDedup);
    assert(action == PacketAction::DroppedQueueFull ==> label@[0] == 'F');
    assert(action == PacketAction::DroppedRateLimit ==> label@[0] == 'R');
}

// ── TX sequence marks ───────────────────────────────────────────────

/// Byte `i` of a number, counted from the low end.
pub open spec fn byte_of(n: nat, i: nat) -> u8
    decreases i,
{
    if i == 0 {
        (n % 256) as u8
    } else {
        byte_of(n / 256, (i - 1) as nat)
    }
}

/// The mark of a TX sequence number: a tag byte, the number low byte first,
/// and zeros.
pub open spec fn seq_mark(seq: u64) -> Seq<u8> {
    Seq::new(
        32,
        |i: int|
            if i == 0 {
                1u8
            } else if i <= 8 {
                byte_of(seq as nat, (i - 1) as nat)
            } else {
                0u8
            },
    )
}

/// `n` without its `i` low bytes.
spec fn shifted(n: nat, i: nat) -> nat
    decreases i,
{
    if i == 0 {
        n
    } else {
        shifted(n / 256, (i - 1) as nat)
    }
}

proof fn lemma_shifted(n: nat, i: nat)
    ensures
        byte_of(n, i) == (shifted(n, i) % 256) as u8,
        shifted(n, i + 1) == shifted(n, i) / 256,
    decreases i,
{
    if i > 0 {
        lemma_shifted(n / 256, (i - 1) as nat);
    } else {
        assert(shifted(n, 1) == shifted(n / 256, 0));
    }
}

/// Build a stable per-TX "hash" for packet-log correlation. Not a real
/// content hash — just a 32-byte encoding of the seq so the TUI can
/// index/update log rows by it.
pub fn tx_seq_hash(seq: u64) -> (out: [u8; 32])
    ensures
        out@ == seq_mark(seq),
{
    let mut out: [u8; 32] = [0u8; 32];
    out[0] = 1;
    let mut rest: u64 = seq;
    let mut i: usize = 0;
    while i < 8
        invariant
            i <= 8,
            rest == shifted(seq as nat, i as nat),
            out@[0] == 1,
            forall|j: int| 1 <= j <= i ==> out@[j] == byte_of(seq as nat, (j - 1) as nat),
            forall|j: int| i < j < 32 ==> out@[j] == 0,
        decreases 8 - i,
    {
        proof {
            lemma_shifted(seq as nat, i as nat);
        }
        out[i + 1] = (rest % 256) as u8;
        rest = rest / 256;
        i = i + 1;
    }
    assert(out@ =~= seq_mark(seq));
    out
}

proof fn lemma_bytes_determine(a: nat, b: nat, n: nat)
    requires
        forall|i: nat| i < n ==> #[trigger] byte_of(a, i) == byte_of(b, i),
        shifted(a, n) == 0,
        shifted(b, n) == 0,
    ensures
        a == b,
    decreases n,
{
    if n > 0 {
        assert(byte_of(a, 0) == byte_of(b, 0));
        assert forall|i: nat| i < n - 1 implies #[trigger] byte_of(a / 256, i) == byte_of(
            b / 256,
            i,
        ) by {
            assert(byte_of(a, i + 1) == byte_of(b, i + 1));
        }
        lemma_bytes_determine(a / 256, b / 256, (n - 1) as nat);
    }
}

/// Law: two transmissions with different sequence numbers have different marks.
pub proof fn law_seq_marks_differ(a: u64, b: u64)
    requires
        a != b,
    ensures
        seq_mark(a) != seq_mark(b),
{
    if seq_mark(a) == seq_mark(b) {
        assert forall|i: nat| i < 8 implies #[trigger] byte_of(a as nat, i) == byte_of(
            b as nat,
            i,
        ) by {
            assert(seq_mark(a)[i as int + 1] == seq_mark(b)[i as int + 1]);
        }
        reveal_with_fuel(shifted, 9);
        lemma_bytes_determine(a as nat, b as nat, 8);
    }
}

/// Law: a sequence number can be read from its mark: behind a tag byte of one
/// stand its eight bytes, the low one first, and then nothing but zeros.
pub proof fn law_seq_mark_holds_the_number(seq: u64, mark: [u8; 32])
    requires
        call_ensures(tx_seq_hash, (seq,), mark),
    ensures
        mark@[0] == 1,
        mark@[1] + 256 * (mark@[2] + 256 * (mark@[3] + 256 * (mark@[4] + 256 * (mark@[5] + 256 * (
        mark@[6] + 256 * (mark@[7] + 256 * mark@[8])))))) == seq,
        forall|i: int| 9 <= i < 32 ==> #[trigger] mark@[i] == 0,
{
    reveal_with_fuel(byte_of, 9);
    let m = seq_mark(seq);
    let n = seq as nat;
    assert(m[1] == (n % 256) as u8);
    assert(m[2] == (n / 256 % 256) as u8);
    assert(m[3] == (n / 256 / 256 % 256) as u8);
    assert(m[4] == (n / 256 / 256 / 256 % 256) as u8);
    assert(m[5] == (n / 256 / 256 / 256 / 256 % 256) as u8);
    assert(m[6] == (n / 256 / 256 / 256 / 256 / 256 % 256) as u8);
    assert(m[7] == (n / 256 / 256 / 256 / 256 / 256 / 256 % 256) as u8);
    assert(m[8] == (n / 256 / 256 / 256 / 256 / 256 / 256 / 256 % 256) as u8);
}

// ── Router state ────────────────────────────────────────────────────

/// The central packet bus.
#[derive(Debug)]
pub struct Router {
    our_id: [u8; 32],
    dedup: DedupCache,
    next_tx_seq: u64,
    tx_queue: VecDeque<Vec<u8>>,
    tx_queue_size: usize,
    last_cleanup: u64,
    requested: LoRaConfig,
    rate_limiter: RateLimiter,
    stats: Stats,
}

/// What a [`Router`] holds.
#[verifier::ext_equal]
pub struct RouterView {
    /// This bridge's public key bytes.
    pub our_id: Seq<u8>,
    /// Content hashes let through lately.
    pub dedup: DedupView,
    /// The sequence number of the last transmission.
    pub next_tx_seq: u64,
    /// Payloads that wait for transmission, oldest first.
    pub tx_queue: Seq<Seq<u8>>,
    pub tx_queue_size: nat,
    /// When the dedup cache was last pruned.
    pub last_cleanup: u64,
    /// The radio config that was asked for.
    pub requested: LoRaConfig,
    pub limiter: LimiterView,
    pub stats: Stats,
}

/// What the router wants done after an event.
#[derive(Debug)]
pub struct RouterOutput {
    /// A frame to broadcast to the swarm.
    pub broadcast: Option<GossipFrame>,
    /// A row for the packet log.
    pub log: Option<PacketLogEntry>,
    /// A change of the radio config info.
    pub config: Option<ConfigUpdate>,
    /// Whether the TX queue is to be drained to the radio task now.
    pub drain: bool,
}

/// What a [`RouterOutput`] says.
#[verifier::ext_equal]
pub struct OutputView {
    pub broadcast: Option<FrameView>,
    pub log: Option<LogEntryView>,
    pub config: Option<ConfigUpdateView>,
    pub drain: bool,
}

impl View for RouterOutput {
    type V = OutputView;

    open spec fn view(&self) -> OutputView {
        OutputView {
            broadcast: match self.broadcast {
                Some(f) => Some(f@),
                None => None,
            },
            log: match self.log {
                Some(e) => Some(e@),
                None => None,
            },
            config: match self.config {
                Some(c) => Some(c@),
                None => None,
            },
            drain: self.drain,
        }
    }
}

impl OutputView {
    /// Nothing but draining the queue.
    pub open spec fn quiet() -> OutputView {
        OutputView { broadcast: None, log: None, config: None, drain: true }
    }
}

/// The payloads of a queue.
pub open spec fn payloads(queue: Seq<Vec<u8>>) -> Seq<Seq<u8>> {
    queue.map_values(|p: Vec<u8>| p@)
}

/// The log row of a payload that arrived.
pub open spec fn arrival_row(
    hash: Seq<u8>,
    direction: PacketDirection,
    size: nat,
    snr: i16,
    rssi: i16,
    action: PacketAction,
    now: u64,
) -> LogEntryView {
    LogEntryView {
        timestamp: now,
        hash,
        direction,
        size,
        snr: Some(snr),
        rssi: Some(rssi),
        action,
        tx_retry: None,
    }
}

/// The log row of a transmission's progress.
pub open spec fn tx_row(seq: u64, size: nat, info: TxRetryInfo, now: u64) -> LogEntryView {
    LogEntryView {
        timestamp: now,
        hash: seq_mark(seq),
        direction: PacketDirection::GossipIn,
        size,
        snr: None,
        rssi: None,
        action: PacketAction::Bridged,
        tx_retry: Some(info),
    }
}

impl RouterView {
    /// The queue never holds more than its size, and the limiter is sound.
    pub open spec fn wf(self) -> bool {
        &&& self.our_id.len() == 32
        &&& self.tx_queue.len() <= self.tx_queue_size
        &&& self.limiter.wf()
    }

    /// A router that has seen nothing.
    pub open spec fn fresh(
        our_id: Seq<u8>,
        dedup_window: u64,
        tx_queue_size: nat,
        requested: LoRaConfig,
        limiter: LimiterView,
        now: u64,
    ) -> RouterView {
        RouterView {
            our_id,
            dedup: DedupView::empty(dedup_window),
            next_tx_seq: 0,
            tx_queue: Seq::empty(),
            tx_queue_size,
            last_cleanup: now,
            requested,
            limiter,
            stats: zero_stats(),
        }
    }

    /// After the periodic cleanup at time `now`: the dedup cache is pruned
    /// when the interval has passed.
    pub open spec fn ticked(self, now: u64) -> RouterView {
        if now >= self.last_cleanup && now - self.last_cleanup >= CLEANUP_INTERVAL_NANOS {
            RouterView { dedup: self.dedup.pruned(now), last_cleanup: now, ..self }
        } else {
            self
        }
    }

    /// What happens to a payload heard on the radio.
    pub open spec fn radio_fate(self, hash: Seq<u8>, now: u64) -> PacketAction {
        if self.dedup.holds(hash, now) {
            PacketAction::DroppedDedup
        } else {
            PacketAction::Bridged
        }
    }

    /// After a packet with a given content hash was heard on the radio.
    pub open spec fn heard(self, hash: Seq<u8>, now: u64) -> RouterView {
        let stats = Stats { radio_rx: self.stats.radio_rx.wrapping_add(1), ..self.stats };
        RouterView {
            dedup: self.dedup.offered(hash, now),
            stats: match self.radio_fate(hash, now) {
                PacketAction::DroppedDedup => Stats {
                    dedup_hits: stats.dedup_hits.wrapping_add(1),
                    ..stats
                },
                _ => Stats { gossip_tx: stats.gossip_tx.wrapping_add(1), ..stats },
            },
            ..self
        }
    }

    /// What is done about a packet heard on the radio: a new payload goes to
    /// the swarm under this bridge's name, a duplicate is only logged.
    pub open spec fn heard_output(self, pkt: PacketView, hash: Seq<u8>, now: u64) -> OutputView {
        let fate = self.radio_fate(hash, now);
        OutputView {
            broadcast: if fate == PacketAction::Bridged {
                Some(
                    FrameView {
                        sender: self.our_id,
                        rssi: pkt.rssi,
                        snr: pkt.snr,
                        payload: pkt.payload,
                    },
                )
            } else {
                None
            },
            log: Some(
                arrival_row(
                    hash,
                    PacketDirection::RadioIn,
                    pkt.payload.len(),
                    pkt.snr,
                    pkt.rssi,
                    fate,
                    now,
                ),
            ),
            config: None,
            drain: fate == PacketAction::Bridged,
        }
    }

    /// What happens to a payload that came through the swarm: it is a
    /// duplicate, or else over the rate, or else finds the queue full, or else
    /// is queued.
    pub open spec fn gossip_fate(self, hash: Seq<u8>, now: u64) -> PacketAction {
        if self.dedup.holds(hash, now) {
            PacketAction::DroppedDedup
        } else if !self.limiter.admits(now as int) {
            PacketAction::DroppedRateLimit
        } else if self.tx_queue.len() >= self.tx_queue_size {
            PacketAction::DroppedQueueFull
        } else {
            PacketAction::Bridged
        }
    }

    /// After a frame came through the swarm. The hash is recorded, and a token
    /// is asked for, even if the payload is then dropped.
    pub open spec fn gossiped(self, payload: Seq<u8>, hash: Seq<u8>, now: u64) -> RouterView {
        let stats = Stats { gossip_rx: self.stats.gossip_rx.wrapping_add(1), ..self.stats };
        let fate = self.gossip_fate(hash, now);
        RouterView {
            dedup: self.dedup.offered(hash, now),
            limiter: if fate == PacketAction::DroppedDedup {
                self.limiter
            } else {
                self.limiter.asked(now as int)
            },
            tx_queue: if fate == PacketAction::Bridged {
                self.tx_queue.push(payload)
            } else {
                self.tx_queue
            },
            stats: match fate {
                PacketAction::DroppedDedup => Stats {
                    dedup_hits: stats.dedup_hits.wrapping_add(1),
                    ..stats
                },
                PacketAction::DroppedRateLimit => Stats {
                    rate_limit_drops: stats.rate_limit_drops.wrapping_add(1),
                    ..stats
                },
                PacketAction::DroppedQueueFull => Stats {
                    dropped_queue: stats.dropped_queue.wrapping_add(1),
                    ..stats
                },
                PacketAction::Bridged => stats,
            },
            ..self
        }
    }

    /// What is done about a frame from the swarm: it is logged, and the queue
    /// is drained if it was queued.
    pub open spec fn gossiped_output(self, frame: FrameView, hash: Seq<u8>, now: u64) -> OutputView {
        let fate = self.gossip_fate(hash, now);
        OutputView {
            broadcast: None,
            log: Some(
                arrival_row(
                    hash,
                    PacketDirection::GossipIn,
                    frame.payload.len(),
                    frame.snr,
                    frame.rssi,
                    fate,
                    now,
                ),
            ),
            config: None,
            drain: fate == PacketAction::Bridged,
        }
    }

    /// After an event of the radio task. The measured time on air of a
    /// transmission goes to the rate limiter.
    pub open spec fn after_radio(self, event: RadioEventView, now: u64) -> RouterView {
        let s = self.stats;
        match event {
            RadioEventView::Packet(pkt) => self.heard(packet::blake3_digest(pkt.payload), now),
            RadioEventView::Connected(_, _, _) => RouterView {
                stats: Stats { radio_connected: 1, ..s },
                ..self
            },
            RadioEventView::Disconnected => RouterView {
                stats: Stats { radio_connected: 0, ..s },
                ..self
            },
            RadioEventView::TxAttempt { .. } => self,
            RadioEventView::TxRetry { .. } => RouterView {
                stats: Stats { tx_retries: s.tx_retries.wrapping_add(1), ..s },
                ..self
            },
            RadioEventView::TxSucceeded { final_airtime_us, .. } => RouterView {
                limiter: self.limiter.charged(final_airtime_us as int),
                stats: Stats { radio_tx: s.radio_tx.wrapping_add(1), ..s },
                ..self
            },
            RadioEventView::TxFailed { .. } => RouterView {
                stats: Stats { tx_failures: s.tx_failures.wrapping_add(1), ..s },
                ..self
            },
        }
    }

    /// What is done about an event of the radio task. A transmission that
    /// succeeded at the first attempt has its row already.
    pub open spec fn radio_output(self, event: RadioEventView, now: u64) -> OutputView {
        match event {
            RadioEventView::Packet(pkt) => self.heard_output(
                pkt,
                packet::blake3_digest(pkt.payload),
                now,
            ),
            RadioEventView::Connected(active, source, device) => OutputView {
                config: Some(
                    ConfigUpdateView::Connected(
                        ConfigInfoView {
                            active,
                            requested: self.requested,
                            source,
                            device,
                            connected: true,
                        },
                    ),
                ),
                ..OutputView::quiet()
            },
            RadioEventView::Disconnected => OutputView {
                config: Some(ConfigUpdateView::Disconnected),
                ..OutputView::quiet()
            },
            RadioEventView::TxAttempt { .. } => OutputView::quiet(),
            RadioEventView::TxRetry { seq, attempt_that_failed, total_attempts, reason, .. } => {
                OutputView {
                    log: Some(
                        tx_row(
                            seq,
                            0,
                            TxRetryInfo {
                                attempt: attempt_that_failed.saturating_add(1),
                                total_attempts,
                                state: TxRetryState::Retrying(reason),
                            },
                            now,
                        ),
                    ),
                    ..OutputView::quiet()
                }
            },
            RadioEventView::TxSucceeded { seq, attempts_used, total_attempts, size, .. } => OutputView {
                log: if attempts_used > 1 {
                    Some(
                        tx_row(
                            seq,
                            size as nat,
                            TxRetryInfo {
                                attempt: attempts_used,
                                total_attempts,
                                state: TxRetryState::Succeeded,
                            },
                            now,
                        ),
                    )
                } else {
                    None
                },
                ..OutputView::quiet()
            },
            RadioEventView::TxFailed { seq, attempts_used, size, .. } => OutputView {
                log: Some(
                    tx_row(
                        seq,
                        size as nat,
                        TxRetryInfo {
                            attempt: attempts_used,
                            total_attempts: attempts_used,
                            state: TxRetryState::Failed,
                        },
                        now,
                    ),
                ),
                ..OutputView::quiet()
            },
        }
    }

    /// After an event of the swarm.
    pub open spec fn after_gossip(self, event: GossipEventView, now: u64) -> RouterView {
        match event {
            GossipEventView::Frame(frame) => self.gossiped(
                frame.payload,
                packet::blake3_digest(frame.payload),
                now,
            ),
            GossipEventView::NeighborChanged(count) => RouterView {
                stats: Stats { neighbor_count: count as u64, ..self.stats },
                ..self
            },
        }
    }

    /// What is done about an event of the swarm.
    pub open spec fn gossip_output(self, event: GossipEventView, now: u64) -> OutputView {
        match event {
            GossipEventView::Frame(frame) => self.gossiped_output(
                frame,
                packet::blake3_digest(frame.payload),
                now,
            ),
            GossipEventView::NeighborChanged(_) => OutputView::quiet(),
        }
    }

    /// After the oldest payload left the queue for the radio task.
    pub open spec fn dequeued(self) -> RouterView {
        if self.tx_queue.len() == 0 {
            self
        } else {
            RouterView {
                next_tx_seq: self.next_tx_seq.wrapping_add(1),
                tx_queue: self.tx_queue.skip(1),
                ..self
            }
        }
    }

    /// After a payload came back from the radio task's channel, which was
    /// full: it is the next to leave, under the sequence number that it had.
    /// Without room in the queue it is lost.
    pub open spec fn put_back(self, seq: u64, payload: Seq<u8>) -> RouterView {
        if self.tx_queue.len() >= self.tx_queue_size {
            self
        } else {
            RouterView {
                next_tx_seq: seq.wrapping_sub(1),
                tx_queue: seq![payload] + self.tx_queue,
                ..self
            }
        }
    }

    /// After the oldest payload was offered to a full channel.
    pub open spec fn refused(self) -> RouterView {
        if self.tx_queue.len() == 0 {
            self
        } else {
            self.dequeued().put_back(self.dequeued().next_tx_seq, self.tx_queue[0])
        }
    }
}

impl View for Router {
    type V = RouterView;

    closed spec fn view(&self) -> RouterView {
        RouterView {
            our_id: self.our_id@,
            dedup: self.dedup@,
            next_tx_seq: self.next_tx_seq,
            tx_queue: payloads(self.tx_queue@),
            tx_queue_size: self.tx_queue_size as nat,
            last_cleanup: self.last_cleanup,
            requested: self.requested,
            limiter: self.rate_limiter@,
            stats: self.stats,
        }
    }
}

fn arrival_entry(
    hash: [u8; 32],
    direction: PacketDirection,
    size: usize,
    snr: i16,
    rssi: i16,
    action: PacketAction,
    now: u64,
) -> (e: PacketLogEntry)
    ensures
        e@ == arrival_row(hash@, direction, size as nat, snr, rssi, action, now),
{
    PacketLogEntry {
        timestamp: now,
        hash,
        direction,
        size,
        snr: Some(snr),
        rssi: Some(rssi),
        action,
        tx_retry: None,
    }
}

fn tx_entry(seq: u64, size: usize, info: TxRetryInfo, now: u64) -> (e: PacketLogEntry)
    ensures
        e@ == tx_row(seq, size as nat, info, now),
{
    PacketLogEntry {
        timestamp: now,
        hash: tx_seq_hash(seq),
        direction: PacketDirection::GossipIn,
        size,
        snr: None,
        rssi: None,
        action: PacketAction::Bridged,
        tx_retry: Some(info),
    }
}

fn quiet_output() -> (out: RouterOutput)
    ensures
        out@ == OutputView::quiet(),
{
    RouterOutput { broadcast: None, log: None, config: None, drain: true }
}

fn log_output(entry: PacketLogEntry) -> (out: RouterOutput)
    ensures
        out@ == (OutputView { log: Some(entry@), ..OutputView::quiet() }),
{
    RouterOutput { broadcast: None, log: Some(entry), config: None, drain: true }
}

impl Router {
    /// The invariant of a router.
    pub closed spec fn wf(&self) -> bool {
        self@.wf() && self.dedup.wf() && self.rate_limiter.wf()
    }

    /// A router that is sound has a sound view, of which the laws speak.
    pub proof fn lemma_wf(&self)
        requires
            self.wf(),
        ensures
            self@.wf(),
    {
    }

    /// A router for this bridge. The dedup window and `now` are in nanoseconds.
    pub fn new(
        our_id: [u8; 32],
        dedup_window: u64,
        tx_queue_size: usize,
        requested: LoRaConfig,
        rate_limiter: RateLimiter,
        now: u64,
    ) -> (r: Router)
        requires
            rate_limiter.wf(),
        ensures
            r.wf(),
            r@ == RouterView::fresh(
                our_id@,
                dedup_window,
                tx_queue_size as nat,
                requested,
                rate_limiter@,
                now,
            ),
    {
        proof {
            rate_limiter.lemma_wf();
        }
        let r: Router = Router {
            our_id,
            dedup: DedupCache::new(dedup_window),
            next_tx_seq: 0,
            tx_queue: VecDeque::new(),
            tx_queue_size,
            last_cleanup: now,
            requested,
            rate_limiter,
            stats: Stats::default(),
        };
        assert(r@.tx_queue =~= Seq::<Seq<u8>>::empty());
        r
    }

    /// The counters.
    pub fn stats(&self) -> (s: &Stats)
        ensures
            *s == self@.stats,
    {
        &self.stats
    }

    /// Periodic dedup cleanup; to be called before each wait for an event.
    pub fn tick(&mut self, now: u64)
        requires
            old(self).wf(),
        ensures
            final(self).wf(),
            final(self)@ == old(self)@.ticked(now),
    {
        if now >= self.last_cleanup && now - self.last_cleanup >= CLEANUP_INTERVAL_NANOS {
            self.dedup.prune(now);
            self.last_cleanup = now;
        }
    }

    /// Route a packet heard on the radio whose payload has the given content hash.
    pub fn handle_radio_packet(&mut self, pkt: RadioPacket, hash: [u8; 32], now: u64) -> (out:
        RouterOutput)
        requires
            old(self).wf(),
        ensures
            final(self).wf(),
            final(self)@ == old(self)@.heard(hash@, now),
            out@ == old(self)@.heard_output(pkt@, hash@, now),
    {
        self.stats.radio_rx = self.stats.radio_rx.wrapping_add(1);
        let size: usize = pkt.payload.len();
        if self.dedup.check_and_insert(hash, now) {
            self.stats.dedup_hits = self.stats.dedup_hits.wrapping_add(1);
            let entry: PacketLogEntry = arrival_entry(
                hash,
                PacketDirection::RadioIn,
                size,
                pkt.snr,
                pkt.rssi,
                PacketAction::DroppedDedup,
                now,
            );
            return RouterOutput { broadcast: None, log: Some(entry), config: None, drain: false };
        }
        let entry: PacketLogEntry = arrival_entry(
            hash,
            PacketDirection::RadioIn,
            size,
            pkt.snr,
            pkt.rssi,
            PacketAction::Bridged,
            now,
        );
        let frame: GossipFrame = GossipFrame::new(&self.our_id, pkt.rssi, pkt.snr, pkt.payload);
        self.stats.gossip_tx = self.stats.gossip_tx.wrapping_add(1);
        RouterOutput { broadcast: Some(frame), log: Some(entry), config: None, drain: true }
    }

    /// Route a frame from the swarm whose payload has the given content hash.
    pub fn handle_gossip_frame(&mut self, frame: GossipFrame, hash: [u8; 32], now: u64) -> (out:
        RouterOutput)
        requires
            old(self).wf(),
        ensures
            final(self).wf(),
            final(self)@ == old(self)@.gossiped(frame@.payload, hash@, now),
            out@ == old(self)@.gossiped_output(frame@, hash@, now),
    {
        self.stats.gossip_rx = self.stats.gossip_rx.wrapping_add(1);
        let size: usize = frame.payload.len();
        let action: PacketAction;
        if self.dedup.check_and_insert(hash, now) {
            self.stats.dedup_hits = self.stats.dedup_hits.wrapping_add(1);
            action = PacketAction::DroppedDedup;
        } else if !self.rate_limiter.try_acquire(now) {
            self.stats.rate_limit_drops = self.stats.rate_limit_drops.wrapping_add(1);
            action = PacketAction::DroppedRateLimit;
        } else if self.tx_queue.len() >= self.tx_queue_size {
            self.stats.dropped_queue = self.stats.dropped_queue.wrapping_add(1);
            action = PacketAction::DroppedQueueFull;
        } else {
            let ghost waiting = self.tx_queue@;
            let ghost payload = frame.payload;
            self.tx_queue.push_back(frame.payload);
            assert(payloads(waiting.push(payload)) =~= payloads(waiting).push(payload@));
            action = PacketAction::Bridged;
        }
        let entry: PacketLogEntry = arrival_entry(
            hash,
            PacketDirection::GossipIn,
            size,
            frame.snr,
            frame.rssi,
            action,
            now,
        );
        RouterOutput {
            broadcast: None,
            log: Some(entry),
            config: None,
            drain: action == PacketAction::Bridged,
        }
    }

    /// Take in an event of the radio task.
    pub fn on_radio_event(&mut self, event: RadioEvent, now: u64) -> (out: RouterOutput)
        requires
            old(self).wf(),
        ensures
            final(self).wf(),
            final(self)@ == old(self)@.after_radio(event@, now),
            out@ == old(self)@.radio_output(event@, now),
    {
        match event {
            RadioEvent::Packet(pkt) => {
                let hash: [u8; 32] = content_hash(pkt.payload.as_slice());
                self.handle_radio_packet(pkt, hash, now)
            },
            RadioEvent::Connected(active, source, device) => {
                self.stats.radio_connected = 1;
                let info: RadioConfigInfo = RadioConfigInfo {
                    active,
                    requested: self.requested,
                    source,
                    device,
                    connected: true,
                };
                RouterOutput {
                    broadcast: None,
                    log: None,
                    config: Some(ConfigUpdate::Connected(info)),
                    drain: true,
                }
            },
            RadioEvent::Disconnected => {
                self.stats.radio_connected = 0;
                RouterOutput {
                    broadcast: None,
                    log: None,
                    config: Some(ConfigUpdate::Disconnected),
                    drain: true,
                }
            },
            RadioEvent::TxAttempt { .. } => quiet_output(),
            RadioEvent::TxRetry { seq, attempt_that_failed, total_attempts, reason, .. } => {
                self.stats.tx_retries = self.stats.tx_retries.wrapping_add(1);
                let info: TxRetryInfo = TxRetryInfo {
                    attempt: attempt_that_failed.saturating_add(1),
                    total_attempts,
                    state: TxRetryState::Retrying(reason),
                };
                log_output(tx_entry(seq, 0, info, now))
            },
            RadioEvent::TxSucceeded {
                seq,
                attempts_used,
                total_attempts,
                final_airtime_us,
                size,
            } => {
                self.stats.radio_tx = self.stats.radio_tx.wrapping_add(1);
                self.rate_limiter.charge_airtime(final_airtime_us);
                if attempts_used > 1 {
                    let info: TxRetryInfo = TxRetryInfo {
                        attempt: attempts_used,
                        total_attempts,
                        state: TxRetryState::Succeeded,
                    };
                    log_output(tx_entry(seq, size, info, now))
                } else {
                    quiet_output()
                }
            },
            RadioEvent::TxFailed { seq, attempts_used, size, .. } => {
                self.stats.tx_failures = self.stats.tx_failures.wrapping_add(1);
                let info: TxRetryInfo = TxRetryInfo {
                    attempt: attempts_used,
                    total_attempts: attempts_used,
                    state: TxRetryState::Failed,
                };
                log_output(tx_entry(seq, size, info, now))
            },
        }
    }

    /// Take in an event of the swarm.
    pub fn on_gossip_event(&mut self, event: GossipEvent, now: u64) -> (out: RouterOutput)
        requires
            old(self).wf(),
        ensures
            final(self).wf(),
            final(self)@ == old(self)@.after_gossip(event@, now),
            out@ == old(self)@.gossip_output(event@, now),
    {
        match event {
            GossipEvent::Frame(frame) => {
                let hash: [u8; 32] = content_hash(frame.payload.as_slice());
                self.handle_gossip_frame(frame, hash, now)
            },
            GossipEvent::NeighborChanged(count) => {
                self.stats.neighbor_count = count as u64;
                quiet_output()
            },
        }
    }

    /// The next transmission for the radio task: the oldest queued payload
    /// under the next sequence number.
    pub fn next_tx(&mut self) -> (r: Option<TxRequest>)
        requires
            old(self).wf(),
        ensures
            final(self).wf(),
            final(self)@ == old(self)@.dequeued(),
            match r {
                Some(req) => {
                    &&& old(self)@.tx_queue.len() > 0
                    &&& req.seq == final(self)@.next_tx_seq
                    &&& req.data@ == old(self)@.tx_queue[0]
                },
                None => old(self)@.tx_queue.len() == 0,
            },
    {
        let ghost waiting = self.tx_queue@;
        match self.tx_queue.pop_front() {
            Some(data) => {
                self.next_tx_seq = self.next_tx_seq.wrapping_add(1);
                assert(payloads(self.tx_queue@) =~= payloads(waiting).skip(1));
                Some(TxRequest { seq: self.next_tx_seq, data })
            },
            None => None,
        }
    }

    /// Take back a transmission that the radio task's channel had no room
    /// for. It is the next one again. Returns whether the queue had room,
    /// which [`Router::next_tx`] has just made.
    pub fn put_back(&mut self, request: TxRequest) -> (kept: bool)
        requires
            old(self).wf(),
        ensures
            final(self).wf(),
            final(self)@ == old(self)@.put_back(request.seq, request.data@),
            kept == (old(self)@.tx_queue.len() < old(self)@.tx_queue_size),
    {
        if self.tx_queue.len() >= self.tx_queue_size {
            return false;
        }
        let ghost waiting = self.tx_queue@;
        let ghost data = request.data;
        self.next_tx_seq = request.seq.wrapping_sub(1);
        self.tx_queue.push_front(request.data);
        assert(payloads(seq![data] + waiting) =~= seq![data@] + payloads(waiting));
        true
    }
}

// ── Laws ────────────────────────────────────────────────────────────

/// Something that happens to a router.
#[verifier::ext_equal]
pub enum RouterInput {
    Tick,
    Radio(RadioEventView),
    Gossip(GossipEventView),
    /// The oldest payload leaves for the radio task.
    Dequeue,
    /// The oldest payload is offered to a full channel.
    Refused,
}

/// The payload that arrives with an input, if one does.
pub open spec fn arriving(input: RouterInput) -> Option<Seq<u8>> {
    match input {
        RouterInput::Radio(RadioEventView::Packet(pkt)) => Some(pkt.payload),
        RouterInput::Gossip(GossipEventView::Frame(frame)) => Some(frame.payload),
        _ => None,
    }
}

impl RouterView {
    /// The router after one input.
    pub open spec fn after(self, input: RouterInput, now: u64) -> RouterView {
        match input {
            RouterInput::Tick => self.ticked(now),
            RouterInput::Radio(event) => self.after_radio(event, now),
            RouterInput::Gossip(event) => self.after_gossip(event, now),
            RouterInput::Dequeue => self.dequeued(),
            RouterInput::Refused => self.refused(),
        }
    }

    /// What is done about one input.
    pub open spec fn output(self, input: RouterInput, now: u64) -> OutputView {
        match input {
            RouterInput::Radio(event) => self.radio_output(event, now),
            RouterInput::Gossip(event) => self.gossip_output(event, now),
            _ => OutputView::quiet(),
        }
    }

    /// The router after a run of inputs.
    pub open spec fn after_all(self, inputs: Seq<(RouterInput, u64)>) -> RouterView
        decreases inputs.len(),
    {
        if inputs.len() == 0 {
            self
        } else {
            self.after_all(inputs.drop_last()).after(inputs.last().0, inputs.last().1)
        }
    }
}

/// Law: whatever happens, the TX queue never outgrows its size, the rate
/// limiter stays sound, and the router keeps its identity and settings.
pub proof fn law_router_stays_sound(v: RouterView, inputs: Seq<(RouterInput, u64)>)
    requires
        v.wf(),
    ensures
        v.after_all(inputs).wf(),
        v.after_all(inputs).our_id == v.our_id,
        v.after_all(inputs).tx_queue_size == v.tx_queue_size,
        v.after_all(inputs).requested == v.requested,
        v.after_all(inputs).dedup.ttl == v.dedup.ttl,
        v.after_all(inputs).limiter.rate == v.limiter.rate,
        v.after_all(inputs).limiter.share == v.limiter.share,
    decreases inputs.len(),
{
    if inputs.len() > 0 {
        law_router_stays_sound(v, inputs.drop_last());
        let w = v.after_all(inputs.drop_last());
        crate::rate_limit::law_bucket_stays_in_bounds(w.limiter, inputs.last().1 as int);
        if let RouterInput::Radio(RadioEventView::TxSucceeded { final_airtime_us, .. }) =
            inputs.last().0 {
            crate::rate_limit::law_longer_airtime_leaves_less(
                w.limiter,
                0,
                final_airtime_us as int,
            );
        }
    }
}

proof fn lemma_entry_stands(
    v: RouterView,
    key: Seq<u8>,
    seen: u64,
    inputs: Seq<(RouterInput, u64)>,
)
    requires
        v.dedup.entries.contains_key(key),
        v.dedup.entries[key] == seen,
        v.dedup.ttl > 0,
        forall|i: int|
            0 <= i < inputs.len() ==> seen <= (#[trigger] inputs[i]).1 && inputs[i].1 - seen
                < v.dedup.ttl,
    ensures
        v.after_all(inputs).dedup.entries.contains_key(key),
        v.after_all(inputs).dedup.entries[key] == seen,
        v.after_all(inputs).dedup.ttl == v.dedup.ttl,
    decreases inputs.len(),
{
    if inputs.len() > 0 {
        let before = inputs.drop_last();
        assert forall|i: int| 0 <= i < before.len() implies seen <= (#[trigger] before[i]).1
            && before[i].1 - seen < v.dedup.ttl by {
            assert(before[i] == inputs[i]);
        }
        lemma_entry_stands(v, key, seen, before);
        assert(inputs.last() == inputs[inputs.len() - 1]);
    }
}

/// Law: once a payload has been let through, from either side and whatever
/// then became of it, the same payload is dropped as a duplicate, from either
/// side, until the dedup window has passed, whatever else happens meanwhile.
pub proof fn law_no_payload_crosses_twice(
    v: RouterView,
    payload: Seq<u8>,
    first: RouterInput,
    at: u64,
    inputs: Seq<(RouterInput, u64)>,
    now: u64,
)
    requires
        arriving(first) == Some(payload),
        !v.dedup.holds(packet::blake3_digest(payload), at),
        forall|i: int|
            0 <= i < inputs.len() ==> at <= (#[trigger] inputs[i]).1 && inputs[i].1 - at
                < v.dedup.ttl,
        at <= now,
        now - at < v.dedup.ttl,
    ensures
        ({
            let w = v.after(first, at).after_all(inputs);
            let hash = packet::blake3_digest(payload);
            &&& w.radio_fate(hash, now) == PacketAction::DroppedDedup
            &&& w.gossip_fate(hash, now) == PacketAction::DroppedDedup
        }),
{
    lemma_entry_stands(v.after(first, at), packet::blake3_digest(payload), at, inputs);
}

proof fn lemma_entry_not_renewed(
    v: RouterView,
    key: Seq<u8>,
    seen: u64,
    inputs: Seq<(RouterInput, u64)>,
)
    requires
        v.dedup.entries.contains_key(key) ==> v.dedup.entries[key] == seen,
        forall|i: int|
            0 <= i < inputs.len() ==> (arriving((#[trigger] inputs[i]).0) matches Some(p)
                ==> packet::blake3_digest(p) != key),
    ensures
        ({
            let w = v.after_all(inputs);
            &&& w.dedup.entries.contains_key(key) ==> w.dedup.entries[key] == seen
            &&& w.dedup.ttl == v.dedup.ttl
        }),
    decreases inputs.len(),
{
    if inputs.len() > 0 {
        let before = inputs.drop_last();
        assert forall|i: int| 0 <= i < before.len() implies (arriving((#[trigger] before[i]).0) matches Some(
            p,
        ) ==> packet::blake3_digest(p) != key) by {
            assert(before[i] == inputs[i]);
        }
        lemma_entry_not_renewed(v, key, seen, before);
        assert(inputs.last() == inputs[inputs.len() - 1]);
    }
}

/// Law: once the dedup window has passed without the payload, it is no
/// duplicate any more: from the radio it is let through, and from the swarm
/// it is subject to the rate and the queue alone.
pub proof fn law_window_passes(
    v: RouterView,
    payload: Seq<u8>,
    first: RouterInput,
    at: u64,
    inputs: Seq<(RouterInput, u64)>,
    now: u64,
)
    requires
        arriving(first) == Some(payload),
        !v.dedup.holds(packet::blake3_digest(payload), at),
        forall|i: int|
            0 <= i < inputs.len() ==> (arriving((#[trigger] inputs[i]).0) matches Some(p)
                ==> packet::blake3_digest(p) != packet::blake3_digest(payload)),
        now - at >= v.dedup.ttl,
    ensures
        ({
            let w = v.after(first, at).after_all(inputs);
            let hash = packet::blake3_digest(payload);
            &&& w.radio_fate(hash, now) == PacketAction::Bridged
            &&& w.gossip_fate(hash, now) != PacketAction::DroppedDedup
        }),
{
    lemma_entry_not_renewed(v.after(first, at), packet::blake3_digest(payload), at, inputs);
}

/// Law: a frame from the swarm is counted once as received, and meets exactly
/// one fate: it is counted as a duplicate, as over the rate, or as dropped for
/// want of room, or the queue grows by its payload.
pub proof fn law_frame_meets_one_fate(v: RouterView, frame: FrameView, now: u64)
    ensures
        ({
            let hash = packet::blake3_digest(frame.payload);
            let w = v.after_gossip(GossipEventView::Frame(frame), now);
            let fate = v.gossip_fate(hash, now);
            &&& w.stats.gossip_rx == v.stats.gossip_rx.wrapping_add(1)
            &&& fate == PacketAction::DroppedDedup <==> w.stats.dedup_hits != v.stats.dedup_hits
            &&& fate == PacketAction::DroppedRateLimit <==> w.stats.rate_limit_drops
                != v.stats.rate_limit_drops
            &&& fate == PacketAction::DroppedQueueFull <==> w.stats.dropped_queue
                != v.stats.dropped_queue
            &&& fate == PacketAction::Bridged <==> w.tx_queue == v.tx_queue.push(frame.payload)
            &&& fate != PacketAction::Bridged <==> w.tx_queue == v.tx_queue
        }),
{
    assert(v.tx_queue.push(frame.payload).len() != v.tx_queue.len());
}

/// Law: what becomes of a frame from the swarm. One whose payload was let
/// through within the window is a duplicate; of the others, one for which the
/// limiter has no token is over the rate; of the others, one that finds the
/// queue as long as its size is dropped, and the rest wait at the end of the
/// queue. The limiter is asked for a token for every frame but a duplicate.
pub proof fn law_fate_of_a_frame(v: RouterView, frame: FrameView, now: u64)
    ensures
        ({
            let hash = packet::blake3_digest(frame.payload);
            let w = v.after_gossip(GossipEventView::Frame(frame), now);
            let out = v.gossip_output(GossipEventView::Frame(frame), now);
            let seen = v.dedup.entries.contains_key(hash) && now - v.dedup.entries[hash]
                < v.dedup.ttl && v.dedup.ttl > 0;
            let over = !v.limiter.admits(now as int);
            let full = v.tx_queue.len() >= v.tx_queue_size;
            &&& out.log matches Some(row)
            &&& row.direction == PacketDirection::GossipIn
            &&& row.hash == hash
            &&& row.size == frame.payload.len()
            &&& row.rssi == Some(frame.rssi)
            &&& row.snr == Some(frame.snr)
            &&& row.timestamp == now
            &&& row.tx_retry is None
            &&& w.dedup == if seen {
                v.dedup
            } else {
                DedupView { entries: v.dedup.entries.insert(hash, now), ttl: v.dedup.ttl }
            }
            &&& w.our_id == v.our_id
            &&& w.requested == v.requested
            &&& w.tx_queue_size == v.tx_queue_size
            &&& row.action == PacketAction::DroppedDedup <==> seen
            &&& row.action == PacketAction::DroppedRateLimit <==> !seen && over
            &&& row.action == PacketAction::DroppedQueueFull <==> !seen && !over && full
            &&& row.action == PacketAction::Bridged <==> !seen && !over && !full
            &&& out.drain <==> row.action == PacketAction::Bridged
            &&& out.broadcast is None
            &&& out.config is None
            &&& w.tx_queue == if !seen && !over && !full {
                v.tx_queue.push(frame.payload)
            } else {
                v.tx_queue
            }
            &&& w.limiter == if seen {
                v.limiter
            } else {
                v.limiter.asked(now as int)
            }
            &&& w.next_tx_seq == v.next_tx_seq
            &&& w.last_cleanup == v.last_cleanup
            &&& w.stats.gossip_rx == v.stats.gossip_rx.wrapping_add(1)
            &&& w.stats.dedup_hits == if seen {
                v.stats.dedup_hits.wrapping_add(1)
            } else {
                v.stats.dedup_hits
            }
            &&& w.stats.rate_limit_drops == if !seen && over {
                v.stats.rate_limit_drops.wrapping_add(1)
            } else {
                v.stats.rate_limit_drops
            }
            &&& w.stats.dropped_queue == if !seen && !over && full {
                v.stats.dropped_queue.wrapping_add(1)
            } else {
                v.stats.dropped_queue
            }
            &&& w.stats.radio_rx == v.stats.radio_rx
            &&& w.stats.radio_tx == v.stats.radio_tx
            &&& w.stats.gossip_tx == v.stats.gossip_tx
            &&& w.stats.neighbor_count == v.stats.neighbor_count
            &&& w.stats.radio_connected == v.stats.radio_connected
            &&& w.stats.tx_retries == v.stats.tx_retries
            &&& w.stats.tx_failures == v.stats.tx_failures
        }),
{
}

/// Law: what becomes of a packet heard on the radio. One whose payload was let
/// through within the window is only logged; any other goes to the swarm under
/// this bridge's name, with its levels. Neither the queue nor the limiter nor
/// any counter of the other side has a part in it.
pub proof fn law_fate_of_a_packet(v: RouterView, pkt: PacketView, now: u64)
    ensures
        ({
            let hash = packet::blake3_digest(pkt.payload);
            let w = v.after_radio(RadioEventView::Packet(pkt), now);
            let out = v.radio_output(RadioEventView::Packet(pkt), now);
            let seen = v.dedup.entries.contains_key(hash) && now - v.dedup.entries[hash]
                < v.dedup.ttl && v.dedup.ttl > 0;
            &&& out.log matches Some(row)
            &&& row.action == PacketAction::DroppedDedup <==> seen
            &&& row.action == PacketAction::Bridged <==> !seen
            &&& row.direction == PacketDirection::RadioIn
            &&& row.hash == hash
            &&& row.size == pkt.payload.len()
            &&& row.rssi == Some(pkt.rssi)
            &&& row.snr == Some(pkt.snr)
            &&& row.timestamp == now
            &&& row.tx_retry is None
            &&& out.config is None
            &&& out.drain == !seen
            &&& seen <==> out.broadcast is None
            &&& out.broadcast matches Some(f) ==> {
                &&& f.sender == v.our_id
                &&& f.rssi == pkt.rssi
                &&& f.snr == pkt.snr
                &&& f.payload == pkt.payload
            }
            &&& w.stats.radio_rx == v.stats.radio_rx.wrapping_add(1)
            &&& w.stats.gossip_tx == if seen {
                v.stats.gossip_tx
            } else {
                v.stats.gossip_tx.wrapping_add(1)
            }
            &&& w.stats.dedup_hits == if seen {
                v.stats.dedup_hits.wrapping_add(1)
            } else {
                v.stats.dedup_hits
            }
            &&& w.tx_queue == v.tx_queue
            &&& w.limiter == v.limiter
            &&& w.next_tx_seq == v.next_tx_seq
            &&& w.stats.gossip_rx == v.stats.gossip_rx
            &&& w.stats.rate_limit_drops == v.stats.rate_limit_drops
            &&& w.stats.dropped_queue == v.stats.dropped_queue
            &&& w.stats.radio_tx == v.stats.radio_tx
            &&& w.stats.neighbor_count == v.stats.neighbor_count
            &&& w.stats.radio_connected == v.stats.radio_connected
            &&& w.stats.tx_retries == v.stats.tx_retries
            &&& w.stats.tx_failures == v.stats.tx_failures
            &&& w.dedup == if seen {
                v.dedup
            } else {
                DedupView { entries: v.dedup.entries.insert(hash, now), ttl: v.dedup.ttl }
            }
            &&& w.our_id == v.our_id
            &&& w.requested == v.requested
            &&& w.tx_queue_size == v.tx_queue_size
            &&& w.last_cleanup == v.last_cleanup
        }),
{
}

/// Law: a connection of the radio is marked in the counters and reported with
/// the config in force, whose it is, the device, and the config that was asked
/// for; a disconnection takes the mark off. Nothing else changes, and neither
/// has a row.
pub proof fn law_connections_are_reported(
    v: RouterView,
    active: LoRaConfig,
    source: ConfigSource,
    device: Seq<char>,
    now: u64,
)
    ensures
        ({
            let event = RadioEventView::Connected(active, source, device);
            let w = v.after_radio(event, now);
            let out = v.radio_output(event, now);
            &&& w == (RouterView { stats: Stats { radio_connected: 1, ..v.stats }, ..v })
            &&& out.log is None
            &&& out.broadcast is None
            &&& out.drain
            &&& out.config matches Some(ConfigUpdateView::Connected(info))
            &&& info.active == active
            &&& info.source == source
            &&& info.device == device
            &&& info.requested == v.requested
            &&& info.connected
        }),
        ({
            let w = v.after_radio(RadioEventView::Disconnected, now);
            let out = v.radio_output(RadioEventView::Disconnected, now);
            &&& w == (RouterView { stats: Stats { radio_connected: 0, ..v.stats }, ..v })
            &&& out.log is None
            &&& out.broadcast is None
            &&& out.drain
            &&& out.config == Some(ConfigUpdateView::Disconnected)
        }),
{
}

/// Law: the rows of a transmission. A retry has one that counts the attempt
/// after the one that failed and says why; a success has one, with its size,
/// only if it took more than one attempt; a failure has one with its size. All
/// stand under the mark of the sequence number, without levels. Nothing goes
/// to the swarm, and the queue is drained.
pub proof fn law_rows_of_a_transmission(v: RouterView, event: RadioEventView, now: u64)
    ensures
        event is TxAttempt || event is TxRetry || event is TxSucceeded || event is TxFailed ==> {
            let out = v.radio_output(event, now);
            &&& out.drain
            &&& out.broadcast is None
            &&& out.config is None
            &&& out.log matches Some(row) ==> row.action == PacketAction::Bridged
        },
        event matches RadioEventView::TxAttempt { .. } ==> {
            &&& v.radio_output(event, now).log is None
            &&& v.after_radio(event, now) == v
        },
        event matches RadioEventView::TxRetry {
            seq,
            attempt_that_failed,
            total_attempts,
            reason,
            ..
        } ==> {
            &&& v.radio_output(event, now).log matches Some(row)
            &&& row.tx_retry matches Some(info)
            &&& attempt_that_failed < 255 ==> info.attempt == attempt_that_failed + 1
            &&& attempt_that_failed == 255 ==> info.attempt == 255
            &&& info.total_attempts == total_attempts
            &&& info.state == TxRetryState::Retrying(reason)
            &&& row.size == 0
            &&& row.hash == seq_mark(seq)
            &&& row.timestamp == now
            &&& row.snr is None && row.rssi is None
            &&& row.direction == PacketDirection::GossipIn
        },
        event matches RadioEventView::TxSucceeded {
            seq,
            attempts_used,
            total_attempts,
            size,
            ..
        } ==> {
            &&& v.radio_output(event, now).log is Some <==> attempts_used >= 2
            &&& v.radio_output(event, now).log matches Some(row) ==> {
                &&& row.tx_retry == Some(
                    TxRetryInfo {
                        attempt: attempts_used,
                        total_attempts,
                        state: TxRetryState::Succeeded,
                    },
                )
                &&& row.size == size
                &&& row.hash == seq_mark(seq)
                &&& row.timestamp == now
                &&& row.snr is None && row.rssi is None
                &&& row.direction == PacketDirection::GossipIn
            }
        },
        event matches RadioEventView::TxFailed { seq, attempts_used, size, .. } ==> {
            &&& v.radio_output(event, now).log matches Some(row)
            &&& row.tx_retry == Some(
                TxRetryInfo {
                    attempt: attempts_used,
                    total_attempts: attempts_used,
                    state: TxRetryState::Failed,
                },
            )
            &&& row.size == size
            &&& row.hash == seq_mark(seq)
            &&& row.timestamp == now
            &&& row.snr is None && row.rssi is None
            &&& row.direction == PacketDirection::GossipIn
        },
{
}

/// Law: the number of neighbors is kept as it was last reported, and nothing
/// else changes with it.
pub proof fn law_neighbors_are_kept(v: RouterView, count: usize, now: u64)
    ensures
        ({
            let event = GossipEventView::NeighborChanged(count);
            &&& v.after_gossip(event, now) == (RouterView {
                stats: Stats { neighbor_count: count as u64, ..v.stats },
                ..v
            })
            &&& v.gossip_output(event, now).log is None
            &&& v.gossip_output(event, now).broadcast is None
            &&& v.gossip_output(event, now).config is None
            &&& v.gossip_output(event, now).drain
        }),
{
}

/// Law: a new router is this bridge's, with nothing queued, seen or counted,
/// and with the window, the queue size, the config, the limiter and the time
/// that it was given.
pub proof fn law_new_router(
    our_id: [u8; 32],
    dedup_window: u64,
    tx_queue_size: usize,
    requested: LoRaConfig,
    limiter: RateLimiter,
    now: u64,
    r: Router,
    hash: Seq<u8>,
)
    requires
        call_ensures(
            Router::new,
            (our_id, dedup_window, tx_queue_size, requested, limiter, now),
            r,
        ),
    ensures
        r@.our_id == our_id@,
        r@.dedup.ttl == dedup_window,
        !r@.dedup.entries.contains_key(hash),
        r@.next_tx_seq == 0,
        r@.tx_queue.len() == 0,
        r@.tx_queue_size == tx_queue_size,
        r@.last_cleanup == now,
        r@.requested == requested,
        r@.limiter == limiter@,
        r@.stats == (Stats {
            radio_rx: 0,
            radio_tx: 0,
            gossip_rx: 0,
            gossip_tx: 0,
            dedup_hits: 0,
            rate_limit_drops: 0,
            dropped_queue: 0,
            neighbor_count: 0,
            radio_connected: 0,
            tx_retries: 0,
            tx_failures: 0,
        }),
{
}

/// Law: a router takes in what happens as the laws of [`RouterView`] say: the
/// passing of time, the events of the radio task and of the swarm, and the
/// packets and frames that come with them under the hash of their payload.
pub proof fn law_router_takes_in(
    r: &mut Router,
    now: u64,
    s: &mut Router,
    event: RadioEvent,
    out: RouterOutput,
    t: &mut Router,
    swarm_event: GossipEvent,
    swarm_out: RouterOutput,
)
    requires
        call_ensures(Router::tick, (r, now), ()),
        call_ensures(Router::on_radio_event, (s, event, now), out),
        call_ensures(Router::on_gossip_event, (t, swarm_event, now), swarm_out),
    ensures
        final(r)@ == old(r)@.ticked(now),
        final(s)@ == old(s)@.after_radio(event@, now),
        out@ == old(s)@.radio_output(event@, now),
        final(t)@ == old(t)@.after_gossip(swarm_event@, now),
        swarm_out@ == old(t)@.gossip_output(swarm_event@, now),
{
}

/// Law: a packet and a frame are routed under the hash they are given with as
/// they are under the hash of their payload.
pub proof fn law_router_routes_by_hash(
    r: &mut Router,
    pkt: RadioPacket,
    hash: [u8; 32],
    now: u64,
    out: RouterOutput,
    s: &mut Router,
    frame: GossipFrame,
    swarm_out: RouterOutput,
)
    requires
        call_ensures(Router::handle_radio_packet, (r, pkt, hash, now), out),
        call_ensures(Router::handle_gossip_frame, (s, frame, hash, now), swarm_out),
    ensures
        hash@ == packet::blake3_digest(pkt.payload@) ==> {
            let event = RadioEventView::Packet(pkt@);
            &&& final(r)@ == old(r)@.after_radio(event, now)
            &&& out@ == old(r)@.radio_output(event, now)
        },
        hash@ == packet::blake3_digest(frame.payload@) ==> {
            let event = GossipEventView::Frame(frame@);
            &&& final(s)@ == old(s)@.after_gossip(event, now)
            &&& swarm_out@ == old(s)@.gossip_output(event, now)
        },
        out.log matches Some(row) ==> row.hash@ == hash@ && row.timestamp == now,
        swarm_out.log matches Some(row) ==> row.hash@ == hash@ && row.timestamp == now,
        out.broadcast is Some <==> !(old(r)@.dedup.entries.contains_key(hash@) && now
            - old(r)@.dedup.entries[hash@] < old(r)@.dedup.ttl && old(r)@.dedup.ttl > 0),
{
    assert(out.log matches Some(row) ==> out@.log == Some(row@));
    assert(swarm_out.log matches Some(row) ==> swarm_out@.log == Some(row@));
}

/// Law: the oldest payload leaves under the number after the last one; without
/// one nothing leaves. One that comes back is kept if and only if the queue
/// has room.
pub proof fn law_payloads_leave_and_come_back(
    r: &mut Router,
    request: Option<TxRequest>,
    s: &mut Router,
    back: TxRequest,
    kept: bool,
)
    requires
        call_ensures(Router::next_tx, (r,), request),
        call_ensures(Router::put_back, (s, back), kept),
    ensures
        request is Some <==> old(r)@.tx_queue.len() > 0,
        request matches Some(q) ==> {
            &&& q.data@ == old(r)@.tx_queue[0]
            &&& old(r)@.next_tx_seq < u64::MAX ==> q.seq == old(r)@.next_tx_seq + 1
            &&& final(r)@.next_tx_seq == q.seq
            &&& final(r)@.tx_queue == old(r)@.tx_queue.skip(1)
        },
        request is None ==> final(r)@ == old(r)@,
        kept <==> old(s)@.tx_queue.len() < old(s)@.tx_queue_size,
        !kept ==> final(s)@ == old(s)@,
        kept ==> {
            &&& final(s)@.tx_queue == seq![back.data@] + old(s)@.tx_queue
            &&& final(s)@.dequeued().next_tx_seq == back.seq
        },
{
}

/// Law: a payload that is put back is the next to leave again, under the
/// number it had, before those that waited behind it; where the queue is full
/// it is lost and nothing changes. Leaving and coming back change nothing
/// else.
pub proof fn law_put_back_is_next(v: RouterView, seq: u64, payload: Seq<u8>, i: int)
    requires
        0 <= i < v.tx_queue.len(),
    ensures
        v.tx_queue.len() >= v.tx_queue_size ==> v.put_back(seq, payload) == v,
        v.tx_queue.len() < v.tx_queue_size ==> {
            let w = v.put_back(seq, payload);
            &&& w.tx_queue.len() == v.tx_queue.len() + 1
            &&& w.tx_queue[0] == payload
            &&& w.tx_queue[i + 1] == v.tx_queue[i]
            &&& w.dequeued().next_tx_seq == seq
            &&& w.dequeued().tx_queue == v.tx_queue
            &&& w == (RouterView { next_tx_seq: w.next_tx_seq, tx_queue: w.tx_queue, ..v })
        },
        ({
            let w = v.dequeued();
            &&& w.tx_queue.len() == v.tx_queue.len() - 1
            &&& i > 0 ==> w.tx_queue[i - 1] == v.tx_queue[i]
            &&& v.next_tx_seq < u64::MAX ==> w.next_tx_seq == v.next_tx_seq + 1
            &&& w == (RouterView { next_tx_seq: w.next_tx_seq, tx_queue: w.tx_queue, ..v })
        }),
{
    let w = v.put_back(seq, payload);
    if v.tx_queue.len() < v.tx_queue_size {
        assert(w.tx_queue.skip(1) =~= v.tx_queue);
    }
}

/// Law: expired hashes are dropped once thirty seconds have passed since they
/// last were, and not before; nothing but them is dropped.
pub proof fn law_cleanup_every_thirty_seconds(v: RouterView, now: u64, hash: Seq<u8>)
    ensures
        now - v.last_cleanup < 30_000_000_000 ==> v.ticked(now) == v,
        now - v.last_cleanup >= 30_000_000_000 ==> {
            let w = v.ticked(now);
            &&& w.last_cleanup == now
            &&& w.dedup.entries.contains_key(hash) <==> v.dedup.entries.contains_key(hash)
                && v.dedup.ttl > 0 && now - v.dedup.entries[hash] < v.dedup.ttl
            &&& w.dedup.entries.contains_key(hash) ==> w.dedup.entries[hash]
                == v.dedup.entries[hash]
            &&& w.tx_queue == v.tx_queue
            &&& w.limiter == v.limiter
            &&& w.stats == v.stats
            &&& w.next_tx_seq == v.next_tx_seq
            &&& w.our_id == v.our_id
            &&& w.dedup.ttl == v.dedup.ttl
            &&& w.tx_queue_size == v.tx_queue_size
            &&& w.requested == v.requested
        },
{
}

/// The router after `n` payloads left the queue.
pub open spec fn dequeued_times(v: RouterView, n: nat) -> RouterView
    decreases n,
{
    if n == 0 {
        v
    } else {
        dequeued_times(v, (n - 1) as nat).dequeued()
    }
}

/// Law: payloads leave the queue in the order in which they entered, under
/// consecutive sequence numbers.
pub proof fn law_queue_is_fifo(v: RouterView, n: nat)
    requires
        n < v.tx_queue.len(),
    ensures
        dequeued_times(v, n).tx_queue[0] == v.tx_queue[n as int],
        dequeued_times(v, n + 1).next_tx_seq == (v.next_tx_seq + n + 1) % 0x1_0000_0000_0000_0000,
{
    lemma_dequeued_times(v, n);
    lemma_dequeued_times(v, n + 1);
}

proof fn lemma_dequeued_times(v: RouterView, n: nat)
    requires
        n <= v.tx_queue.len(),
    ensures
        dequeued_times(v, n).tx_queue == v.tx_queue.skip(n as int),
        dequeued_times(v, n).next_tx_seq == (v.next_tx_seq + n) % 0x1_0000_0000_0000_0000,
    decreases n,
{
    if n == 0 {
        assert(v.tx_queue.skip(0) =~= v.tx_queue);
    } else {
        lemma_dequeued_times(v, (n - 1) as nat);
        assert(v.tx_queue.skip(n - 1).skip(1) =~= v.tx_queue.skip(n as int));
    }
}

/// Law: a payload that one bridge hears as new reaches the transmit queue of
/// every other bridge that receives the broadcast, has not seen the payload
/// within its window, is under its rate and has room.
pub proof fn law_payload_reaches_the_other_radio(
    near: RouterView,
    pkt: PacketView,
    heard_at: u64,
    far: RouterView,
    neighbors: Set<Seq<u8>>,
    content: Vec<u8>,
    received_at: u64,
)
    requires
        near.wf(),
        far.wf(),
        pkt.payload.len() <= 65535,
        near.radio_fate(packet::blake3_digest(pkt.payload), heard_at) == PacketAction::Bridged,
        near.radio_output(RadioEventView::Packet(pkt), heard_at).broadcast matches Some(f)
            && content@ == packet::frame_bytes(f),
        !far.dedup.holds(packet::blake3_digest(pkt.payload), received_at),
        far.limiter.admits(received_at as int),
        far.tx_queue.len() < far.tx_queue_size,
    ensures
        ({
            let action = gossip::receiver_action(
                neighbors,
                ReceiverInput::Event(SwarmEvent::Received(content)),
            );
            &&& action matches ReceiverActionView::Forward(event)
            &&& far.after_gossip(event, received_at).tx_queue == far.tx_queue.push(pkt.payload)
            &&& far.gossip_output(event, received_at).drain
        }),
{
    let f = near.radio_output(RadioEventView::Packet(pkt), heard_at).broadcast->0;
    packet::law_frame_round_trip(f);
}

/// The router after a run of events of the radio task.
pub open spec fn after_events(v: RouterView, events: Seq<RadioEventView>, now: u64) -> RouterView
    decreases events.len(),
{
    if events.len() == 0 {
        v
    } else {
        after_events(v, events.drop_last(), now).after_radio(events.last(), now)
    }
}

proof fn lemma_retries_counted(
    v: RouterView,
    seq: u64,
    policy: RetryPolicy,
    attempts: Seq<TxAttempt>,
    n: int,
    now: u64,
)
    requires
        0 <= n <= attempts.len() <= 255,
        forall|i: int| 0 <= i < attempts.len() ==> (#[trigger] attempts[i]).attempt == i + 1,
        v.stats.tx_retries + 255 <= u64::MAX,
    ensures
        after_events(v, radio::retry_events(seq, policy, attempts, n), now) == (RouterView {
            stats: Stats {
                tx_retries: (v.stats.tx_retries + if n <= 1 {
                    0
                } else {
                    n - 1
                }) as u64,
                ..v.stats
            },
            ..v
        }),
    decreases n,
{
    if n > 1 {
        lemma_retries_counted(v, seq, policy, attempts, n - 1, now);
        let before = radio::retry_events(seq, policy, attempts, n - 1);
        let events = radio::retry_events(seq, policy, attempts, n);
        assert(attempts[n - 2].attempt == n - 1);
        assert(events.drop_last() =~= before);
    }
}

proof fn lemma_used_up_counted(
    v: RouterView,
    seq: u64,
    policy: RetryPolicy,
    last: AttemptResult,
    n: int,
    now: u64,
)
    requires
        0 <= n <= 255,
        v.stats.tx_retries + 255 <= u64::MAX,
    ensures
        after_events(v, radio::used_up_events(seq, policy, last, n), now) == (RouterView {
            stats: Stats { tx_retries: (v.stats.tx_retries + n) as u64, ..v.stats },
            ..v
        }),
    decreases n,
{
    if n > 0 {
        lemma_used_up_counted(v, seq, policy, last, n - 1, now);
        let events = radio::used_up_events(seq, policy, last, n);
        assert(events.drop_last() =~= radio::used_up_events(seq, policy, last, n - 1));
    }
}

/// Law: a transmission that succeeds counts as one transmission, and as one
/// retry for every attempt beyond the first, and its measured time on air is
/// charged to the rate limiter. One that fails counts as one failure, and,
/// where it used up its attempts, as one retry for every attempt beyond the
/// first. Nothing else about the router changes.
pub proof fn law_transmissions_are_counted(
    v: RouterView,
    seq: u64,
    size: usize,
    policy: RetryPolicy,
    outcome: Result<TxOutcome, TxError>,
    now: u64,
)
    requires
        outcome matches Ok(o) ==> 1 <= o.attempts@.len() <= 255 && forall|i: int|
            0 <= i < o.attempts@.len() ==> (#[trigger] o.attempts@[i]).attempt == i + 1,
        v.stats.tx_retries + 255 <= u64::MAX,
        v.stats.radio_tx < u64::MAX,
        v.stats.tx_failures < u64::MAX,
    ensures
        after_events(v, radio::tx_events(seq, size, policy, outcome), now) == (match outcome {
            Ok(o) => RouterView {
                limiter: v.limiter.charged(o.final_airtime_us as int),
                stats: Stats {
                    radio_tx: (v.stats.radio_tx + 1) as u64,
                    tx_retries: (v.stats.tx_retries + o.attempts@.len() - 1) as u64,
                    ..v.stats
                },
                ..v
            },
            Err(e) => RouterView {
                stats: Stats {
                    tx_failures: (v.stats.tx_failures + 1) as u64,
                    tx_retries: if radio::is_retried(e.last) && policy.max_attempts >= 1 {
                        (v.stats.tx_retries + policy.max_attempts - 1) as u64
                    } else {
                        v.stats.tx_retries
                    },
                    ..v.stats
                },
                ..v
            },
        }),
{
    let events = radio::tx_events(seq, size, policy, outcome);
    match outcome {
        Ok(o) => {
            let n = o.attempts@.len() as int;
            lemma_retries_counted(v, seq, policy, o.attempts@, n, now);
            assert(events.drop_last() =~= radio::retry_events(seq, policy, o.attempts@, n));
        },
        Err(e) => {
            let n = radio::retries_before_failure(policy, e.last);
            lemma_used_up_counted(v, seq, policy, e.last, n, now);
            assert(events.drop_last() =~= radio::used_up_events(seq, policy, e.last, n));
        },
    }
}

} // verus!
