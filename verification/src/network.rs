//! Direct peer connections: which peers are admitted, when to reconnect, and
//! what is known of each peer.

use vstd::prelude::*;
use vstd::string::*;

use crate::keymap::KeyMap;
use crate::packet;
use crate::packet::{FrameView, GossipFrame};
use crate::text;

verus! {

/// First wait before a reconnect, in seconds.
pub const INITIAL_BACKOFF_SECS: u64 = 1;

/// Longest wait before a reconnect, in seconds.
pub const MAX_BACKOFF_SECS: u64 = 30;

/// Time between two looks at a peer that is connected already, in seconds.
pub const RECHECK_SECS: u64 = 5;

/// Why a connection from an unknown peer is closed.
pub const UNKNOWN_PEER: &'static str = "unknown peer";

/// Info about a configured peer.
#[derive(Debug, Clone)]
pub struct PeerConfig {
    pub public_key: [u8; 32],
    pub name: String,
    pub addresses: Vec<String>,
}

/// Observable state of a peer connection. Times are nanoseconds on a
/// monotonic clock; the counters wrap around.
#[derive(Debug, Clone)]
pub struct PeerState {
    pub name: String,
    pub public_key: [u8; 32],
    pub connected: bool,
    pub last_seen: Option<u64>,
    pub packets_in: u64,
    pub packets_out: u64,
}

/// What a [`PeerState`] says.
#[verifier::ext_equal]
pub struct PeerView {
    pub name: Seq<char>,
    pub public_key: Seq<u8>,
    pub connected: bool,
    pub last_seen: Option<u64>,
    pub packets_in: u64,
    pub packets_out: u64,
}

impl View for PeerState {
    type V = PeerView;

    open spec fn view(&self) -> PeerView {
        PeerView {
            name: self.name@,
            public_key: self.public_key@,
            connected: self.connected,
            last_seen: self.last_seen,
            packets_in: self.packets_in,
            packets_out: self.packets_out,
        }
    }
}

/// Event from the network to the router.
#[derive(Debug)]
pub enum NetworkEvent {
    /// A packet received from a peer.
    Packet { from: [u8; 32], frame: GossipFrame },
    /// A peer connected.
    PeerConnected([u8; 32]),
    /// A peer disconnected.
    PeerDisconnected([u8; 32]),
}

/// What a [`NetworkEvent`] says.
#[verifier::ext_equal]
pub enum NetworkEventView {
    Packet { from: Seq<u8>, frame: FrameView },
    PeerConnected(Seq<u8>),
    PeerDisconnected(Seq<u8>),
}

impl View for NetworkEvent {
    type V = NetworkEventView;

    open spec fn view(&self) -> NetworkEventView {
        match *self {
            NetworkEvent::Packet { from, frame } => NetworkEventView::Packet {
                from: from@,
                frame: frame@,
            },
            NetworkEvent::PeerConnected(k) => NetworkEventView::PeerConnected(k@),
            NetworkEvent::PeerDisconnected(k) => NetworkEventView::PeerDisconnected(k@),
        }
    }
}

// ── Peer table ──────────────────────────────────────────────────────

/// The peers and their connections. A connection is known by its stable id.
#[derive(Debug)]
pub struct Network {
    states: KeyMap<PeerState>,
    connections: KeyMap<u64>,
}

/// What a [`Network`] holds.
#[verifier::ext_equal]
pub struct NetworkView {
    /// The configured peers.
    pub states: Map<Seq<u8>, PeerView>,
    /// The stable id of each peer's connection.
    pub connections: Map<Seq<u8>, u64>,
}

/// The states that start from a list of configured peers: a peer that is
/// listed twice has the last name listed.
pub open spec fn initial_states(configs: Seq<PeerConfig>) -> Map<Seq<u8>, PeerView>
    decreases configs.len(),
{
    if configs.len() == 0 {
        Map::empty()
    } else {
        let pc = configs.last();
        initial_states(configs.drop_last()).insert(
            pc.public_key@,
            PeerView {
                name: pc.name@,
                public_key: pc.public_key@,
                connected: false,
                last_seen: None,
                packets_in: 0,
                packets_out: 0,
            },
        )
    }
}

proof fn lemma_initial_states(configs: Seq<PeerConfig>)
    ensures
        forall|k: Seq<u8>|
            initial_states(configs).contains_key(k) ==> (#[trigger] initial_states(
                configs,
            )[k]).public_key == k,
    decreases configs.len(),
{
    if configs.len() > 0 {
        lemma_initial_states(configs.drop_last());
    }
}

impl NetworkView {
    /// The states with the state of one peer replaced, if there is such a peer.
    pub open spec fn with_state(self, key: Seq<u8>, state: PeerView) -> NetworkView {
        NetworkView {
            states: if self.states.contains_key(key) {
                self.states.insert(key, state)
            } else {
                self.states
            },
            ..self
        }
    }

    /// After a connection to a peer was made.
    pub open spec fn registered(self, remote: Seq<u8>, id: u64, now: u64) -> NetworkView {
        let noted = NetworkView { connections: self.connections.insert(remote, id), ..self };
        noted.with_state(
            remote,
            PeerView { connected: true, last_seen: Some(now), ..self.states[remote] },
        )
    }

    /// After the reader of a connection ended: the connection is forgotten
    /// unless another one has taken its place, and the peer counts as
    /// disconnected.
    pub open spec fn reader_ended(self, remote: Seq<u8>, id: u64) -> NetworkView {
        let noted = NetworkView {
            connections: if self.connections.contains_key(remote) && self.connections[remote]
                == id {
                self.connections.remove(remote)
            } else {
                self.connections
            },
            ..self
        };
        noted.with_state(remote, PeerView { connected: false, ..self.states[remote] })
    }

    /// After a datagram from a peer: a well-formed one is counted.
    pub open spec fn received(self, remote: Seq<u8>, data: Seq<u8>, now: u64) -> NetworkView {
        if packet::parse_frame(data) is Some {
            let was = self.states[remote];
            self.with_state(
                remote,
                PeerView {
                    packets_in: was.packets_in.wrapping_add(1),
                    last_seen: Some(now),
                    ..was
                },
            )
        } else {
            self
        }
    }

    /// After a datagram was sent to a peer.
    pub open spec fn sent(self, remote: Seq<u8>) -> NetworkView {
        let was = self.states[remote];
        self.with_state(
            remote,
            PeerView { packets_out: was.packets_out.wrapping_add(1), ..was },
        )
    }

    /// Every state is that of the peer under whose key it stands.
    pub open spec fn wf(self) -> bool {
        forall|k: Seq<u8>|
            self.states.contains_key(k) ==> (#[trigger] self.states[k]).public_key == k
    }

    /// Whether a peer has a connection that looks alive.
    pub open spec fn linked(self, key: Seq<u8>) -> bool {
        self.connections.contains_key(key) && self.connections[key] != 0
    }

    /// Whether a broadcast goes to a peer.
    pub open spec fn broadcast_reaches(self, key: Seq<u8>, skip: Option<Seq<u8>>) -> bool {
        self.connections.contains_key(key) && skip != Some(key)
    }
}

impl View for Network {
    type V = NetworkView;

    closed spec fn view(&self) -> NetworkView {
        NetworkView {
            states: self.states@.map_values(|s: PeerState| s@),
            connections: self.connections@,
        }
    }
}

/// The key that an optional key stands for.
pub open spec fn key_view(key: Option<[u8; 32]>) -> Option<Seq<u8>> {
    match key {
        Some(k) => Some(k@),
        None => None,
    }
}

/// Whether a key is one of a list.
pub open spec fn among(keys: Seq<[u8; 32]>, key: Seq<u8>) -> bool {
    exists|i: int| 0 <= i < keys.len() && (#[trigger] keys[i])@ == key
}

impl Network {
    /// Every peer occurs once, under its own key.
    pub closed spec fn wf(&self) -> bool {
        self.states.wf() && self.connections.wf() && self@.wf()
    }

    /// A table that is sound has a sound view, of which the laws speak.
    pub proof fn lemma_wf(&self)
        requires
            self.wf(),
        ensures
            self@.wf(),
    {
    }

    /// A table of the configured peers, none of them connected.
    pub fn new(configs: &Vec<PeerConfig>) -> (n: Network)
        ensures
            n.wf(),
            n@.states == initial_states(configs@),
            n@.connections == Map::<Seq<u8>, u64>::empty(),
    {
        let mut states: KeyMap<PeerState> = KeyMap::new();
        let mut i: usize = 0;
        let ghost empty = states@.map_values(|s: PeerState| s@);
        assert(empty =~= Map::<Seq<u8>, PeerView>::empty());
        assert(configs@.take(0) =~= Seq::<PeerConfig>::empty());
        while i < configs.len()
            invariant
                i <= configs@.len(),
                states.wf(),
                states@.map_values(|s: PeerState| s@) == initial_states(configs@.take(i as int)),
            decreases configs@.len() - i,
        {
            let pc: &PeerConfig = &configs[i];
            let state: PeerState = PeerState {
                name: pc.name.clone(),
                public_key: pc.public_key,
                connected: false,
                last_seen: None,
                packets_in: 0,
                packets_out: 0,
            };
            let ghost before = states@;
            let ghost key = pc.public_key@;
            let ghost view = state@;
            states.insert(pc.public_key, state);
            proof {
                let more = configs@.take(i + 1);
                assert(more.drop_last() =~= configs@.take(i as int));
                assert(more.last() == *pc);
                assert(states@.map_values(|s: PeerState| s@) =~= before.map_values(
                    |s: PeerState| s@,
                ).insert(key, view));
            }
            i = i + 1;
        }
        assert(configs@.take(i as int) =~= configs@);
        proof {
            lemma_initial_states(configs@);
        }
        Network { states, connections: KeyMap::new() }
    }

    /// Get a snapshot of all peer states, each peer once.
    pub fn peer_states(&self) -> (out: Vec<PeerState>)
        requires
            self.wf(),
        ensures
            self@.states.dom().finite(),
            out@.len() == self@.states.dom().len(),
            forall|k: Seq<u8>| #[trigger]
                self@.states.contains_key(k) ==> exists|i: int|
                    0 <= i < out@.len() && (#[trigger] out@[i])@ == self@.states[k],
            forall|i: int|
                0 <= i < out@.len() ==> {
                    let s = (#[trigger] out@[i])@;
                    self@.states.contains_key(s.public_key) && self@.states[s.public_key] == s
                },
    {
        let mut out: Vec<PeerState> = Vec::new();
        let mut i: usize = 0;
        let n: usize = self.states.len();
        let ghost order = self.states.order();
        proof {
            self.states.lemma_order();
            assert(self@.states.dom() =~= self.states@.dom());
        }
        while i < n
            invariant
                i <= n,
                n == order.len(),
                order == self.states.order(),
                self.states.wf(),
                out@.len() == i,
                forall|j: int| 0 <= j < i ==> (#[trigger] out@[j])@ == self.states@[order[j]]@,
            decreases n - i,
        {
            let s: &PeerState = self.states.value(i);
            out.push(
                PeerState {
                    name: s.name.clone(),
                    public_key: s.public_key,
                    connected: s.connected,
                    last_seen: s.last_seen,
                    packets_in: s.packets_in,
                    packets_out: s.packets_out,
                },
            );
            i = i + 1;
        }
        proof {
            assert forall|k: Seq<u8>| #[trigger] self@.states.contains_key(k) implies exists|j: int|
                0 <= j < out@.len() && (#[trigger] out@[j])@ == self@.states[k] by {
                assert(self.states@.contains_key(k));
                assert(order.contains(k));
                let j = choose|j: int| 0 <= j < order.len() && order[j] == k;
                assert(out@[j]@ == self@.states[k]);
            }
            assert forall|j: int| 0 <= j < out@.len() implies {
                let s = (#[trigger] out@[j])@;
                self@.states.contains_key(s.public_key) && self@.states[s.public_key] == s
            } by {
                assert(self.states@.contains_key(order[j]));
                assert(self@.states[order[j]] == out@[j]@);
            }
        }
        out
    }

    /// Whether a peer is configured. Connections from others are rejected.
    pub fn is_known(&self, remote: &[u8; 32]) -> (r: bool)
        requires
            self.wf(),
        ensures
            r == self@.states.contains_key(remote@),
    {
        self.states.find(remote).is_some()
    }

    /// Whether a peer has a connection that looks alive.
    pub fn is_linked(&self, peer: &[u8; 32]) -> (r: bool)
        requires
            self.wf(),
        ensures
            r == self@.linked(peer@),
    {
        match self.connections.find(peer) {
            Some(i) => *self.connections.value(i) != 0,
            None => false,
        }
    }

    /// Note whether a peer is connected; one that is was seen now.
    pub fn update_peer_connected(&mut self, remote: &[u8; 32], connected: bool, now: u64)
        requires
            old(self).wf(),
        ensures
            final(self).wf(),
            final(self)@ == old(self)@.with_state(
                remote@,
                PeerView {
                    connected,
                    last_seen: if connected {
                        Some(now)
                    } else {
                        old(self)@.states[remote@].last_seen
                    },
                    ..old(self)@.states[remote@]
                },
            ),
    {
        match self.states.find(remote) {
            Some(i) => {
                let s: &mut PeerState = self.states.value_mut(i);
                s.connected = connected;
                if connected {
                    s.last_seen = Some(now);
                }
            },
            None => {},
        }
        assert(self@.states =~= old(self)@.with_state(
            remote@,
            PeerView {
                connected,
                last_seen: if connected {
                    Some(now)
                } else {
                    old(self)@.states[remote@].last_seen
                },
                ..old(self)@.states[remote@]
            },
        ).states);
    }

    /// Note a connection to a peer, whichever side made it.
    pub fn register(&mut self, remote: [u8; 32], id: u64, now: u64) -> (event: NetworkEvent)
        requires
            old(self).wf(),
        ensures
            final(self).wf(),
            final(self)@ == old(self)@.registered(remote@, id, now),
            event@ == NetworkEventView::PeerConnected(remote@),
    {
        self.connections.insert(remote, id);
        self.update_peer_connected(&remote, true, now);
        NetworkEvent::PeerConnected(remote)
    }

    /// Take in a datagram from a peer. A malformed one gives no event.
    pub fn receive(&mut self, remote: [u8; 32], data: &[u8], now: u64) -> (event: Option<
        NetworkEvent,
    >)
        requires
            old(self).wf(),
        ensures
            final(self).wf(),
            final(self)@ == old(self)@.received(remote@, data@, now),
            match event {
                Some(e) => packet::parse_frame(data@) matches Some(frame) && e@
                    == (NetworkEventView::Packet { from: remote@, frame }),
                None => packet::parse_frame(data@) is None,
            },
    {
        match GossipFrame::decode(data) {
            Some(frame) => {
                match self.states.find(&remote) {
                    Some(i) => {
                        let s: &mut PeerState = self.states.value_mut(i);
                        s.packets_in = s.packets_in.wrapping_add(1);
                        s.last_seen = Some(now);
                    },
                    None => {},
                }
                assert(self@.states =~= old(self)@.received(remote@, data@, now).states);
                Some(NetworkEvent::Packet { from: remote, frame })
            },
            None => None,
        }
    }

    /// Note that the reader of a connection ended.
    pub fn close(&mut self, remote: [u8; 32], id: u64) -> (event: NetworkEvent)
        requires
            old(self).wf(),
        ensures
            final(self).wf(),
            final(self)@ == old(self)@.reader_ended(remote@, id),
            event@ == NetworkEventView::PeerDisconnected(remote@),
    {
        match self.connections.find(&remote) {
            Some(i) => {
                if *self.connections.value(i) == id {
                    self.connections.remove(&remote);
                }
            },
            None => {},
        }
        self.update_peer_connected(&remote, false, 0);
        NetworkEvent::PeerDisconnected(remote)
    }

    /// The peers that a broadcast goes to: all that have a connection, each
    /// once, except the one to skip.
    pub fn broadcast_targets(&self, skip: Option<[u8; 32]>) -> (out: Vec<[u8; 32]>)
        requires
            self.wf(),
        ensures
            forall|k: Seq<u8>|
                (exists|i: int| 0 <= i < out@.len() && (#[trigger] out@[i])@ == k)
                    <==> #[trigger] self@.broadcast_reaches(k, key_view(skip)),
            forall|i: int, j: int| 0 <= i < j < out@.len() ==> out@[i]@ != out@[j]@,
            forall|i: int|
                0 <= i < out@.len() ==> self@.connections.contains_key((#[trigger] out@[i])@)
                    && key_view(skip) != Some(out@[i]@),
            forall|k: Seq<u8>|
                self@.connections.contains_key(k) && key_view(skip) != Some(k) ==> #[trigger] among(
                    out@,
                    k,
                ),
    {
        let mut out: Vec<[u8; 32]> = Vec::new();
        let mut i: usize = 0;
        let n: usize = self.connections.len();
        let ghost order = self.connections.order();
        let ghost mut from: Seq<int> = Seq::empty();
        proof {
            self.connections.lemma_order();
        }
        while i < n
            invariant
                i <= n,
                n == order.len(),
                order == self.connections.order(),
                self.connections.wf(),
                from.len() == out@.len(),
                forall|a: int| 0 <= a < from.len() ==> 0 <= #[trigger] from[a] < i,
                forall|a: int, b: int| 0 <= a < b < from.len() ==> from[a] < from[b],
                forall|a: int| 0 <= a < from.len() ==> (#[trigger] out@[a])@ == order[from[a]],
                forall|a: int|
                    0 <= a < from.len() ==> key_view(skip) != Some(order[#[trigger] from[a]]),
                forall|p: int|
                    0 <= p < i && key_view(skip) != Some(#[trigger] order[p]) ==> from.contains(p),
            decreases n - i,
        {
            let key: [u8; 32] = *self.connections.key(i);
            let skipped: bool = match skip {
                Some(s) => crate::keymap::same_key(&s, &key),
                None => false,
            };
            let ghost was = from;
            if !skipped {
                out.push(key);
                proof {
                    from = from.push(i as int);
                    assert(from[was.len() as int] == i);
                }
            }
            proof {
                assert forall|p: int|
                    0 <= p < i + 1 && key_view(skip) != Some(
                        #[trigger] order[p],
                    ) implies from.contains(p) by {
                    if p < i {
                        assert(was.contains(p));
                        let a = choose|a: int| 0 <= a < was.len() && was[a] == p;
                        assert(from[a] == p);
                    }
                }
            }
            i = i + 1;
        }
        proof {
            assert forall|k: Seq<u8>|
                (exists|a: int| 0 <= a < out@.len() && (#[trigger] out@[a])@ == k)
                    <==> #[trigger] self@.broadcast_reaches(k, key_view(skip)) by {
                if exists|a: int| 0 <= a < out@.len() && (#[trigger] out@[a])@ == k {
                    let a = choose|a: int| 0 <= a < out@.len() && (#[trigger] out@[a])@ == k;
                    assert(order[from[a]] == k);
                }
                if self@.broadcast_reaches(k, key_view(skip)) {
                    assert(order.contains(k));
                    let p = choose|p: int| 0 <= p < order.len() && order[p] == k;
                    assert(from.contains(p));
                    let a = choose|a: int| 0 <= a < from.len() && from[a] == p;
                    assert(out@[a]@ == k);
                }
            }
            assert forall|a: int| 0 <= a < out@.len() implies self@.connections.contains_key(
                (#[trigger] out@[a])@,
            ) && key_view(skip) != Some(out@[a]@) by {
                assert(self@.broadcast_reaches(out@[a]@, key_view(skip)));
            }
            assert forall|k: Seq<u8>|
                self@.connections.contains_key(k) && key_view(skip) != Some(
                    k,
                ) implies #[trigger] among(out@, k) by {
                assert(self@.broadcast_reaches(k, key_view(skip)));
            }
            assert forall|a: int, b: int| 0 <= a < b < out@.len() implies out@[a]@
                != out@[b]@ by {
                assert(order[from[a]] != order[from[b]]);
            }
        }
        out
    }

    /// Note that a broadcast was handed to a peer's connection.
    pub fn note_sent(&mut self, peer: &[u8; 32])
        requires
            old(self).wf(),
        ensures
            final(self).wf(),
            final(self)@ == old(self)@.sent(peer@),
    {
        match self.states.find(peer) {
            Some(i) => {
                let s: &mut PeerState = self.states.value_mut(i);
                s.packets_out = s.packets_out.wrapping_add(1);
            },
            None => {},
        }
        assert(self@.states =~= old(self)@.sent(peer@).states);
    }
}

// ── Tasks ───────────────────────────────────────────────────────────

/// What the outbound task of a peer does next.
#[derive(Debug, Clone, Copy, PartialEq, Eq, Structural)]
pub enum OutboundStep {
    Stop,
    /// The peer is connected already: wait this many seconds and look again.
    Recheck(u64),
    Connect,
}

/// The outbound task of a peer: its wait before the next attempt, in seconds.
#[derive(Debug, Clone, Copy, PartialEq, Eq, Structural)]
pub struct Outbound {
    pub backoff_secs: u64,
}

/// A wait doubled, up to the longest.
pub open spec fn doubled_wait(secs: u64) -> u64 {
    if 2 * secs < MAX_BACKOFF_SECS {
        (2 * secs) as u64
    } else {
        MAX_BACKOFF_SECS
    }
}

impl Outbound {
    /// The wait is within bounds.
    pub open spec fn wf(self) -> bool {
        INITIAL_BACKOFF_SECS <= self.backoff_secs <= MAX_BACKOFF_SECS
    }

    /// The wait after an attempt: a connection that was made resets it.
    pub open spec fn wait_after(self, connected: bool) -> u64 {
        if connected {
            INITIAL_BACKOFF_SECS
        } else {
            self.backoff_secs
        }
    }

    pub fn new() -> (o: Outbound)
        ensures
            o.wf(),
            o.backoff_secs == INITIAL_BACKOFF_SECS,
    {
        Outbound { backoff_secs: INITIAL_BACKOFF_SECS }
    }

    /// What to do at the head of the loop.
    pub fn next_step(&self, cancelled: bool, linked: bool) -> (step: OutboundStep)
        ensures
            step == if cancelled {
                OutboundStep::Stop
            } else if linked {
                OutboundStep::Recheck(RECHECK_SECS)
            } else {
                OutboundStep::Connect
            },
    {
        if cancelled {
            OutboundStep::Stop
        } else if linked {
            OutboundStep::Recheck(RECHECK_SECS)
        } else {
            OutboundStep::Connect
        }
    }

    /// How long to wait after an attempt, in seconds; the wait after that is
    /// twice as long, up to the longest.
    pub fn attempt_ended(&mut self, connected: bool) -> (wait_secs: u64)
        requires
            old(self).wf(),
        ensures
            final(self).wf(),
            wait_secs == old(self).wait_after(connected),
            final(self).backoff_secs == doubled_wait(wait_secs),
    {
        let wait: u64 = if connected {
            INITIAL_BACKOFF_SECS
        } else {
            self.backoff_secs
        };
        self.backoff_secs = if 2 * wait < MAX_BACKOFF_SECS {
            2 * wait
        } else {
            MAX_BACKOFF_SECS
        };
        wait
    }
}

/// The wait before attempt `n` in a row of attempts that fail, counted from zero.
pub open spec fn wait_before_retry(n: nat) -> u64
    decreases n,
{
    if n == 0 {
        INITIAL_BACKOFF_SECS
    } else {
        doubled_wait(wait_before_retry((n - 1) as nat))
    }
}

/// Law: while a peer cannot be reached the wait never shrinks, stays within
/// bounds, and is the longest from the fifth retry on.
pub proof fn law_peer_backoff(n: nat)
    ensures
        INITIAL_BACKOFF_SECS <= wait_before_retry(n) <= wait_before_retry(n + 1)
            <= MAX_BACKOFF_SECS,
        n >= 5 ==> wait_before_retry(n) == MAX_BACKOFF_SECS,
    decreases n,
{
    if n > 0 {
        law_peer_backoff((n - 1) as nat);
        reveal_with_fuel(wait_before_retry, 7);
    }
}

/// What reaches the accepting task.
#[derive(Debug, Clone, Copy)]
pub enum AcceptInput {
    Cancelled,
    /// The endpoint takes no more connections.
    Closed,
    /// A connection failed before it was made.
    Failed,
    /// A connection was made from this peer.
    Connection([u8; 32]),
}

/// What the accepting task does.
#[derive(Debug, Clone, Copy, PartialEq, Eq, Structural)]
pub enum AcceptAction {
    Stop,
    /// Wait for the next connection.
    Continue,
    /// Close the connection: the peer is unknown.
    Reject,
    /// Register the connection and read from it.
    Accept,
}

impl Network {
    /// What the accepting task does with what reached it.
    pub fn on_accept(&self, input: AcceptInput) -> (action: AcceptAction)
        requires
            self.wf(),
        ensures
            action == match input {
                AcceptInput::Cancelled => AcceptAction::Stop,
                AcceptInput::Closed => AcceptAction::Stop,
                AcceptInput::Failed => AcceptAction::Continue,
                AcceptInput::Connection(remote) => if self@.states.contains_key(remote@) {
                    AcceptAction::Accept
                } else {
                    AcceptAction::Reject
                },
            },
    {
        match input {
            AcceptInput::Cancelled => AcceptAction::Stop,
            AcceptInput::Closed => AcceptAction::Stop,
            AcceptInput::Failed => AcceptAction::Continue,
            AcceptInput::Connection(remote) => if self.is_known(&remote) {
                AcceptAction::Accept
            } else {
                AcceptAction::Reject
            },
        }
    }
}

/// Law: nothing that happens adds or removes a peer: only the configured
/// peers are ever known.
pub proof fn law_peers_are_fixed(v: NetworkView, key: Seq<u8>, id: u64, data: Seq<u8>, now: u64)
    ensures
        v.registered(key, id, now).states.dom() == v.states.dom(),
        v.reader_ended(key, id).states.dom() == v.states.dom(),
        v.received(key, data, now).states.dom() == v.states.dom(),
        v.sent(key).states.dom() == v.states.dom(),
{
    assert(v.registered(key, id, now).states.dom() =~= v.states.dom());
    assert(v.reader_ended(key, id).states.dom() =~= v.states.dom());
    assert(v.received(key, data, now).states.dom() =~= v.states.dom());
    assert(v.sent(key).states.dom() =~= v.states.dom());
}

/// Law: when the reader of an old connection ends, a newer connection to the
/// same peer stays, and so do the connections to all other peers.
pub proof fn law_stale_reader_keeps_new_connection(
    v: NetworkView,
    key: Seq<u8>,
    old_id: u64,
    new_id: u64,
    now: u64,
    other: Seq<u8>,
)
    requires
        old_id != new_id,
        other != key,
    ensures
        v.registered(key, old_id, now).registered(key, new_id, now).reader_ended(
            key,
            old_id,
        ).connections == v.connections.insert(key, new_id),
        v.reader_ended(key, old_id).connections.contains_key(other)
            == v.connections.contains_key(other),
        v.reader_ended(key, old_id).states[other] == v.states[other],
{
    assert(v.connections.insert(key, old_id).insert(key, new_id) =~= v.connections.insert(
        key,
        new_id,
    ));
}

/// Law: a peer's own packets are not sent back to it, and go to every other
/// peer that is connected.
pub proof fn law_broadcast_skips_only_the_source(v: NetworkView, source: Seq<u8>, other: Seq<u8>)
    requires
        other != source,
    ensures
        !v.broadcast_reaches(source, Some(source)),
        v.broadcast_reaches(other, Some(source)) == v.connections.contains_key(other),
{
}

/// Law: the table starts with the peers that are configured and no others,
/// each unconnected, never seen and with nothing counted, under the name that
/// is listed last for it, and with no connections.
pub proof fn law_table_starts_with_the_configured_peers(
    configs: Vec<PeerConfig>,
    n: Network,
    key: Seq<u8>,
)
    requires
        call_ensures(Network::new, (&configs,), n),
    ensures
        n@.states.contains_key(key) <==> exists|i: int|
            0 <= i < configs@.len() && (#[trigger] configs@[i]).public_key@ == key,
        n@.states.contains_key(key) ==> {
            let s = n@.states[key];
            &&& s.public_key == key
            &&& !s.connected
            &&& s.last_seen is None
            &&& s.packets_in == 0
            &&& s.packets_out == 0
        },
        forall|i: int|
            #![trigger configs@[i]]
            0 <= i < configs@.len() && configs@[i].public_key@ == key && (forall|j: int|
                i < j < configs@.len() ==> (#[trigger] configs@[j]).public_key@ != key)
                ==> n@.states[key].name == configs@[i].name@,
        !n@.connections.contains_key(key),
{
    lemma_configured_key(configs@, key);
    if n@.states.contains_key(key) {
        lemma_configured_state(configs@, key);
    }
    assert forall|i: int|
        #![trigger configs@[i]]
        0 <= i < configs@.len() && configs@[i].public_key@ == key && (forall|j: int|
            i < j < configs@.len() ==> (#[trigger] configs@[j]).public_key@
                != key) implies n@.states[key].name == configs@[i].name@ by {
        lemma_configured_name(configs@, key, i);
    }
}

proof fn lemma_configured_key(configs: Seq<PeerConfig>, key: Seq<u8>)
    ensures
        initial_states(configs).contains_key(key) <==> exists|i: int|
            0 <= i < configs.len() && (#[trigger] configs[i]).public_key@ == key,
    decreases configs.len(),
{
    if configs.len() > 0 {
        let before = configs.drop_last();
        lemma_configured_key(before, key);
        if configs.last().public_key@ == key {
            assert(configs[configs.len() - 1].public_key@ == key);
        } else if initial_states(before).contains_key(key) {
            let i = choose|i: int| 0 <= i < before.len() && (#[trigger] before[i]).public_key@ == key;
            assert(configs[i].public_key@ == key);
        } else if exists|i: int|
            0 <= i < configs.len() && (#[trigger] configs[i]).public_key@ == key {
            let i = choose|i: int|
                0 <= i < configs.len() && (#[trigger] configs[i]).public_key@ == key;
            assert(before[i].public_key@ == key);
        }
    }
}

proof fn lemma_configured_state(configs: Seq<PeerConfig>, key: Seq<u8>)
    requires
        initial_states(configs).contains_key(key),
    ensures
        ({
            let s = initial_states(configs)[key];
            &&& s.public_key == key
            &&& !s.connected
            &&& s.last_seen is None
            &&& s.packets_in == 0
            &&& s.packets_out == 0
        }),
    decreases configs.len(),
{
    if configs.len() > 0 && configs.last().public_key@ != key {
        lemma_configured_state(configs.drop_last(), key);
    }
}

proof fn lemma_configured_name(configs: Seq<PeerConfig>, key: Seq<u8>, i: int)
    requires
        0 <= i < configs.len(),
        configs[i].public_key@ == key,
        forall|j: int| i < j < configs.len() ==> (#[trigger] configs[j]).public_key@ != key,
    ensures
        initial_states(configs)[key].name == configs[i].name@,
    decreases configs.len(),
{
    let last = configs.len() - 1;
    if i < last {
        let before = configs.drop_last();
        assert(configs[last].public_key@ != key);
        assert forall|j: int| i < j < before.len() implies (#[trigger] before[j]).public_key@
            != key by {
            assert(before[j] == configs[j]);
        }
        lemma_configured_name(before, key, i);
    }
}

/// Law: what is noted of a peer. A connection marks it as connected and seen
/// now; the end of its reader takes the mark off and leaves when it was seen; a
/// well-formed datagram counts as one more in and as seen now, and a malformed
/// one as nothing; what is sent counts as one more out. Its name and key never
/// change, and no other peer is touched.
pub proof fn law_peers_are_noted(
    v: NetworkView,
    key: Seq<u8>,
    other: Seq<u8>,
    id: u64,
    data: Seq<u8>,
    now: u64,
)
    requires
        v.states.contains_key(key),
        other != key,
    ensures
        ({
            let was = v.states[key];
            let up = v.registered(key, id, now).states[key];
            let down = v.reader_ended(key, id).states[key];
            let heard = v.received(key, data, now).states[key];
            let told = v.sent(key).states[key];
            let whole = data.len() >= 38 && data.len() == 38 + data[36] + 256 * data[37];
            &&& up == (PeerView { connected: true, last_seen: Some(now), ..was })
            &&& down == (PeerView { connected: false, ..was })
            &&& whole ==> heard == (PeerView {
                packets_in: was.packets_in.wrapping_add(1),
                last_seen: Some(now),
                ..was
            })
            &&& !whole ==> heard == was
            &&& told == (PeerView { packets_out: was.packets_out.wrapping_add(1), ..was })
            &&& v.registered(key, id, now).states[other] == v.states[other]
            &&& v.reader_ended(key, id).states[other] == v.states[other]
            &&& v.received(key, data, now).states[other] == v.states[other]
            &&& v.sent(key).states[other] == v.states[other]
        }),
{
}

/// Law: what happens to a peer that is not configured changes no state, and
/// gives it none.
pub proof fn law_strangers_are_not_noted(
    v: NetworkView,
    key: Seq<u8>,
    id: u64,
    data: Seq<u8>,
    now: u64,
)
    requires
        !v.states.contains_key(key),
    ensures
        v.registered(key, id, now).states == v.states,
        v.reader_ended(key, id).states == v.states,
        v.received(key, data, now) == v,
        v.sent(key) == v,
{
}

/// Law: a peer is linked from when a connection with an id is noted until the
/// reader of that connection, and not of an older one, ends; datagrams and other peers change nothing
/// about it, and one that is linked is reached by every broadcast that does not
/// skip it.
pub proof fn law_links_follow_connections(
    v: NetworkView,
    key: Seq<u8>,
    other: Seq<u8>,
    id: u64,
    older: u64,
    data: Seq<u8>,
    now: u64,
)
    requires
        id != 0,
        other != key,
    ensures
        v.registered(key, id, now).linked(key),
        !v.registered(key, id, now).reader_ended(key, id).linked(key),
        v.registered(key, id, now).linked(other) == v.linked(other),
        v.reader_ended(key, id).linked(other) == v.linked(other),
        v.received(key, data, now).connections == v.connections,
        v.sent(key).connections == v.connections,
        v.registered(key, 0, now).broadcast_reaches(key, None),
        !v.registered(key, 0, now).linked(key),
        v.registered(key, id, now).reader_ended(key, older).linked(key) <==> older != id,
        v.registered(key, id, now).broadcast_reaches(key, None),
        v.registered(key, id, now).broadcast_reaches(key, Some(other)),
        !v.registered(key, id, now).broadcast_reaches(key, Some(key)),
{
}

/// Law: the waits before the attempts to reach a peer, in seconds, are 1, 2,
/// 4, 8, 16 and then 30, and a connection that was made sets them back to 1.
pub proof fn law_waits_for_a_peer(o: Outbound, fresh: Outbound, n: nat)
    requires
        call_ensures(Outbound::new, (), fresh),
    ensures
        fresh.backoff_secs == 1,
        wait_before_retry(0) == 1,
        wait_before_retry(1) == 2,
        wait_before_retry(2) == 4,
        wait_before_retry(3) == 8,
        wait_before_retry(4) == 16,
        n >= 5 ==> wait_before_retry(n) == 30,
        o.wait_after(true) == 1,
        o.wait_after(false) == o.backoff_secs,
{
    reveal_with_fuel(wait_before_retry, 6);
    law_peer_backoff(n);
}

/// Law: the wait after a wait is twice as long, up to thirty seconds.
pub proof fn law_wait_doubles(secs: u64)
    ensures
        2 * secs <= 30 ==> doubled_wait(secs) == 2 * secs,
        2 * secs > 30 ==> doubled_wait(secs) == 30,
{
}

/// Law: the task of a peer stops when it is cancelled, looks again in five
/// seconds while the peer is linked, and otherwise connects.
pub proof fn law_outbound_task(o: Outbound, cancelled: bool, linked: bool, step: OutboundStep)
    requires
        call_ensures(Outbound::next_step, (&o, cancelled, linked), step),
    ensures
        step == OutboundStep::Stop <==> cancelled,
        step == OutboundStep::Recheck(5) <==> !cancelled && linked,
        step == OutboundStep::Connect <==> !cancelled && !linked,
{
}

/// Law: a connection is accepted if and only if it is from a configured peer;
/// one that failed is passed over, and the task ends with the endpoint.
pub proof fn law_only_known_peers_are_accepted(n: Network, input: AcceptInput, action: AcceptAction)
    requires
        call_ensures(Network::on_accept, (&n, input), action),
    ensures
        input matches AcceptInput::Connection(remote) ==> {
            &&& action == AcceptAction::Accept <==> n@.states.contains_key(remote@)
            &&& action == AcceptAction::Reject <==> !n@.states.contains_key(remote@)
        },
        input is Failed <==> action == AcceptAction::Continue,
        input is Cancelled || input is Closed <==> action == AcceptAction::Stop,
{
}

/// Law: noting a connection reports it and keeps its id; the peer counts as
/// connected and as seen at that time, and nothing is noted of any other.
pub proof fn law_register(
    n: &mut Network,
    remote: [u8; 32],
    id: u64,
    now: u64,
    event: NetworkEvent,
    other: Seq<u8>,
)
    requires
        call_ensures(Network::register, (n, remote, id, now), event),
        other != remote@,
    ensures
        event@ == NetworkEventView::PeerConnected(remote@),
        final(n)@.connections == old(n)@.connections.insert(remote@, id),
        final(n)@.states.contains_key(other) == old(n)@.states.contains_key(other),
        final(n)@.states[other] == old(n)@.states[other],
        old(n)@.states.contains_key(remote@) ==> final(n)@.states[remote@] == (PeerView {
            connected: true,
            last_seen: Some(now),
            ..old(n)@.states[remote@]
        }),
{
}

/// Law: the end of a reader is reported. Its connection is forgotten unless
/// it is no longer the one noted; the peer counts as disconnected and stays
/// seen when it last was.
pub proof fn law_close(
    n: &mut Network,
    remote: [u8; 32],
    id: u64,
    event: NetworkEvent,
    other: Seq<u8>,
)
    requires
        call_ensures(Network::close, (n, remote, id), event),
        other != remote@,
    ensures
        event@ == NetworkEventView::PeerDisconnected(remote@),
        final(n)@.connections.contains_key(remote@) <==> old(n)@.connections.contains_key(remote@)
            && old(n)@.connections[remote@] != id,
        final(n)@.connections.contains_key(other) == old(n)@.connections.contains_key(other),
        final(n)@.connections[other] == old(n)@.connections[other],
        final(n)@.states[other] == old(n)@.states[other],
        old(n)@.states.contains_key(remote@) ==> final(n)@.states[remote@] == (PeerView {
            connected: false,
            ..old(n)@.states[remote@]
        }),
{
}

/// Law: a datagram is reported with its sender and its frame if and only if it
/// is a well-formed frame, and is then counted for its sender; connections
/// have no part in it.
pub proof fn law_receive(
    n: &mut Network,
    remote: [u8; 32],
    data: &[u8],
    now: u64,
    event: Option<NetworkEvent>,
)
    requires
        call_ensures(Network::receive, (n, remote, data, now), event),
    ensures
        event is Some <==> data@.len() >= 38 && data@.len() == 38 + data@[36] + 256 * data@[37],
        event matches Some(e) ==> {
            &&& e@ matches NetworkEventView::Packet { from, frame }
            &&& from == remote@
            &&& frame.sender == data@.take(32)
            &&& frame.payload == data@.skip(38)
            &&& old(n)@.states.contains_key(remote@) ==> final(n)@.states[remote@] == (PeerView {
                packets_in: old(n)@.states[remote@].packets_in.wrapping_add(1),
                last_seen: Some(now),
                ..old(n)@.states[remote@]
            })
        },
        event is None ==> final(n)@ == old(n)@,
        final(n)@.connections == old(n)@.connections,
{
}

/// Law: what is handed to a peer's connection is counted for that peer, and
/// noting whether a peer is connected changes that, and when it was seen if it
/// is, and nothing else.
pub proof fn law_note_sent_and_connected(
    n: &mut Network,
    m: &mut Network,
    peer: [u8; 32],
    connected: bool,
    now: u64,
    other: Seq<u8>,
)
    requires
        call_ensures(Network::note_sent, (n, &peer), ()),
        call_ensures(Network::update_peer_connected, (m, &peer, connected, now), ()),
        other != peer@,
    ensures
        final(n)@.connections == old(n)@.connections,
        final(n)@.states[other] == old(n)@.states[other],
        old(n)@.states.contains_key(peer@) ==> final(n)@.states[peer@] == (PeerView {
            packets_out: old(n)@.states[peer@].packets_out.wrapping_add(1),
            ..old(n)@.states[peer@]
        }),
        final(m)@.connections == old(m)@.connections,
        final(m)@.states[other] == old(m)@.states[other],
        old(m)@.states.contains_key(peer@) ==> {
            let was = old(m)@.states[peer@];
            final(m)@.states[peer@] == if connected {
                PeerView { connected: true, last_seen: Some(now), ..was }
            } else {
                PeerView { connected: false, ..was }
            }
        },
{
}

/// Law: a broadcast goes once to every peer with a connection but the one to
/// skip, and to no one else; the snapshot has the state of every peer that is
/// configured, and nothing else.
pub proof fn law_everyone_is_reached_once(
    n: Network,
    skip: Option<[u8; 32]>,
    targets: Vec<[u8; 32]>,
    states: Vec<PeerState>,
    key: Seq<u8>,
    i: int,
    j: int,
)
    requires
        call_ensures(Network::broadcast_targets, (&n, skip), targets),
        call_ensures(Network::peer_states, (&n,), states),
    ensures
        n@.connections.contains_key(key) && (match skip {
            Some(s) => s@ != key,
            None => true,
        }) <==> among(targets@, key),
        0 <= i < targets@.len() && 0 <= j < targets@.len() && targets@[i]@ == targets@[j]@ ==> i
            == j,
        n@.states.contains_key(key) ==> exists|a: int|
            0 <= a < states@.len() && (#[trigger] states@[a])@ == n@.states[key],
        0 <= i < states@.len() ==> {
            let s = states@[i]@;
            n@.states.contains_key(s.public_key) && n@.states[s.public_key] == s
        },
        states@.len() == n@.states.dom().len(),
{
    if n@.connections.contains_key(key) && (match skip {
        Some(s) => s@ != key,
        None => true,
    }) {
        assert(key_view(skip) != Some(key));
    }
}

/// Law: after an attempt the task waits one second where a connection was
/// made, and otherwise as long as it had come to; the next wait is twice as
/// long, up to thirty seconds.
pub proof fn law_attempt_ended(o: &mut Outbound, connected: bool, wait: u64)
    requires
        call_ensures(Outbound::attempt_ended, (o, connected), wait),
    ensures
        connected ==> wait == 1,
        !connected ==> wait == old(o).backoff_secs,
        2 * wait <= 30 ==> final(o).backoff_secs == 2 * wait,
        2 * wait > 30 ==> final(o).backoff_secs == 30,
{
}

// ── Key text ────────────────────────────────────────────────────────

/// The short form of a key's text: at most twelve characters of it.
pub open spec fn short_key(key: Seq<char>) -> Seq<char> {
    if key.len() > 12 {
        key.take(12) + "..."@
    } else {
        key
    }
}

/// The short form of a key's text.
pub fn fmt_key(key: &str) -> (out: String)
    requires
        text::all_ascii(key@),
    ensures
        out@ == short_key(key@),
{
    let chars: Vec<char> = text::chars_of(key);
    if chars.len() <= 12 {
        return key.to_owned();
    }
    let mut out: String = String::new();
    let mut i: usize = 0;
    while i < 12
        invariant
            i <= 12,
            chars@ == key@,
            chars@.len() > 12,
            out@ == key@.take(i as int),
        decreases 12 - i,
    {
        out.push(chars[i]);
        i = i + 1;
        assert(out@ =~= key@.take(i as int));
    }
    out.append("...");
    out
}

/// Law: the short form of a key is the key if it has up to twelve characters,
/// and otherwise the first twelve and three dots.
pub proof fn law_short_key(key: &str, out: String)
    requires
        call_ensures(fmt_key, (key,), out),
    ensures
        key@.len() <= 12 ==> out@ == key@,
        key@.len() > 12 ==> {
            &&& out@.len() == 15
            &&& out@.take(12) == key@.take(12)
            &&& out@[12] == '.' && out@[13] == '.' && out@[14] == '.'
        },
{
    reveal_strlit("...");
    if key@.len() > 12 {
        assert(out@.take(12) =~= key@.take(12));
    }
}

} // verus!
