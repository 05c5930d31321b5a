//! Turns gossip swarm events into what the router understands.

use vstd::prelude::*;

use crate::keymap::KeyMap;
use crate::packet;
use crate::packet::{FrameView, GossipFrame};
use crate::text;

verus! {

/// App salt for the donglora-bridge rendezvous surface. Versioned so a
/// future breaking change gets a fresh DHT meeting place — v1 and v2
/// bridges do not see each other.
pub const APP_SALT: &'static str = "donglora-bridge/v2";

/// A topic for the log: the first eight bytes in hexadecimal digits.
pub fn topic_label(topic: &[u8; 32]) -> (out: String)
    ensures
        out@ == text::hex_bytes(topic@.take(8)),
{
    let bytes: &[u8] = topic.as_slice();
    let short: &[u8] = &bytes[0..8];
    assert(short@ =~= topic@.take(8));
    text::hex_encode(short)
}

/// Law: a receiver starts without neighbors; what reaches it changes its
/// neighbors and is acted on as [`law_receiver_serves_the_router`] says.
pub proof fn law_receiver_input(
    fresh: Receiver,
    r: &mut Receiver,
    input: ReceiverInput,
    action: ReceiverAction,
    id: Seq<u8>,
)
    requires
        call_ensures(Receiver::new, (), fresh),
        call_ensures(Receiver::on_input, (r, input), action),
    ensures
        !fresh@.contains(id),
        final(r)@ == neighbors_after(old(r)@, input),
        action@ == receiver_action(old(r)@, input),
        input matches ReceiverInput::Event(SwarmEvent::NeighborUp(up)) ==> {
            final(r)@.contains(id) <==> old(r)@.contains(id) || id == up@
        },
        input matches ReceiverInput::Event(SwarmEvent::NeighborDown(down)) ==> {
            final(r)@.contains(id) <==> old(r)@.contains(id) && id != down@
        },
{
}

/// Law: a topic is labelled by its first eight bytes, two digits each.
pub proof fn law_topic_label(topic: [u8; 32], out: String, i: int)
    requires
        call_ensures(topic_label, (&topic,), out),
        0 <= i < 8,
    ensures
        out@.len() == 16,
        topic@[i] == 16 * text::hex_value(out@[2 * i]) + text::hex_value(out@[2 * i + 1]),
{
    text::law_hex_byte_is_its_value(topic@.take(8), i);
}

/// Events from the gossip swarm to the router.
#[derive(Debug)]
pub enum GossipEvent {
    /// A gossip frame received from the swarm.
    Frame(GossipFrame),
    /// Neighbor count changed.
    NeighborChanged(usize),
}

/// What a [`GossipEvent`] says.
#[verifier::ext_equal]
pub enum GossipEventView {
    Frame(FrameView),
    NeighborChanged(usize),
}

impl View for GossipEvent {
    type V = GossipEventView;

    open spec fn view(&self) -> GossipEventView {
        match *self {
            GossipEvent::Frame(f) => GossipEventView::Frame(f@),
            GossipEvent::NeighborChanged(n) => GossipEventView::NeighborChanged(n),
        }
    }
}

/// An event of the swarm. Neighbors are named by their public key bytes.
#[derive(Debug)]
pub enum SwarmEvent {
    /// A message's content.
    Received(Vec<u8>),
    NeighborUp([u8; 32]),
    NeighborDown([u8; 32]),
    /// The swarm itself dropped messages.
    Lagged,
}

/// What reaches the receiver task.
#[derive(Debug)]
pub enum ReceiverInput {
    Event(SwarmEvent),
    /// The event stream outran us by this many events.
    Missed(u64),
    /// The event stream ended.
    Closed,
    Cancelled,
}

/// Why the receiver task stops.
#[derive(Debug, Clone, Copy, PartialEq, Eq, Structural)]
pub enum StopReason {
    Cancelled,
    /// The bridge will no longer receive from the swarm.
    BroadcastClosed,
}

/// What the receiver task does.
#[derive(Debug)]
pub enum ReceiverAction {
    /// Send the event to the router.
    Forward(GossipEvent),
    /// Drop a malformed message of this many bytes.
    Malformed(usize),
    /// Note that events were dropped, and go on.
    NoteLag,
    Stop(StopReason),
}

/// What a [`ReceiverAction`] says.
#[verifier::ext_equal]
pub enum ReceiverActionView {
    Forward(GossipEventView),
    Malformed(usize),
    NoteLag,
    Stop(StopReason),
}

impl View for ReceiverAction {
    type V = ReceiverActionView;

    open spec fn view(&self) -> ReceiverActionView {
        match *self {
            ReceiverAction::Forward(e) => ReceiverActionView::Forward(e@),
            ReceiverAction::Malformed(n) => ReceiverActionView::Malformed(n),
            ReceiverAction::NoteLag => ReceiverActionView::NoteLag,
            ReceiverAction::Stop(r) => ReceiverActionView::Stop(r),
        }
    }
}

/// The receiver task's own set of neighbors, from which it reports counts.
#[derive(Debug)]
pub struct Receiver {
    neighbors: KeyMap<()>,
}

/// The neighbors after an input.
pub open spec fn neighbors_after(neighbors: Set<Seq<u8>>, input: ReceiverInput) -> Set<Seq<u8>> {
    match input {
        ReceiverInput::Event(SwarmEvent::NeighborUp(id)) => neighbors.insert(id@),
        ReceiverInput::Event(SwarmEvent::NeighborDown(id)) => neighbors.remove(id@),
        _ => neighbors,
    }
}

/// What the receiver task does with an input.
pub open spec fn receiver_action(
    neighbors: Set<Seq<u8>>,
    input: ReceiverInput,
) -> ReceiverActionView {
    match input {
        ReceiverInput::Event(SwarmEvent::Received(content)) => match packet::parse_frame(
            content@,
        ) {
            Some(f) => ReceiverActionView::Forward(GossipEventView::Frame(f)),
            None => ReceiverActionView::Malformed(content@.len() as usize),
        },
        ReceiverInput::Event(SwarmEvent::Lagged) => ReceiverActionView::NoteLag,
        ReceiverInput::Event(_) => ReceiverActionView::Forward(
            GossipEventView::NeighborChanged(neighbors_after(neighbors, input).len() as usize),
        ),
        ReceiverInput::Missed(_) => ReceiverActionView::NoteLag,
        ReceiverInput::Closed => ReceiverActionView::Stop(StopReason::BroadcastClosed),
        ReceiverInput::Cancelled => ReceiverActionView::Stop(StopReason::Cancelled),
    }
}

impl View for Receiver {
    type V = Set<Seq<u8>>;

    closed spec fn view(&self) -> Set<Seq<u8>> {
        self.neighbors@.dom()
    }
}

impl Receiver {
    /// Every neighbor occurs once.
    pub closed spec fn wf(&self) -> bool {
        self.neighbors.wf()
    }

    /// No neighbors yet.
    pub fn new() -> (r: Receiver)
        ensures
            r.wf(),
            r@ == Set::<Seq<u8>>::empty(),
    {
        Receiver { neighbors: KeyMap::new() }
    }

    /// The number of neighbors.
    pub fn neighbor_count(&self) -> (n: usize)
        requires
            self.wf(),
        ensures
            self@.finite(),
            n == self@.len(),
    {
        self.neighbors.len()
    }

    /// Take in what reached the receiver task and decide what to do with it.
    pub fn on_input(&mut self, input: ReceiverInput) -> (action: ReceiverAction)
        requires
            old(self).wf(),
        ensures
            final(self).wf(),
            final(self)@ == neighbors_after(old(self)@, input),
            action@ == receiver_action(old(self)@, input),
    {
        match input {
            ReceiverInput::Event(SwarmEvent::Received(content)) => {
                match GossipFrame::decode(content.as_slice()) {
                    Some(frame) => ReceiverAction::Forward(GossipEvent::Frame(frame)),
                    None => ReceiverAction::Malformed(content.len()),
                }
            },
            ReceiverInput::Event(SwarmEvent::NeighborUp(id)) => {
                self.neighbors.insert(id, ());
                assert(self@ =~= old(self)@.insert(id@));
                ReceiverAction::Forward(GossipEvent::NeighborChanged(self.neighbor_count()))
            },
            ReceiverInput::Event(SwarmEvent::NeighborDown(id)) => {
                self.neighbors.remove(&id);
                assert(self@ =~= old(self)@.remove(id@));
                ReceiverAction::Forward(GossipEvent::NeighborChanged(self.neighbor_count()))
            },
            ReceiverInput::Event(SwarmEvent::Lagged) => ReceiverAction::NoteLag,
            ReceiverInput::Missed(_) => ReceiverAction::NoteLag,
            ReceiverInput::Closed => ReceiverAction::Stop(StopReason::BroadcastClosed),
            ReceiverInput::Cancelled => ReceiverAction::Stop(StopReason::Cancelled),
        }
    }
}

/// Law: what one bridge encodes, every other bridge's receiver hands to its
/// router as the same frame.
pub proof fn law_broadcast_frame_is_delivered(
    neighbors: Set<Seq<u8>>,
    f: FrameView,
    content: Vec<u8>,
)
    requires
        f.sender.len() == 32,
        f.payload.len() <= 65535,
        content@ == packet::frame_bytes(f),
    ensures
        receiver_action(neighbors, ReceiverInput::Event(SwarmEvent::Received(content)))
            == ReceiverActionView::Forward(GossipEventView::Frame(f)),
{
    packet::law_frame_round_trip(f);
}

/// Law: what the receiver task does with each input. A message that is a frame
/// goes to the router as that frame, any other is malformed at its length; a
/// neighbor's coming or going reports how many there are then; lost events are
/// noted; and the end of the stream, or a cancellation, stops the task. Only
/// neighbors' coming and going changes who they are.
pub proof fn law_receiver_serves_the_router(neighbors: Set<Seq<u8>>, input: ReceiverInput)
    requires
        neighbors.finite(),
        neighbors.len() < usize::MAX,
    ensures
        ({
            let action = receiver_action(neighbors, input);
            let after = neighbors_after(neighbors, input);
            &&& input matches ReceiverInput::Event(SwarmEvent::Received(content)) ==> {
                let n = content@.len();
                let whole = n >= 38 && n == 38 + content@[36] + 256 * content@[37];
                &&& action is Forward <==> whole
                &&& action is Malformed <==> !whole
                &&& action matches ReceiverActionView::Malformed(len) ==> len == n as usize
                &&& action matches ReceiverActionView::Forward(event) ==> {
                    &&& event matches GossipEventView::Frame(f)
                    &&& f.sender == content@.take(32)
                    &&& f.payload == content@.skip(38)
                }
                &&& after == neighbors
            }
            &&& input matches ReceiverInput::Event(SwarmEvent::NeighborUp(id)) ==> {
                &&& action matches ReceiverActionView::Forward(
                    GossipEventView::NeighborChanged(count),
                )
                &&& count == if neighbors.contains(id@) {
                    neighbors.len()
                } else {
                    neighbors.len() + 1
                }
                &&& after == neighbors.insert(id@)
            }
            &&& input matches ReceiverInput::Event(SwarmEvent::NeighborDown(id)) ==> {
                &&& action matches ReceiverActionView::Forward(
                    GossipEventView::NeighborChanged(count),
                )
                &&& count == if neighbors.contains(id@) {
                    neighbors.len() - 1
                } else {
                    neighbors.len() as int
                }
                &&& after == neighbors.remove(id@)
            }
            &&& input == ReceiverInput::Event(SwarmEvent::Lagged) || input is Missed ==> action
                == ReceiverActionView::NoteLag && after == neighbors
            &&& input is Closed ==> action == ReceiverActionView::Stop(
                StopReason::BroadcastClosed,
            ) && after == neighbors
            &&& input is Cancelled ==> action == ReceiverActionView::Stop(StopReason::Cancelled)
                && after == neighbors
        }),
{
    match input {
        ReceiverInput::Event(SwarmEvent::NeighborUp(id)) => {
            if neighbors.contains(id@) {
                assert(neighbors.insert(id@) =~= neighbors);
            }
        },
        ReceiverInput::Event(SwarmEvent::NeighborDown(id)) => {
            if !neighbors.contains(id@) {
                assert(neighbors.remove(id@) =~= neighbors);
            }
        },
        _ => {},
    }
}

/// Law: a neighbor that is announced again, or that leaves without having
/// been there, does not change the count.
pub proof fn law_neighbor_events_are_idempotent(neighbors: Set<Seq<u8>>, id: [u8; 32])
    ensures
        ({
            let up = ReceiverInput::Event(SwarmEvent::NeighborUp(id));
            let once = neighbors_after(neighbors, up);
            neighbors_after(once, up) == once && receiver_action(once, up) == receiver_action(
                neighbors,
                up,
            )
        }),
        ({
            let down = ReceiverInput::Event(SwarmEvent::NeighborDown(id));
            let once = neighbors_after(neighbors, down);
            neighbors_after(once, down) == once && receiver_action(once, down) == receiver_action(
                neighbors,
                down,
            )
        }),
{
    assert(neighbors.insert(id@).insert(id@) =~= neighbors.insert(id@));
    assert(neighbors.remove(id@).remove(id@) =~= neighbors.remove(id@));
}

} // verus!
