//! What holds of a router over whole runs of inputs.

use vstd::prelude::*;

use crate::gossip::GossipEventView;
use crate::packet;
use crate::packet::{FrameView, PacketView};
use crate::radio::RadioEventView;
use crate::rate_limit;
use crate::router;
use crate::router::{
    LogEntryView, PacketAction, PacketDirection, RouterInput, RouterView,
};

verus! {

// ── What a run takes in and gives out ───────────────────────────────

/// The log rows of a run, in order.
pub open spec fn rows(v: RouterView, inputs: Seq<(RouterInput, u64)>) -> Seq<LogEntryView>
    decreases inputs.len(),
{
    if inputs.len() == 0 {
        Seq::empty()
    } else {
        let before = inputs.drop_last();
        let (input, now) = inputs.last();
        match v.after_all(before).output(input, now).log {
            Some(row) => rows(v, before).push(row),
            None => rows(v, before),
        }
    }
}

/// The frames that a run sends to the swarm, in order.
pub open spec fn sent(v: RouterView, inputs: Seq<(RouterInput, u64)>) -> Seq<FrameView>
    decreases inputs.len(),
{
    if inputs.len() == 0 {
        Seq::empty()
    } else {
        let before = inputs.drop_last();
        let (input, now) = inputs.last();
        match v.after_all(before).output(input, now).broadcast {
            Some(frame) => sent(v, before).push(frame),
            None => sent(v, before),
        }
    }
}

/// The frames that come from the swarm during a run, and when.
pub open spec fn frames_in(inputs: Seq<(RouterInput, u64)>) -> Seq<(FrameView, u64)>
    decreases inputs.len(),
{
    if inputs.len() == 0 {
        Seq::empty()
    } else {
        match inputs.last().0 {
            RouterInput::Gossip(GossipEventView::Frame(frame)) => frames_in(
                inputs.drop_last(),
            ).push((frame, inputs.last().1)),
            _ => frames_in(inputs.drop_last()),
        }
    }
}

/// The packets that are heard on the radio during a run, and when.
pub open spec fn packets_in(inputs: Seq<(RouterInput, u64)>) -> Seq<(PacketView, u64)>
    decreases inputs.len(),
{
    if inputs.len() == 0 {
        Seq::empty()
    } else {
        match inputs.last().0 {
            RouterInput::Radio(RadioEventView::Packet(pkt)) => packets_in(inputs.drop_last()).push(
                (pkt, inputs.last().1),
            ),
            _ => packets_in(inputs.drop_last()),
        }
    }
}

/// The packets heard during a run that are no duplicates, and when they are heard.
pub open spec fn new_packets(v: RouterView, inputs: Seq<(RouterInput, u64)>) -> Seq<
    (PacketView, u64),
>
    decreases inputs.len(),
{
    if inputs.len() == 0 {
        Seq::empty()
    } else {
        let before = inputs.drop_last();
        let now = inputs.last().1;
        match inputs.last().0 {
            RouterInput::Radio(RadioEventView::Packet(pkt)) if v.after_all(before).radio_fate(
                packet::blake3_digest(pkt.payload),
                now,
            ) == PacketAction::Bridged => new_packets(v, before).push((pkt, now)),
            _ => new_packets(v, before),
        }
    }
}

/// The number of frames during a run that the rate limiter lets pass.
pub open spec fn frames_passed(v: RouterView, inputs: Seq<(RouterInput, u64)>) -> int
    decreases inputs.len(),
{
    if inputs.len() == 0 {
        0
    } else {
        let before = inputs.drop_last();
        let now = inputs.last().1;
        frames_passed(v, before) + match inputs.last().0 {
            RouterInput::Gossip(GossipEventView::Frame(frame)) => {
                let fate = v.after_all(before).gossip_fate(
                    packet::blake3_digest(frame.payload),
                    now,
                );
                if fate == PacketAction::Bridged || fate == PacketAction::DroppedQueueFull {
                    1int
                } else {
                    0
                }
            },
            _ => 0,
        }
    }
}

/// Rows of frames from the swarm. The rows of a transmission's progress are not among them.
pub open spec fn from_swarm() -> spec_fn(LogEntryView) -> bool {
    |row: LogEntryView| row.direction == PacketDirection::GossipIn && row.tx_retry is None
}

/// Rows of packets heard on the radio.
pub open spec fn from_radio() -> spec_fn(LogEntryView) -> bool {
    |row: LogEntryView| row.direction == PacketDirection::RadioIn
}

/// Rows of packets heard on the radio that were let through.
pub open spec fn bridged_from_radio() -> spec_fn(LogEntryView) -> bool {
    |row: LogEntryView|
        row.direction == PacketDirection::RadioIn && row.action == PacketAction::Bridged
}

/// Rows with a given action.
pub open spec fn acted(action: PacketAction) -> spec_fn(LogEntryView) -> bool {
    |row: LogEntryView| row.action == action
}

/// Whether a row is that of a frame from the swarm, whatever became of it.
pub open spec fn row_of_frame(row: LogEntryView, frame: FrameView, now: u64) -> bool {
    row == router::arrival_row(
        packet::blake3_digest(frame.payload),
        PacketDirection::GossipIn,
        frame.payload.len(),
        frame.snr,
        frame.rssi,
        row.action,
        now,
    )
}

/// Whether a row is that of a packet heard on the radio, whatever became of it.
pub open spec fn row_of_packet(row: LogEntryView, pkt: PacketView, now: u64) -> bool {
    row == router::arrival_row(
        packet::blake3_digest(pkt.payload),
        PacketDirection::RadioIn,
        pkt.payload.len(),
        pkt.snr,
        pkt.rssi,
        row.action,
        now,
    )
}

// ── Counters and rows ───────────────────────────────────────────────

/// Law: over a run from zeroed counters, the frames received are as many as
/// the frames that came, and each has exactly one row, in order, with its
/// content hash, its length and its levels. The drops counted are the rows
/// that say so: for the rate, for want of room, and for duplicates of either
/// side.
pub proof fn law_frames_are_logged_and_counted(v: RouterView, inputs: Seq<(RouterInput, u64)>)
    requires
        v.stats == router::zero_stats(),
        inputs.len() <= u64::MAX,
    ensures
        ({
            let stats = v.after_all(inputs).stats;
            let log = rows(v, inputs);
            let arrivals = log.filter(from_swarm());
            let frames = frames_in(inputs);
            &&& arrivals.len() == frames.len()
            &&& stats.gossip_rx == frames.len()
            &&& forall|i: int|
                0 <= i < frames.len() ==> row_of_frame(
                    #[trigger] arrivals[i],
                    frames[i].0,
                    frames[i].1,
                )
            &&& stats.rate_limit_drops == log.filter(acted(PacketAction::DroppedRateLimit)).len()
            &&& stats.dropped_queue == log.filter(acted(PacketAction::DroppedQueueFull)).len()
            &&& stats.dedup_hits == log.filter(acted(PacketAction::DroppedDedup)).len()
            &&& frames.len() <= inputs.len()
            &&& log.len() <= inputs.len()
        }),
    decreases inputs.len(),
{
    broadcast use Seq::lemma_filter_push, Seq::lemma_filter_len;

    if inputs.len() == 0 {
        lemma_no_rows();
    } else {
        let before = inputs.drop_last();
        law_frames_are_logged_and_counted(v, before);
        let w = v.after_all(before);
        let (input, now) = inputs.last();
        let log = rows(v, before);
        match w.output(input, now).log {
            Some(row) => {
                assert(rows(v, inputs) == log.push(row));
            },
            None => {
                assert(rows(v, inputs) == log);
            },
        }
    }
}

/// Law: over a run from zeroed counters, every packet heard has exactly one
/// row, in order, which says that it was let through or was a duplicate, and
/// is counted as received. The packets let through, the frames sent and the
/// count of them agree, and the frames sent are those packets under this
/// bridge's name, in order.
pub proof fn law_packets_are_sent_and_counted(v: RouterView, inputs: Seq<(RouterInput, u64)>)
    requires
        v.stats == router::zero_stats(),
        inputs.len() <= u64::MAX,
    ensures
        ({
            let stats = v.after_all(inputs).stats;
            let arrivals = rows(v, inputs).filter(from_radio());
            let bridged = rows(v, inputs).filter(bridged_from_radio());
            let packets = packets_in(inputs);
            let fresh = new_packets(v, inputs);
            let out = sent(v, inputs);
            &&& arrivals.len() == packets.len()
            &&& stats.radio_rx == packets.len()
            &&& forall|i: int|
                0 <= i < packets.len() ==> {
                    &&& row_of_packet(#[trigger] arrivals[i], packets[i].0, packets[i].1)
                    &&& arrivals[i].action == PacketAction::Bridged || arrivals[i].action
                        == PacketAction::DroppedDedup
                }
            &&& bridged.len() == fresh.len()
            &&& out.len() == fresh.len()
            &&& stats.gossip_tx == fresh.len()
            &&& forall|i: int|
                #![trigger fresh[i]]
                0 <= i < fresh.len() ==> {
                    &&& row_of_packet(bridged[i], fresh[i].0, fresh[i].1)
                    &&& out[i] == (FrameView {
                        sender: v.our_id,
                        rssi: fresh[i].0.rssi,
                        snr: fresh[i].0.snr,
                        payload: fresh[i].0.payload,
                    })
                }
            &&& v.after_all(inputs).our_id == v.our_id
            &&& packets.len() <= inputs.len()
            &&& fresh.len() <= inputs.len()
        }),
    decreases inputs.len(),
{
    broadcast use Seq::lemma_filter_push;

    if inputs.len() == 0 {
        lemma_no_rows();
    } else {
        let before = inputs.drop_last();
        law_packets_are_sent_and_counted(v, before);
        let w = v.after_all(before);
        let (input, now) = inputs.last();
        let log = rows(v, before);
        match w.output(input, now).log {
            Some(row) => {
                assert(rows(v, inputs) == log.push(row));
            },
            None => {
                assert(rows(v, inputs) == log);
            },
        }
    }
}

proof fn lemma_no_rows()
    ensures
        forall|p: spec_fn(LogEntryView) -> bool| #[trigger]
            Seq::<LogEntryView>::empty().filter(p) == Seq::<LogEntryView>::empty(),
{
    reveal(Seq::filter);
}

// ── Duplicates ──────────────────────────────────────────────────────

/// Whether an input carries a payload with the given content hash.
pub open spec fn carries(input: RouterInput, hash: Seq<u8>) -> bool {
    router::arriving(input) matches Some(payload) && packet::blake3_digest(payload) == hash
}

/// Whether the `i`-th input of a run carries a payload with the given content
/// hash that is not dropped as a duplicate, whatever then becomes of it.
pub open spec fn let_through(
    v: RouterView,
    inputs: Seq<(RouterInput, u64)>,
    i: int,
    hash: Seq<u8>,
) -> bool {
    carries(inputs[i].0, hash) && !v.after_all(inputs.take(i)).dedup.holds(hash, inputs[i].1)
}

/// Law: after any run from an empty cache, by a clock that does not go back, a
/// payload is dropped as a duplicate, from either side, if and only if one
/// with its hash, itself no duplicate, came less than the window before. What
/// was dropped as a duplicate does not make the window longer.
pub proof fn law_duplicate_iff_let_through_in_window(
    v: RouterView,
    inputs: Seq<(RouterInput, u64)>,
    hash: Seq<u8>,
    now: u64,
)
    requires
        v.dedup.entries == Map::<Seq<u8>, u64>::empty(),
        forall|i: int, j: int| 0 <= i <= j < inputs.len() ==> inputs[i].1 <= inputs[j].1,
        forall|i: int| 0 <= i < inputs.len() ==> (#[trigger] inputs[i]).1 <= now,
    ensures
        ({
            let w = v.after_all(inputs);
            let seen = exists|i: int|
                0 <= i < inputs.len() && (#[trigger] let_through(v, inputs, i, hash)) && now
                    - inputs[i].1 < v.dedup.ttl;
            &&& w.radio_fate(hash, now) == PacketAction::DroppedDedup <==> seen
            &&& w.gossip_fate(hash, now) == PacketAction::DroppedDedup <==> seen
        }),
{
    let n = inputs.len() as int;
    lemma_entries_of_a_run(v, inputs, n, hash);
    assert(inputs.take(n) =~= inputs);
    let entries = v.after_all(inputs).dedup.entries;
    if entries.contains_key(hash) {
        let i = choose|i: int|
            0 <= i < n && (#[trigger] let_through(v, inputs, i, hash)) && inputs[i].1
                == entries[hash];
        assert(inputs[i].1 <= now);
    }
    assert forall|i: int|
        0 <= i < n && (#[trigger] let_through(v, inputs, i, hash)) && now - inputs[i].1
            < v.dedup.ttl implies v.after_all(inputs).dedup.holds(hash, now) by {
        assert(inputs[n - 1].1 <= now);
    }
}

proof fn lemma_entries_of_a_run(
    v: RouterView,
    inputs: Seq<(RouterInput, u64)>,
    n: int,
    hash: Seq<u8>,
)
    requires
        v.dedup.entries == Map::<Seq<u8>, u64>::empty(),
        forall|i: int, j: int| 0 <= i <= j < inputs.len() ==> inputs[i].1 <= inputs[j].1,
        0 <= n <= inputs.len(),
    ensures
        ({
            let dedup = v.after_all(inputs.take(n)).dedup;
            &&& dedup.ttl == v.dedup.ttl
            &&& dedup.entries.contains_key(hash) ==> exists|i: int|
                0 <= i < n && (#[trigger] let_through(v, inputs, i, hash)) && inputs[i].1
                    == dedup.entries[hash]
            &&& forall|i: int|
                0 <= i < n && (#[trigger] let_through(v, inputs, i, hash)) ==> {
                    ||| dedup.entries.contains_key(hash) && dedup.entries[hash] >= inputs[i].1
                    ||| inputs[n - 1].1 - inputs[i].1 >= v.dedup.ttl
                }
        }),
    decreases n,
{
    if n == 0 {
        assert(inputs.take(0) =~= Seq::<(RouterInput, u64)>::empty());
    } else {
        lemma_entries_of_a_run(v, inputs, n - 1, hash);
        assert(inputs.take(n).drop_last() =~= inputs.take(n - 1));
        assert(inputs.take(n).last() == inputs[n - 1]);
        let w = v.after_all(inputs.take(n - 1));
        let (input, now) = inputs[n - 1];
        let x = w.after(input, now);
        assert(v.after_all(inputs.take(n)) == x);
        lemma_entry_step(w, input, now, hash);
        if x.dedup.entries.contains_key(hash) {
            if let_through(v, inputs, n - 1, hash) {
                assert(inputs[n - 1].1 == x.dedup.entries[hash]);
            } else {
                let i = choose|i: int|
                    0 <= i < n - 1 && (#[trigger] let_through(v, inputs, i, hash)) && inputs[i].1
                        == w.dedup.entries[hash];
                assert(let_through(v, inputs, i, hash) && inputs[i].1 == x.dedup.entries[hash]);
            }
        }
        assert forall|i: int| 0 <= i < n && (#[trigger] let_through(v, inputs, i, hash)) implies {
            ||| x.dedup.entries.contains_key(hash) && x.dedup.entries[hash] >= inputs[i].1
            ||| inputs[n - 1].1 - inputs[i].1 >= v.dedup.ttl
        } by {
            assert(inputs[i].1 <= inputs[n - 1].1);
            if i < n - 1 {
                assert(inputs[n - 2].1 <= inputs[n - 1].1);
            }
        }
    }
}

/// What one input does to the entry of a content hash.
proof fn lemma_entry_step(w: RouterView, input: RouterInput, now: u64, hash: Seq<u8>)
    ensures
        ({
            let x = w.after(input, now);
            let passes = carries(input, hash) && !w.dedup.holds(hash, now);
            &&& x.dedup.ttl == w.dedup.ttl
            &&& passes ==> x.dedup.entries.contains_key(hash) && x.dedup.entries[hash] == now
            &&& !passes && x.dedup.entries.contains_key(hash) ==> {
                &&& w.dedup.entries.contains_key(hash)
                &&& x.dedup.entries[hash] == w.dedup.entries[hash]
            }
            &&& !passes && w.dedup.entries.contains_key(hash) && !x.dedup.entries.contains_key(hash)
                ==> now - w.dedup.entries[hash] >= w.dedup.ttl || w.dedup.ttl == 0
        }),
{
}

// ── The order of transmissions ──────────────────────────────────────

/// The transmissions that a run hands to the radio task: sequence number and payload.
pub open spec fn handed_out(v: RouterView, inputs: Seq<(RouterInput, u64)>) -> Seq<(u64, Seq<u8>)>
    decreases inputs.len(),
{
    if inputs.len() == 0 {
        Seq::empty()
    } else {
        let before = inputs.drop_last();
        let w = v.after_all(before);
        if inputs.last().0 is Dequeue && w.tx_queue.len() > 0 {
            handed_out(v, before).push((w.dequeued().next_tx_seq, w.tx_queue[0]))
        } else {
            handed_out(v, before)
        }
    }
}

/// The payloads of the frames of a run that are bridged, in order.
pub open spec fn frames_bridged(v: RouterView, inputs: Seq<(RouterInput, u64)>) -> Seq<Seq<u8>>
    decreases inputs.len(),
{
    if inputs.len() == 0 {
        Seq::empty()
    } else {
        let before = inputs.drop_last();
        match inputs.last().0 {
            RouterInput::Gossip(GossipEventView::Frame(frame)) if v.after_all(before).gossip_fate(
                packet::blake3_digest(frame.payload),
                inputs.last().1,
            ) == PacketAction::Bridged => frames_bridged(v, before).push(frame.payload),
            _ => frames_bridged(v, before),
        }
    }
}

/// Law: over any run, what is handed to the radio task is what waited before
/// the run and then the frames bridged in it, in that order and nothing else,
/// under consecutive sequence numbers; what was not handed out yet is waiting.
/// From an empty queue, the n-th transmission is the n-th bridged frame.
pub proof fn law_transmissions_are_the_bridged_frames(
    v: RouterView,
    inputs: Seq<(RouterInput, u64)>,
)
    requires
        v.wf(),
    ensures
        ({
            let out = handed_out(v, inputs);
            let due = v.tx_queue + frames_bridged(v, inputs);
            let w = v.after_all(inputs);
            &&& out.len() <= due.len()
            &&& forall|i: int|
                0 <= i < out.len() ==> (#[trigger] out[i]) == (
                    ((v.next_tx_seq + i + 1) % 0x1_0000_0000_0000_0000) as u64,
                    due[i],
                )
            &&& w.tx_queue == due.skip(out.len() as int)
            &&& w.next_tx_seq == (v.next_tx_seq + out.len()) % 0x1_0000_0000_0000_0000
            &&& v.tx_queue.len() == 0 ==> due == frames_bridged(v, inputs)
        }),
    decreases inputs.len(),
{
    let due = v.tx_queue + frames_bridged(v, inputs);
    if inputs.len() == 0 {
        assert(due =~= v.tx_queue);
        assert(due.skip(0) =~= v.tx_queue);
        assert(v.tx_queue.len() == 0 ==> due =~= frames_bridged(v, inputs));
    } else {
        let before = inputs.drop_last();
        law_transmissions_are_the_bridged_frames(v, before);
        router::law_router_stays_sound(v, before);
        let w = v.after_all(before);
        let (input, now) = inputs.last();
        let x = w.after(input, now);
        let old_due = v.tx_queue + frames_bridged(v, before);
        let old_out = handed_out(v, before);
        let n = old_out.len() as int;
        assert(v.tx_queue.len() == 0 ==> due =~= frames_bridged(v, inputs));
        match input {
            RouterInput::Gossip(GossipEventView::Frame(frame)) => {
                if w.gossip_fate(packet::blake3_digest(frame.payload), now)
                    == PacketAction::Bridged {
                    assert(due =~= old_due.push(frame.payload));
                    assert(due.skip(n) =~= old_due.skip(n).push(frame.payload));
                }
            },
            RouterInput::Dequeue => {
                if w.tx_queue.len() > 0 {
                    assert(w.tx_queue[0] == old_due[n]);
                    assert(old_due.skip(n).skip(1) =~= old_due.skip(n + 1));
                }
            },
            RouterInput::Refused => {
                law_refused_payload_keeps_its_place(w);
            },
            _ => {},
        }
    }
}

// ── A channel that is full ──────────────────────────────────────────

/// Law: a payload that the radio task's channel has no room for keeps its
/// place at the front of the queue, and the sequence number that it will
/// leave under.
pub proof fn law_refused_payload_keeps_its_place(v: RouterView)
    requires
        v.wf(),
    ensures
        v.refused() == v,
{
    if v.tx_queue.len() > 0 {
        assert(seq![v.tx_queue[0]] + v.tx_queue.skip(1) =~= v.tx_queue);
    }
}

/// The router after frames from the swarm, while the radio task's channel
/// refuses whatever it is offered.
pub open spec fn stalled(v: RouterView, frames: Seq<(FrameView, u64)>) -> RouterView
    decreases frames.len(),
{
    if frames.len() == 0 {
        v
    } else {
        let (frame, now) = frames.last();
        stalled(v, frames.drop_last()).after(
            RouterInput::Gossip(GossipEventView::Frame(frame)),
            now,
        ).after(RouterInput::Refused, now)
    }
}

/// What becomes of a frame of such a run.
pub open spec fn stalled_fate(
    v: RouterView,
    frames: Seq<(FrameView, u64)>,
    i: int,
) -> PacketAction {
    stalled(v, frames.take(i)).gossip_fate(
        packet::blake3_digest(frames[i].0.payload),
        frames[i].1,
    )
}

/// The payloads of frames.
pub open spec fn payloads_of(frames: Seq<(FrameView, u64)>) -> Seq<Seq<u8>> {
    frames.map_values(|f: (FrameView, u64)| f.0.payload)
}

/// Law: while the radio task's channel refuses what it is offered, new
/// payloads under the rate wait in the queue, in order, until it holds as
/// many as its size, and every one after that is dropped for want of room.
pub proof fn law_full_channel_fills_the_queue(v: RouterView, frames: Seq<(FrameView, u64)>)
    requires
        v.wf(),
        forall|i: int|
            0 <= i < frames.len() ==> {
                &&& (#[trigger] stalled_fate(v, frames, i)) != PacketAction::DroppedDedup
                &&& stalled_fate(v, frames, i) != PacketAction::DroppedRateLimit
            },
    ensures
        ({
            let room = v.tx_queue_size - v.tx_queue.len();
            let w = stalled(v, frames);
            &&& w.wf()
            &&& w.tx_queue_size == v.tx_queue_size
            &&& w.tx_queue == v.tx_queue + payloads_of(
                if frames.len() <= room {
                    frames
                } else {
                    frames.take(room)
                },
            )
            &&& forall|i: int|
                0 <= i < frames.len() ==> (#[trigger] stalled_fate(v, frames, i)) == if i < room {
                    PacketAction::Bridged
                } else {
                    PacketAction::DroppedQueueFull
                }
        }),
{
    let room = v.tx_queue_size - v.tx_queue.len();
    assert forall|i: int| 0 <= i < frames.len() implies (#[trigger] stalled_fate(v, frames, i))
        == if i < room {
        PacketAction::Bridged
    } else {
        PacketAction::DroppedQueueFull
    } by {
        lemma_stalled_queue(v, frames, i);
    }
    lemma_stalled_queue(v, frames, frames.len() as int);
    assert(frames.take(frames.len() as int) =~= frames);
}

proof fn lemma_stalled_step(w: RouterView, frame: FrameView, now: u64)
    requires
        w.wf(),
    ensures
        ({
            let x = w.after(RouterInput::Gossip(GossipEventView::Frame(frame)), now);
            &&& x.wf()
            &&& x.after(RouterInput::Refused, now) == x
            &&& x.tx_queue_size == w.tx_queue_size
            &&& x.tx_queue == if w.gossip_fate(packet::blake3_digest(frame.payload), now)
                == PacketAction::Bridged {
                w.tx_queue.push(frame.payload)
            } else {
                w.tx_queue
            }
        }),
{
    let x = w.after(RouterInput::Gossip(GossipEventView::Frame(frame)), now);
    rate_limit::law_bucket_stays_in_bounds(w.limiter, now as int);
    assert(x.wf());
    law_refused_payload_keeps_its_place(x);
}

proof fn lemma_stalled_queue(v: RouterView, frames: Seq<(FrameView, u64)>, n: int)
    requires
        v.wf(),
        0 <= n <= frames.len(),
        forall|i: int|
            0 <= i < frames.len() ==> {
                &&& (#[trigger] stalled_fate(v, frames, i)) != PacketAction::DroppedDedup
                &&& stalled_fate(v, frames, i) != PacketAction::DroppedRateLimit
            },
    ensures
        ({
            let room = v.tx_queue_size - v.tx_queue.len();
            let w = stalled(v, frames.take(n));
            &&& w.wf()
            &&& w.tx_queue_size == v.tx_queue_size
            &&& w.tx_queue == v.tx_queue + payloads_of(
                frames.take(
                    if n <= room {
                        n
                    } else {
                        room
                    },
                ),
            )
        }),
    decreases n,
{
    let room = v.tx_queue_size - v.tx_queue.len();
    if n == 0 {
        assert(v.tx_queue + payloads_of(frames.take(0)) =~= v.tx_queue);
    } else {
        lemma_stalled_queue(v, frames, n - 1);
        assert(frames.take(n).drop_last() =~= frames.take(n - 1));
        assert(frames.take(n).last() == frames[n - 1]);
        let w = stalled(v, frames.take(n - 1));
        let (frame, now) = frames[n - 1];
        let fate = stalled_fate(v, frames, n - 1);
        lemma_stalled_step(w, frame, now);
        assert(stalled(v, frames.take(n)).tx_queue == if fate == PacketAction::Bridged {
            w.tx_queue.push(frame.payload)
        } else {
            w.tx_queue
        });
        if n <= room {
            assert(w.tx_queue.len() < v.tx_queue_size);
            assert(fate == PacketAction::Bridged);
            assert(v.tx_queue + payloads_of(frames.take(n)) =~= w.tx_queue.push(frame.payload));
        } else {
            assert(w.tx_queue.len() == v.tx_queue_size);
            assert(fate == PacketAction::DroppedQueueFull);
        }
    }
}

// ── Measured time on air ────────────────────────────────────────────

/// The router after a transmission that was measured to be on the air for so long.
pub open spec fn after_success(
    v: RouterView,
    seq: u64,
    attempts_used: u8,
    total_attempts: u8,
    size: usize,
    airtime_us: u32,
    now: u64,
) -> RouterView {
    v.after_radio(
        RadioEventView::TxSucceeded {
            seq,
            attempts_used,
            total_attempts,
            final_airtime_us: airtime_us,
            size,
        },
        now,
    )
}

/// Law: of two routers that differ in how long a transmission was measured to
/// be on the air, the one with the longer time never lets more of the later
/// frames pass the rate limiter, whatever else happens to both.
pub proof fn law_longer_airtime_passes_no_more(
    v: RouterView,
    seq: u64,
    attempts_used: u8,
    total_attempts: u8,
    size: usize,
    short: u32,
    long: u32,
    now: u64,
    inputs: Seq<(RouterInput, u64)>,
)
    requires
        v.wf(),
        short <= long,
    ensures
        ({
            let a = after_success(v, seq, attempts_used, total_attempts, size, short, now);
            let b = after_success(v, seq, attempts_used, total_attempts, size, long, now);
            frames_passed(b, inputs) <= frames_passed(a, inputs)
        }),
{
    let a = after_success(v, seq, attempts_used, total_attempts, size, short, now);
    let b = after_success(v, seq, attempts_used, total_attempts, size, long, now);
    rate_limit::law_longer_airtime_leaves_less(v.limiter, short as int, long as int);
    rate_limit::law_longer_airtime_leaves_less(v.limiter, short as int, short as int);
    lemma_lead_over_a_run(a, b, inputs);
}

proof fn lemma_lead_over_a_run(a: RouterView, b: RouterView, inputs: Seq<(RouterInput, u64)>)
    requires
        rate_limit::leads(a.limiter, b.limiter, 0),
        a.dedup == b.dedup,
        a.last_cleanup == b.last_cleanup,
    ensures
        rate_limit::leads(
            a.after_all(inputs).limiter,
            b.after_all(inputs).limiter,
            frames_passed(a, inputs) - frames_passed(b, inputs),
        ),
        a.after_all(inputs).dedup == b.after_all(inputs).dedup,
        a.after_all(inputs).last_cleanup == b.after_all(inputs).last_cleanup,
    decreases inputs.len(),
{
    if inputs.len() > 0 {
        let before = inputs.drop_last();
        lemma_lead_over_a_run(a, b, before);
        let x = a.after_all(before);
        let y = b.after_all(before);
        let lead = frames_passed(a, before) - frames_passed(b, before);
        let now = inputs.last().1;
        match inputs.last().0 {
            RouterInput::Gossip(GossipEventView::Frame(_)) => {
                rate_limit::law_lead_survives_a_request(x.limiter, y.limiter, lead, now as int);
            },
            RouterInput::Radio(RadioEventView::TxSucceeded { final_airtime_us, .. }) => {
                rate_limit::law_lead_survives_a_charge(
                    x.limiter,
                    y.limiter,
                    lead,
                    final_airtime_us as int,
                );
            },
            _ => {},
        }
    }
}

/// Law: a transmission measured to be so long that the limiter gains no token
/// before the end of a run lets no frame of the run pass; the run then passes
/// strictly fewer than after any time on air that lets one pass.
pub proof fn law_long_airtime_passes_fewer(
    v: RouterView,
    seq: u64,
    attempts_used: u8,
    total_attempts: u8,
    size: usize,
    short: u32,
    long: u32,
    now: u64,
    inputs: Seq<(RouterInput, u64)>,
    end: u64,
)
    requires
        v.wf(),
        !v.limiter.rate.unbounded(),
        short <= long,
        forall|i: int|
            0 <= i < inputs.len() ==> v.limiter.last_refill <= (#[trigger] inputs[i]).1 <= end,
        forall|i: int, j: int| 0 <= i <= j < inputs.len() ==> inputs[i].1 <= inputs[j].1,
        v.limiter.charged(long as int).credit + (end - v.limiter.last_refill)
            * v.limiter.rate.gain() < v.limiter.rate.token(),
    ensures
        ({
            let a = after_success(v, seq, attempts_used, total_attempts, size, short, now);
            let b = after_success(v, seq, attempts_used, total_attempts, size, long, now);
            &&& frames_passed(b, inputs) == 0
            &&& frames_passed(a, inputs) > 0 ==> frames_passed(b, inputs) < frames_passed(a, inputs)
        }),
{
    let b = after_success(v, seq, attempts_used, total_attempts, size, long, now);
    rate_limit::law_longer_airtime_leaves_less(v.limiter, short as int, long as int);
    lemma_no_token_gained(b, inputs, end as int);
}

proof fn lemma_no_token_gained(b: RouterView, inputs: Seq<(RouterInput, u64)>, end: int)
    requires
        b.limiter.wf(),
        !b.limiter.rate.unbounded(),
        forall|i: int|
            0 <= i < inputs.len() ==> b.limiter.last_refill <= (#[trigger] inputs[i]).1 <= end,
        forall|i: int, j: int| 0 <= i <= j < inputs.len() ==> inputs[i].1 <= inputs[j].1,
        b.limiter.credit + (end - b.limiter.last_refill) * b.limiter.rate.gain()
            < b.limiter.rate.token(),
    ensures
        ({
            let x = b.after_all(inputs).limiter;
            &&& frames_passed(b, inputs) == 0
            &&& x.wf()
            &&& x.rate == b.limiter.rate
            &&& x.share == b.limiter.share
            &&& b.limiter.last_refill <= x.last_refill
            &&& inputs.len() == 0 ==> x.last_refill == b.limiter.last_refill
            &&& inputs.len() > 0 ==> x.last_refill <= inputs.last().1
            &&& x.credit <= b.limiter.credit + (x.last_refill - b.limiter.last_refill)
                * b.limiter.rate.gain()
        }),
    decreases inputs.len(),
{
    if inputs.len() > 0 {
        let before = inputs.drop_last();
        assert forall|i: int| 0 <= i < before.len() implies b.limiter.last_refill <= (
        #[trigger] before[i]).1 <= end by {
            assert(before[i] == inputs[i]);
        }
        assert forall|i: int, j: int| 0 <= i <= j < before.len() implies before[i].1
            <= before[j].1 by {
            assert(before[i] == inputs[i] && before[j] == inputs[j]);
        }
        lemma_no_token_gained(b, before, end);
        let x = b.after_all(before).limiter;
        let now = inputs.last().1 as int;
        assert(inputs.last() == inputs[inputs.len() - 1]);
        if before.len() > 0 {
            assert(before.last() == inputs[inputs.len() - 2]);
        }
        let s = b.limiter.last_refill;
        let p = b.limiter.rate.gain();
        rate_limit::law_rate_is_positive(b.limiter.rate);
        let e = x.last_refill;
        assert((now - e) * p + (e - s) * p == (now - s) * p) by (nonlinear_arith);
        assert((now - s) * p <= (end - s) * p) by (nonlinear_arith)
            requires
                now <= end,
                p > 0,
        ;
        rate_limit::law_bucket_stays_in_bounds(x, now);
        match inputs.last().0 {
            RouterInput::Radio(RadioEventView::TxSucceeded { final_airtime_us, .. }) => {
                rate_limit::law_longer_airtime_leaves_less(x, 0, final_airtime_us as int);
            },
            _ => {},
        }
    }
}

} // verus!
