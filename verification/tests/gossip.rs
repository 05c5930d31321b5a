use donglora_bridge::gossip::{
    topic_label, GossipEvent, Receiver, ReceiverAction, ReceiverInput, StopReason, SwarmEvent,
    APP_SALT,
};
use donglora_bridge::packet::GossipFrame;

fn count(action: ReceiverAction) -> usize {
    match action {
        ReceiverAction::Forward(GossipEvent::NeighborChanged(n)) => n,
        other => panic!("{other:?}"),
    }
}

fn up(id: u8) -> ReceiverInput {
    ReceiverInput::Event(SwarmEvent::NeighborUp([id; 32]))
}

fn down(id: u8) -> ReceiverInput {
    ReceiverInput::Event(SwarmEvent::NeighborDown([id; 32]))
}

#[test]
fn app_salt_is_versioned() {
    assert_eq!(APP_SALT, "donglora-bridge/v2");
}

#[test]
fn neighbors_are_counted_once() {
    let mut r = Receiver::new();
    assert_eq!(count(r.on_input(up(1))), 1);
    assert_eq!(count(r.on_input(up(2))), 2);
    assert_eq!(count(r.on_input(up(1))), 2);
    assert_eq!(count(r.on_input(down(1))), 1);
    assert_eq!(count(r.on_input(down(1))), 1);
    assert_eq!(count(r.on_input(down(9))), 1);
    assert_eq!(r.neighbor_count(), 1);
    assert_eq!(count(r.on_input(down(2))), 0);
}

#[test]
fn frames_are_decoded() {
    let mut r = Receiver::new();
    let frame = GossipFrame::new(&[3u8; 32], -70, 4, vec![1, 2, 3]);
    match r.on_input(ReceiverInput::Event(SwarmEvent::Received(frame.encode()))) {
        ReceiverAction::Forward(GossipEvent::Frame(f)) => {
            assert_eq!(f.sender, [3u8; 32]);
            assert_eq!(f.payload, vec![1, 2, 3]);
        }
        other => panic!("{other:?}"),
    }
}

#[test]
fn malformed_messages_are_dropped() {
    let mut r = Receiver::new();
    let action = r.on_input(ReceiverInput::Event(SwarmEvent::Received(vec![0; 11])));
    assert!(matches!(action, ReceiverAction::Malformed(11)));
}

#[test]
fn lag_is_noted_and_ends_nothing() {
    let mut r = Receiver::new();
    let _ = r.on_input(up(1));
    assert!(matches!(
        r.on_input(ReceiverInput::Event(SwarmEvent::Lagged)),
        ReceiverAction::NoteLag
    ));
    assert!(matches!(r.on_input(ReceiverInput::Missed(12)), ReceiverAction::NoteLag));
    assert_eq!(r.neighbor_count(), 1);
}

#[test]
fn receiver_stops() {
    let mut r = Receiver::new();
    assert!(matches!(
        r.on_input(ReceiverInput::Closed),
        ReceiverAction::Stop(StopReason::BroadcastClosed)
    ));
    assert!(matches!(
        r.on_input(ReceiverInput::Cancelled),
        ReceiverAction::Stop(StopReason::Cancelled)
    ));
}

#[test]
fn topic_label_is_eight_bytes_of_hex() {
    let mut topic = [0xEEu8; 32];
    topic[..8].copy_from_slice(&[0x00, 0x1F, 0xA0, 0xFF, 4, 5, 6, 0x7B]);
    assert_eq!(topic_label(&topic), "001fa0ff0405067b");
}
