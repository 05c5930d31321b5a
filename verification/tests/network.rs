use donglora_bridge::network::{
    fmt_key, AcceptAction, AcceptInput, Network, NetworkEvent, Outbound, OutboundStep, PeerConfig,
    PeerState,
};
use donglora_bridge::packet::GossipFrame;

fn peer(id: u8, name: &str) -> PeerConfig {
    PeerConfig { public_key: [id; 32], name: name.to_string(), addresses: vec![] }
}

fn network() -> Network {
    Network::new(&vec![peer(1, "one"), peer(2, "two"), peer(3, "three")])
}

fn state(n: &Network, id: u8) -> PeerState {
    n.peer_states().into_iter().find(|s| s.public_key == [id; 32]).unwrap()
}

#[test]
fn peers_start_disconnected() {
    let n = network();
    let states = n.peer_states();
    assert_eq!(states.len(), 3);
    for s in &states {
        assert!(!s.connected);
        assert_eq!(s.last_seen, None);
        assert_eq!((s.packets_in, s.packets_out), (0, 0));
    }
    assert_eq!(state(&n, 2).name, "two");
}

#[test]
fn peer_listed_twice_has_its_last_name() {
    let n = Network::new(&vec![peer(1, "old"), peer(1, "new")]);
    assert_eq!(n.peer_states().len(), 1);
    assert_eq!(state(&n, 1).name, "new");
}

#[test]
fn only_known_peers_are_accepted() {
    let n = network();
    assert_eq!(n.on_accept(AcceptInput::Connection([2; 32])), AcceptAction::Accept);
    assert_eq!(n.on_accept(AcceptInput::Connection([9; 32])), AcceptAction::Reject);
    assert_eq!(n.on_accept(AcceptInput::Failed), AcceptAction::Continue);
    assert_eq!(n.on_accept(AcceptInput::Closed), AcceptAction::Stop);
    assert_eq!(n.on_accept(AcceptInput::Cancelled), AcceptAction::Stop);
}

#[test]
fn connecting_and_closing() {
    let mut n = network();
    assert!(matches!(n.register([1; 32], 7, 50), NetworkEvent::PeerConnected(k) if k == [1; 32]));
    assert!(n.is_linked(&[1; 32]));
    assert!(state(&n, 1).connected);
    assert_eq!(state(&n, 1).last_seen, Some(50));
    assert!(matches!(n.close([1; 32], 7), NetworkEvent::PeerDisconnected(k) if k == [1; 32]));
    assert!(!n.is_linked(&[1; 32]));
    assert!(!state(&n, 1).connected);
    assert_eq!(state(&n, 1).last_seen, Some(50));
}

#[test]
fn id_zero_does_not_look_alive() {
    let mut n = network();
    let _ = n.register([1; 32], 0, 50);
    assert!(!n.is_linked(&[1; 32]));
}

#[test]
fn stale_reader_keeps_the_new_connection() {
    let mut n = network();
    let _ = n.register([1; 32], 7, 50);
    let _ = n.register([1; 32], 8, 60);
    let _ = n.close([1; 32], 7);
    assert!(n.is_linked(&[1; 32]));
    let _ = n.close([1; 32], 8);
    assert!(!n.is_linked(&[1; 32]));
}

#[test]
fn datagrams_are_counted_and_decoded() {
    let mut n = network();
    let data = GossipFrame::new(&[9; 32], -1, 2, vec![5]).encode();
    match n.receive([2; 32], &data, 77) {
        Some(NetworkEvent::Packet { from, frame }) => {
            assert_eq!(from, [2; 32]);
            assert_eq!(frame.payload, vec![5]);
        }
        other => panic!("{other:?}"),
    }
    assert_eq!(state(&n, 2).packets_in, 1);
    assert_eq!(state(&n, 2).last_seen, Some(77));
    assert!(n.receive([2; 32], &[1, 2, 3], 99).is_none());
    assert_eq!(state(&n, 2).packets_in, 1);
    assert_eq!(state(&n, 2).last_seen, Some(77));
}

#[test]
fn broadcast_goes_to_all_but_the_source() {
    let mut n = network();
    let _ = n.register([1; 32], 7, 0);
    let _ = n.register([3; 32], 8, 0);
    let mut all = n.broadcast_targets(None);
    all.sort();
    assert_eq!(all, vec![[1; 32], [3; 32]]);
    assert_eq!(n.broadcast_targets(Some([1; 32])), vec![[3; 32]]);
    assert_eq!(n.broadcast_targets(Some([2; 32])).len(), 2);
    n.note_sent(&[3; 32]);
    n.note_sent(&[9; 32]);
    assert_eq!(state(&n, 3).packets_out, 1);
    assert_eq!(n.peer_states().len(), 3);
}

#[test]
fn outbound_steps() {
    let o = Outbound::new();
    assert_eq!(o.next_step(true, true), OutboundStep::Stop);
    assert_eq!(o.next_step(false, true), OutboundStep::Recheck(5));
    assert_eq!(o.next_step(false, false), OutboundStep::Connect);
}

#[test]
fn outbound_backoff() {
    let mut o = Outbound::new();
    for wait in [1, 2, 4, 8, 16, 30, 30] {
        assert_eq!(o.attempt_ended(false), wait);
    }
    assert_eq!(o.attempt_ended(true), 1);
    assert_eq!(o.attempt_ended(false), 2);
}

#[test]
fn keys_are_shortened() {
    assert_eq!(fmt_key("0123456789abcdef"), "0123456789ab...");
    assert_eq!(fmt_key("0123456789ab"), "0123456789ab");
    assert_eq!(fmt_key(""), "");
}
