use donglora_bridge::packet::{content_hash, snr_grade, Grade, GossipFrame, FRAME_HEADER_SIZE};

fn key() -> [u8; 32] {
    let mut k = [0u8; 32];
    for (i, b) in k.iter_mut().enumerate() {
        *b = i as u8 + 100;
    }
    k
}

#[test]
fn snr_grading() {
    // SF7: min_snr = -2.5 * (7 - 4) = -7.5
    assert_eq!(snr_grade(10, 7), Grade::Good); // margin = 17.5
    assert_eq!(snr_grade(-5, 7), Grade::Marginal); // margin = 2.5 < 3
    assert_eq!(snr_grade(-8, 7), Grade::Unreliable); // margin = -0.5
    assert_eq!(snr_grade(-50, 7), Grade::Invalid); // out of range

    // SF12: min_snr = -2.5 * (12 - 4) = -20.0
    assert_eq!(snr_grade(-15, 12), Grade::Good); // margin = 5.0
    assert_eq!(snr_grade(-18, 12), Grade::Marginal); // margin = 2.0
    assert_eq!(snr_grade(-22, 12), Grade::Unreliable); // margin = -2.0
}

#[test]
fn snr_grade_valid_range() {
    assert_eq!(snr_grade(32, 7), Grade::Good);
    assert_eq!(snr_grade(33, 7), Grade::Invalid);
    assert_eq!(snr_grade(-32, 255), Grade::Good);
    assert_eq!(snr_grade(-33, 255), Grade::Invalid);
}

#[test]
fn snr_grade_never_panics() {
    for snr in i16::MIN..=i16::MAX {
        for sf in 5u8..=12 {
            let _ = snr_grade(snr, sf);
        }
    }
}

#[test]
fn snr_grade_matches_the_floor_formula() {
    for snr in -32i16..=32 {
        for sf in 5u8..=12 {
            let margin = f32::from(snr) - (-2.5 * (f32::from(sf) - 4.0));
            let expected = if margin < 0.0 {
                Grade::Unreliable
            } else if margin < 3.0 {
                Grade::Marginal
            } else {
                Grade::Good
            };
            assert_eq!(snr_grade(snr, sf), expected, "{snr} at SF{sf}");
        }
    }
}

#[test]
fn forwarding_is_monotone_in_snr() {
    for sf in 5u8..=12 {
        for snr in -32i16..32 {
            if snr_grade(snr, sf).should_forward() {
                assert!(snr_grade(snr + 1, sf).should_forward());
            }
        }
    }
}

#[test]
fn gossip_frame_roundtrip() {
    let frame = GossipFrame::new(&key(), -85, 8, vec![1, 2, 3, 4, 5]);
    let encoded = frame.encode();
    let decoded = GossipFrame::decode(&encoded).expect("decode should succeed");
    assert_eq!(decoded.sender, key());
    assert_eq!(decoded.rssi, -85);
    assert_eq!(decoded.snr, 8);
    assert_eq!(decoded.payload, vec![1, 2, 3, 4, 5]);
}

#[test]
fn gossip_frame_bytes() {
    let frame = GossipFrame::new(&key(), -85, 8, vec![7, 9]);
    let mut expected = key().to_vec();
    expected.extend_from_slice(&(-85i16).to_le_bytes());
    expected.extend_from_slice(&8i16.to_le_bytes());
    expected.extend_from_slice(&2u16.to_le_bytes());
    expected.extend_from_slice(&[7, 9]);
    assert_eq!(frame.encode(), expected);
}

#[test]
fn gossip_frame_roundtrip_prop() {
    let round_trip = |rssi: i16, snr: i16, len: usize| {
        let payload: Vec<u8> = (0..len).map(|i| (i * 7 + len) as u8).collect();
        let frame = GossipFrame::new(&key(), rssi, snr, payload.clone());
        let decoded = GossipFrame::decode(&frame.encode()).unwrap();
        assert_eq!(decoded.rssi, rssi);
        assert_eq!(decoded.snr, snr);
        assert_eq!(decoded.payload, payload);
    };
    for rssi in -200i16..=200 {
        for snr in -32i16..=32 {
            round_trip(rssi, snr, usize::from((rssi * 65 + snr).unsigned_abs()) % 256);
        }
    }
    for len in 0..=256usize {
        for level in [i16::MIN, -200, -1, 0, 1, 200, i16::MAX] {
            round_trip(level, -level.max(-32_767), len);
        }
    }
}

#[test]
fn gossip_frame_longest_payload() {
    let frame = GossipFrame::new(&key(), 0, 0, vec![3; 65535]);
    assert_eq!(GossipFrame::decode(&frame.encode()).unwrap().payload.len(), 65535);
    let frame = GossipFrame::new(&key(), 0, 0, vec![3; 65536]);
    assert!(GossipFrame::decode(&frame.encode()).is_none());
}

#[test]
fn gossip_frame_accepted_bytes_are_canonical() {
    let mut data = vec![0u8; FRAME_HEADER_SIZE + 3];
    for (i, b) in data.iter_mut().enumerate() {
        *b = 255 - i as u8;
    }
    data[36] = 3;
    data[37] = 0;
    let frame = GossipFrame::decode(&data).unwrap();
    assert_eq!(frame.encode(), data);
}

#[test]
fn gossip_frame_reject_short() {
    assert!(GossipFrame::decode(&[0u8; 10]).is_none());
}

#[test]
fn gossip_frame_decode_empty_payload() {
    let mut data = vec![0u8; 38];
    data[36..38].copy_from_slice(&0u16.to_le_bytes()); // payload_len = 0
    let frame = GossipFrame::decode(&data);
    assert!(frame.is_some(), "38-byte frame with 0-length payload must decode");
    assert!(frame.unwrap().payload.is_empty());
}

#[test]
fn gossip_frame_reject_wrong_length() {
    // Header says payload_len=5 but only 3 bytes follow.
    let mut data = vec![0u8; 38 + 3];
    data[36..38].copy_from_slice(&5u16.to_le_bytes());
    assert!(GossipFrame::decode(&data).is_none());
}

#[test]
fn gossip_frame_reject_trailing_bytes() {
    let mut data = GossipFrame::new(&key(), 1, 2, vec![1, 2, 3]).encode();
    data.push(0);
    assert!(GossipFrame::decode(&data).is_none());
}

#[test]
fn gossip_frame_decode_never_panics() {
    for len in 0..200usize {
        for fill in [0u8, 1, 0x7F, 0x80, 0xFF] {
            let _ = GossipFrame::decode(&vec![fill; len]);
        }
    }
}

#[test]
fn should_forward_true_for_good_and_marginal() {
    assert!(Grade::Good.should_forward());
    assert!(Grade::Marginal.should_forward());
}

#[test]
fn should_forward_false_for_unreliable_and_invalid() {
    assert!(!Grade::Unreliable.should_forward());
    assert!(!Grade::Invalid.should_forward());
}

#[test]
fn grade_display() {
    assert_eq!(Grade::Good.label(), "GOOD");
    assert_eq!(Grade::Marginal.label(), "MARG");
    assert_eq!(Grade::Unreliable.label(), "UNRL");
    assert_eq!(Grade::Invalid.label(), "INVL");
}

#[test]
fn snr_grade_exact_boundaries() {
    // SF12: min_snr = -2.5 * (12 - 4) = -20.0
    assert_eq!(snr_grade(-20, 12), Grade::Marginal);
    assert_eq!(snr_grade(-21, 12), Grade::Unreliable);
    assert_eq!(snr_grade(-17, 12), Grade::Good);
    assert_eq!(snr_grade(-18, 12), Grade::Marginal);
}

#[test]
fn content_hash_deterministic() {
    let h1 = content_hash(b"hello");
    let h2 = content_hash(b"hello");
    assert_eq!(h1, h2);
    let h3 = content_hash(b"world");
    assert_ne!(h1, h3);
}

#[test]
fn content_hash_deterministic_prop() {
    for len in 0..1024usize {
        let data: Vec<u8> = (0..len).map(|i| (i * 31 + len) as u8).collect();
        assert_eq!(content_hash(&data), content_hash(&data.clone()));
    }
}

#[test]
fn content_hash_is_blake3() {
    let hex: String = content_hash(b"").iter().map(|b| format!("{b:02x}")).collect();
    assert_eq!(hex, "af1349b9f5f9a1a6a0404dea36dcc9499bcb25c9adc112b7cc9a93cae41f3262");
    assert_eq!(content_hash(b"hello"), *blake3::hash(b"hello").as_bytes());
}
