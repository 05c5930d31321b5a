//! Wire format definitions for radio packets and gossip frames.
//!
//! Includes SNR quality grading against `LoRa` demodulation floors and blake3
//! content hashing for deduplication.

use vstd::prelude::*;
use vstd::string::*;

verus! {

/// Gossip frame header size: `sender(32) + rssi(2) + snr(2) + payload_len(2) = 38`
pub const FRAME_HEADER_SIZE: usize = 38;

// ── Signal quality ──────────────────────────────────────────────────

/// SNR quality grade for a received `LoRa` packet.
#[derive(Debug, Clone, Copy, PartialEq, Eq, Structural)]
pub enum Grade {
    /// SNR well above demodulation floor (margin >= 3 dB).
    Good,
    /// SNR near demodulation floor (0 <= margin < 3 dB).
    Marginal,
    /// SNR below demodulation floor — likely corrupt.
    Unreliable,
    /// SNR outside valid range (-32..32) — firmware/decode error.
    Invalid,
}

impl Grade {
    /// The grades that are forwarded.
    pub open spec fn forwards(self) -> bool {
        self == Grade::Good || self == Grade::Marginal
    }

    /// Returns true if the packet is reliable enough to forward.
    pub fn should_forward(self) -> (r: bool)
        ensures
            r == self.forwards(),
    {
        match self {
            Grade::Good => true,
            Grade::Marginal => true,
            Grade::Unreliable => false,
            Grade::Invalid => false,
        }
    }

    /// The four-letter label of a grade.
    pub open spec fn text(self) -> Seq<char> {
        match self {
            Grade::Good => "GOOD"@,
            Grade::Marginal => "MARG"@,
            Grade::Unreliable => "UNRL"@,
            Grade::Invalid => "INVL"@,
        }
    }

    /// The four-letter label of a grade.
    pub fn label(self) -> (out: String)
        ensures
            out@ == self.text(),
    {
        match self {
            Grade::Good => "GOOD".to_owned(),
            Grade::Marginal => "MARG".to_owned(),
            Grade::Unreliable => "UNRL".to_owned(),
            Grade::Invalid => "INVL".to_owned(),
        }
    }
}

/// Law: the grades have labels of their own, and those of reliable packets,
/// and no others, are forwarded.
pub proof fn law_grade_labels(grade: Grade, label: String, forward: bool)
    requires
        call_ensures(Grade::label, (grade,), label),
        call_ensures(Grade::should_forward, (grade,), forward),
    ensures
        grade == Grade::Good <==> label@ == "GOOD"@,
        grade == Grade::Marginal <==> label@ == "MARG"@,
        grade == Grade::Unreliable <==> label@ == "UNRL"@,
        grade == Grade::Invalid <==> label@ == "INVL"@,
        forward <==> grade == Grade::Good || grade == Grade::Marginal,
{
    reveal_strlit("GOOD");
    reveal_strlit("MARG");
    reveal_strlit("UNRL");
    reveal_strlit("INVL");
    assert("GOOD"@[0] == 'G');
    assert("MARG"@[0] == 'M');
    assert("UNRL"@[0] == 'U');
    assert("INVL"@[0] == 'I');
}

/// Twice the distance, in dB, of an SNR from the demodulation floor of a
/// spreading factor. The floor is `-2.5 * (sf - 4)` dB, so twice the distance
/// is a whole number.
pub open spec fn twice_margin(snr: int, sf: int) -> int {
    2 * snr + 5 * (sf - 4)
}

/// The grade of an SNR under a spreading factor.
pub open spec fn grade_of(snr: int, sf: int) -> Grade {
    if snr < -32 || snr > 32 {
        Grade::Invalid
    } else if twice_margin(snr, sf) < 0 {
        Grade::Unreliable
    } else if twice_margin(snr, sf) < 6 {
        Grade::Marginal
    } else {
        Grade::Good
    }
}

/// Grade a received packet's SNR against the demodulation floor for the given
/// spreading factor.
pub fn snr_grade(snr: i16, sf: u8) -> (g: Grade)
    ensures
        g == grade_of(snr as int, sf as int),
{
    if snr < -32 || snr > 32 {
        return Grade::Invalid;
    }
    let margin: i32 = 2 * (snr as i32) + 5 * (sf as i32 - 4);
    if margin < 0 {
        Grade::Unreliable
    } else if margin < 6 {
        Grade::Marginal
    } else {
        Grade::Good
    }
}

/// Law: within the valid range, a packet that is forwarded is still forwarded
/// at a higher SNR, and at a higher spreading factor.
pub proof fn law_forwarding_is_monotone(snr: int, better_snr: int, sf: int, better_sf: int)
    requires
        snr <= better_snr <= 32,
        sf <= better_sf,
        grade_of(snr, sf).forwards(),
    ensures
        grade_of(better_snr, better_sf).forwards(),
{
}

/// Law: a grade says how far an SNR is above the demodulation floor, which is
/// 2.5 dB lower for every spreading factor above 4. In tenths of a dB: a good
/// packet is at least 30 above it, a marginal one less but not below it, and
/// only these two are forwarded; outside of -32 to 32 dB no SNR is valid.
pub proof fn law_grade_is_the_margin_over_the_floor(
    snr: i16,
    sf: u8,
    floor_tenths: int,
    grade: Grade,
    forwarded: bool,
)
    requires
        call_ensures(snr_grade, (snr, sf), grade),
        call_ensures(Grade::should_forward, (grade,), forwarded),
        floor_tenths == -25 * (sf - 4),
    ensures
        grade == Grade::Invalid <==> snr < -32 || snr > 32,
        grade == Grade::Good <==> -32 <= snr <= 32 && 10 * snr - floor_tenths >= 30,
        grade == Grade::Marginal <==> -32 <= snr <= 32 && 0 <= 10 * snr - floor_tenths < 30,
        grade == Grade::Unreliable <==> -32 <= snr <= 32 && 10 * snr < floor_tenths,
        forwarded <==> -32 <= snr <= 32 && 10 * snr >= floor_tenths,
{
}

/// Law: two spreading factors more make up for 5 dB less.
pub proof fn law_two_spreading_factors_are_five_db(snr: i16, sf: u8, near: Grade, far: Grade)
    requires
        -27 <= snr <= 32,
        sf <= 253,
        call_ensures(snr_grade, (snr, sf), near),
        call_ensures(snr_grade, ((snr - 5) as i16, (sf + 2) as u8), far),
    ensures
        near == far,
{
}

// ── Packets and frames ──────────────────────────────────────────────

/// A packet received from the radio, before wrapping in a gossip frame.
#[derive(Debug, Clone)]
pub struct RadioPacket {
    pub rssi: i16,
    pub snr: i16,
    pub payload: Vec<u8>,
}

/// What a [`RadioPacket`] holds.
#[verifier::ext_equal]
pub struct PacketView {
    pub rssi: i16,
    pub snr: i16,
    pub payload: Seq<u8>,
}

impl View for RadioPacket {
    type V = PacketView;

    open spec fn view(&self) -> PacketView {
        PacketView { rssi: self.rssi, snr: self.snr, payload: self.payload@ }
    }
}

/// A gossip frame — the wire format sent through the gossip swarm.
///
/// Wire format: `[sender: 32B] [rssi: i16 LE] [snr: i16 LE] [payload_len: u16 LE] [payload: NB]`
#[derive(Debug, Clone)]
pub struct GossipFrame {
    /// Public key bytes of the bridge that first heard this packet on radio.
    pub sender: [u8; 32],
    /// RSSI at the originating bridge (informational).
    pub rssi: i16,
    /// SNR at the originating bridge (informational).
    pub snr: i16,
    /// Raw `LoRa` payload.
    pub payload: Vec<u8>,
}

/// What a [`GossipFrame`] holds.
#[verifier::ext_equal]
pub struct FrameView {
    pub sender: Seq<u8>,
    pub rssi: i16,
    pub snr: i16,
    pub payload: Seq<u8>,
}

impl View for GossipFrame {
    type V = FrameView;

    open spec fn view(&self) -> FrameView {
        FrameView {
            sender: self.sender@,
            rssi: self.rssi,
            snr: self.snr,
            payload: self.payload@,
        }
    }
}

/// The 16-bit two's complement pattern of a number.
pub open spec fn pattern16(n: int) -> int {
    if n < 0 {
        n + 65536
    } else {
        n
    }
}

/// The number with a 16-bit two's complement pattern.
pub open spec fn from_pattern16(p: int) -> int {
    if p >= 32768 {
        p - 65536
    } else {
        p
    }
}

/// Two bytes, low byte first.
pub open spec fn le16(p: int) -> Seq<u8> {
    seq![(p % 256) as u8, (p / 256) as u8]
}

/// The 16-bit pattern stored low byte first at `at`.
pub open spec fn read16(data: Seq<u8>, at: int) -> int {
    data[at] as int + 256 * (data[at + 1] as int)
}

/// The bytes of a frame. The length field holds the payload length modulo 2^16.
pub open spec fn frame_bytes(f: FrameView) -> Seq<u8> {
    f.sender + le16(pattern16(f.rssi as int)) + le16(pattern16(f.snr as int)) + le16(
        (f.payload.len() % 65536) as int,
    ) + f.payload
}

/// The frame that `data` holds, if it is a well-formed frame: a whole header,
/// followed by exactly as many payload bytes as the header says.
pub open spec fn parse_frame(data: Seq<u8>) -> Option<FrameView> {
    if data.len() < FRAME_HEADER_SIZE {
        None
    } else if data.len() != FRAME_HEADER_SIZE + read16(data, 36) {
        None
    } else {
        Some(
            FrameView {
                sender: data.take(32),
                rssi: from_pattern16(read16(data, 32)) as i16,
                snr: from_pattern16(read16(data, 34)) as i16,
                payload: data.skip(FRAME_HEADER_SIZE as int),
            },
        )
    }
}

fn push16(buf: &mut Vec<u8>, p: u16)
    ensures
        final(buf)@ == old(buf)@ + le16(p as int),
{
    buf.push((p % 256) as u8);
    buf.push((p / 256) as u8);
    assert(buf@ =~= old(buf)@ + le16(p as int));
}

fn to_pattern(n: i16) -> (p: u16)
    ensures
        p == pattern16(n as int),
{
    if n < 0 {
        (n as i32 + 65536) as u16
    } else {
        n as u16
    }
}

fn get16(data: &[u8], at: usize) -> (p: u16)
    requires
        at + 1 < data@.len(),
    ensures
        p == read16(data@, at as int),
{
    data[at] as u16 + 256 * (data[at + 1] as u16)
}

fn from_pattern(p: u16) -> (n: i16)
    ensures
        n == from_pattern16(p as int),
{
    if p >= 32768 {
        (p as i32 - 65536) as i16
    } else {
        p as i16
    }
}

/// Copy a slice into a fresh vector.
pub fn to_vec(data: &[u8]) -> (out: Vec<u8>)
    ensures
        out@ == data@,
{
    let mut out: Vec<u8> = Vec::new();
    out.extend_from_slice(data);
    assert(out@ =~= data@);
    out
}

impl GossipFrame {
    /// Create a new gossip frame from a public key's bytes and radio packet data.
    pub fn new(sender: &[u8; 32], rssi: i16, snr: i16, payload: Vec<u8>) -> (f: GossipFrame)
        ensures
            f@ == (FrameView { sender: sender@, rssi, snr, payload: payload@ }),
    {
        GossipFrame { sender: *sender, rssi, snr, payload }
    }

    /// Encode this frame into bytes for gossip broadcast.
    pub fn encode(&self) -> (out: Vec<u8>)
        ensures
            out@ == frame_bytes(self@),
    {
        let mut buf: Vec<u8> = Vec::new();
        buf.extend_from_slice(self.sender.as_slice());
        assert(buf@ =~= self.sender@);
        push16(&mut buf, to_pattern(self.rssi));
        push16(&mut buf, to_pattern(self.snr));
        push16(&mut buf, (self.payload.len() % 65536) as u16);
        let ghost header = buf@;
        buf.extend_from_slice(self.payload.as_slice());
        assert(buf@ =~= header + self.payload@);
        buf
    }

    /// Decode a gossip frame from bytes received from the swarm.
    pub fn decode(data: &[u8]) -> (r: Option<GossipFrame>)
        ensures
            match r {
                Some(f) => parse_frame(data@) == Some(f@),
                None => parse_frame(data@) is None,
            },
    {
        if data.len() < FRAME_HEADER_SIZE {
            return None;
        }
        let payload_len: usize = get16(data, 36) as usize;
        if data.len() != FRAME_HEADER_SIZE + payload_len {
            return None;
        }
        let mut sender: [u8; 32] = [0u8; 32];
        let mut i: usize = 0;
        while i < 32
            invariant
                i <= 32,
                data@.len() >= FRAME_HEADER_SIZE,
                forall|j: int| 0 <= j < i ==> sender@[j] == data@[j],
            decreases 32 - i,
        {
            sender[i] = data[i];
            i = i + 1;
        }
        let rssi: i16 = from_pattern(get16(data, 32));
        let snr: i16 = from_pattern(get16(data, 34));
        let payload: Vec<u8> = to_vec(&data[FRAME_HEADER_SIZE..data.len()]);
        let frame: GossipFrame = GossipFrame { sender, rssi, snr, payload };
        proof {
            assert(frame.sender@ =~= data@.take(32));
            assert(frame.payload@ =~= data@.skip(FRAME_HEADER_SIZE as int));
        }
        Some(frame)
    }
}

/// Law: a frame whose payload fits the 16-bit length field is read back as it
/// was written.
pub proof fn law_frame_round_trip(f: FrameView)
    requires
        f.sender.len() == 32,
        f.payload.len() <= 65535,
    ensures
        parse_frame(frame_bytes(f)) == Some(f),
{
    let data = frame_bytes(f);
    assert(data.take(32) =~= f.sender);
    assert(data.skip(38) =~= f.payload);
    assert(data[32] == le16(pattern16(f.rssi as int))[0]);
    assert(data[33] == le16(pattern16(f.rssi as int))[1]);
    assert(data[34] == le16(pattern16(f.snr as int))[0]);
    assert(data[35] == le16(pattern16(f.snr as int))[1]);
    assert(data[36] == le16(f.payload.len() as int)[0]);
    assert(data[37] == le16(f.payload.len() as int)[1]);
}

/// Law: a frame whose payload does not fit the length field is refused by
/// every reader, never misread.
pub proof fn law_oversized_frame_is_refused(f: FrameView)
    requires
        f.sender.len() == 32,
        f.payload.len() > 65535,
    ensures
        parse_frame(frame_bytes(f)) is None,
{
    let data = frame_bytes(f);
    let n = (f.payload.len() % 65536) as int;
    assert(data[36] == le16(n)[0]);
    assert(data[37] == le16(n)[1]);
}

/// Law: bytes that are accepted as a frame are exactly the bytes that the
/// frame is written as, so no two byte strings are read as the same frame.
pub proof fn law_parsed_frame_encodes_back(data: Seq<u8>)
    requires
        parse_frame(data) is Some,
    ensures
        frame_bytes(parse_frame(data)->0) == data,
{
    let f = parse_frame(data)->0;
    assert(frame_bytes(f) =~= data);
}

/// Law: the bytes of a frame are the sender's 32, then three 16-bit fields
/// with the low byte first, which are the RSSI and the SNR in two's
/// complement and the length of the payload, and then the payload.
pub proof fn law_wire_format(frame: GossipFrame, out: Vec<u8>)
    requires
        call_ensures(GossipFrame::encode, (&frame,), out),
    ensures
        out@.len() == 38 + frame.payload@.len(),
        forall|i: int| 0 <= i < 32 ==> out@[i] == #[trigger] frame.sender@[i],
        (out@[32] + 256 * out@[33] - frame.rssi) % 65536 == 0,
        (out@[34] + 256 * out@[35] - frame.snr) % 65536 == 0,
        out@[36] + 256 * out@[37] == frame.payload@.len() % 65536,
        forall|i: int|
            0 <= i < frame.payload@.len() ==> out@[38 + i] == #[trigger] frame.payload@[i],
{
    let f = frame@;
    let data = frame_bytes(f);
    assert(out@ == data);
    assert(data[32] == le16(pattern16(f.rssi as int))[0]);
    assert(data[33] == le16(pattern16(f.rssi as int))[1]);
    assert(data[34] == le16(pattern16(f.snr as int))[0]);
    assert(data[35] == le16(pattern16(f.snr as int))[1]);
    assert(data[36] == le16((f.payload.len() % 65536) as int)[0]);
    assert(data[37] == le16((f.payload.len() % 65536) as int)[1]);
    assert forall|i: int| 0 <= i < 32 implies out@[i] == #[trigger] frame.sender@[i] by {
        assert(data[i] == f.sender[i]);
    }
    assert forall|i: int| 0 <= i < frame.payload@.len() implies out@[38 + i]
        == #[trigger] frame.payload@[i] by {
        assert(data[38 + i] == f.payload[i]);
    }
}

/// Law: bytes are a frame if and only if they hold a header of 38 bytes and
/// then as many as its length field says, and its fields are read from where
/// they stand in the header.
pub proof fn law_frames_are_read_as_they_stand(bytes: &[u8], read: Option<GossipFrame>)
    requires
        call_ensures(GossipFrame::decode, (bytes,), read),
    ensures
        read is Some <==> bytes@.len() >= 38 && bytes@.len() == 38 + bytes@[36] + 256 * bytes@[37],
        read matches Some(f) ==> {
            &&& f.sender@ == bytes@.take(32)
            &&& (bytes@[32] + 256 * bytes@[33] - f.rssi) % 65536 == 0
            &&& (bytes@[34] + 256 * bytes@[35] - f.snr) % 65536 == 0
            &&& f.payload@ == bytes@.skip(38)
        },
{
}

// ── Content hash ────────────────────────────────────────────────────

/// The 32-byte blake3 digest of a byte string.
pub uninterp spec fn blake3_digest(data: Seq<u8>) -> Seq<u8>;

/// `blake3::hash`: the digest of the bytes, named by [`blake3_digest`].
#[verifier::external_body]
fn blake3_hash(data: &[u8]) -> (out: [u8; 32])
    ensures
        out@ == blake3_digest(data@),
{
    *blake3::hash(data).as_bytes()
}

/// Compute a 32-byte blake3 content hash for deduplication.
pub fn content_hash(payload: &[u8]) -> (out: [u8; 32])
    ensures
        out@ == blake3_digest(payload@),
{
    blake3_hash(payload)
}

} // verus!
