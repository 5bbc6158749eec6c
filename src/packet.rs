use vstd::prelude::*;
use vstd::string::StringSliceAdditionalSpecFns;

use crate::codec::{is_supported_profile, samples_per_frame, timestamp_step, CodecProfile};
use crate::frames::padded;

verus! {

/// Opcode that marks a packet carrying audio.
pub const OP_TRANSMIT: u8 = 0x10;
/// Width of the caller-ID field, in bytes.
pub const CALLER_ID_LEN: usize = 13;
/// Bytes in front of the audio payload.
pub const HEADER_LEN: usize = 28;
/// Flags byte value of the start-of-talk packet.
pub const FLAG_START_OF_TALK: u8 = 1;

/// Big-endian bytes of a 16-bit value.
pub open spec fn be16(x: u16) -> Seq<u8> {
    seq![(x >> 8u16) as u8, (x & 0xffu16) as u8]
}

/// Big-endian bytes of a 32-bit value.
pub open spec fn be32(x: u32) -> Seq<u8> {
    seq![
        (x >> 24u32) as u8,
        ((x >> 16u32) & 0xffu32) as u8,
        ((x >> 8u32) & 0xffu32) as u8,
        (x & 0xffu32) as u8,
    ]
}

/// The 16-bit value whose big-endian bytes stand at `b[at..at + 2]`.
pub open spec fn read_be16(b: Seq<u8>, at: int) -> u16 {
    ((b[at] as u16) << 8u16) | (b[at + 1] as u16)
}

/// The 32-bit value whose big-endian bytes stand at `b[at..at + 4]`.
pub open spec fn read_be32(b: Seq<u8>, at: int) -> u32 {
    ((b[at] as u32) << 24u32) | ((b[at + 1] as u32) << 16u32) | ((b[at + 2] as u32) << 8u32) | (
    b[at + 3] as u32)
}

/// The fixed-width caller-ID field: the label's bytes, truncated or
/// zero-padded to the field's width.
pub open spec fn caller_id_field(text: Seq<u8>) -> Seq<u8> {
    padded(text, CALLER_ID_LEN as nat)
}

/// `text` is what a caller-ID field reads as: the bytes before its first zero.
pub open spec fn is_text_of(field: Seq<u8>, text: Seq<u8>) -> bool {
    &&& text.len() <= field.len()
    &&& text == field.take(text.len() as int)
    &&& forall|j: int| 0 <= j < text.len() ==> text[j] != 0
    &&& text.len() == field.len() || field[text.len() as int] == 0
}

/// The logical content of one packet.
pub struct PacketView {
    pub channel: u8,
    pub session_id: u32,
    pub caller_id: Seq<u8>,
    pub payload_type: u8,
    pub marker: bool,
    pub sequence: u16,
    pub timestamp: u32,
    pub payload: Seq<u8>,
}

/// The on-wire layout of a packet.
pub open spec fn encode(p: PacketView) -> Seq<u8> {
    seq![OP_TRANSMIT, p.channel] + be32(p.session_id) + seq![CALLER_ID_LEN as u8] + p.caller_id
        + seq![p.payload_type, if p.marker { FLAG_START_OF_TALK } else { 0u8 }] + be16(p.sequence)
        + be32(p.timestamp) + p.payload
}

/// Reads a datagram back into a packet; `None` when it is not a well-formed
/// audio packet.
pub open spec fn decode(b: Seq<u8>) -> Option<PacketView> {
    if b.len() >= HEADER_LEN && b[0] == OP_TRANSMIT && b[6] == CALLER_ID_LEN as u8 && (b[21] == 0
        || b[21] == FLAG_START_OF_TALK) {
        Some(
            PacketView {
                channel: b[1],
                session_id: read_be32(b, 2),
                caller_id: b.subrange(7, 20),
                payload_type: b[20],
                marker: b[21] == FLAG_START_OF_TALK,
                sequence: read_be16(b, 22),
                timestamp: read_be32(b, 24),
                payload: b.subrange(HEADER_LEN as int, b.len() as int),
            },
        )
    } else {
        None
    }
}

/// One built packet: header, paging metadata and one frame of audio.
pub struct Packet {
    pub channel: u8,
    pub session_id: u32,
    pub caller_id: Vec<u8>,
    pub payload_type: u8,
    pub marker: bool,
    pub sequence: u16,
    pub timestamp: u32,
    pub payload: Vec<u8>,
}

impl View for Packet {
    type V = PacketView;

    open spec fn view(&self) -> PacketView {
        PacketView {
            channel: self.channel,
            session_id: self.session_id,
            caller_id: self.caller_id@,
            payload_type: self.payload_type,
            marker: self.marker,
            sequence: self.sequence,
            timestamp: self.timestamp,
            payload: self.payload@,
        }
    }
}

proof fn lemma_be32_round_trip(x: u32)
    ensures
        read_be32(be32(x), 0) == x,
{
    let b0 = (x >> 24u32) as u8;
    let b1 = ((x >> 16u32) & 0xffu32) as u8;
    let b2 = ((x >> 8u32) & 0xffu32) as u8;
    let b3 = (x & 0xffu32) as u8;
    assert(((b0 as u32) << 24u32) | ((b1 as u32) << 16u32) | ((b2 as u32) << 8u32) | (b3 as u32)
        == x) by (bit_vector)
        requires
            b0 == (x >> 24u32) as u8,
            b1 == ((x >> 16u32) & 0xffu32) as u8,
            b2 == ((x >> 8u32) & 0xffu32) as u8,
            b3 == (x & 0xffu32) as u8,
    ;
}

proof fn lemma_be16_round_trip(x: u16)
    ensures
        read_be16(be16(x), 0) == x,
{
    let b0 = (x >> 8u16) as u8;
    let b1 = (x & 0xffu16) as u8;
    assert(((b0 as u16) << 8u16) | (b1 as u16) == x) by (bit_vector)
        requires
            b0 == (x >> 8u16) as u8,
            b1 == (x & 0xffu16) as u8,
    ;
}

/// Decoding the wire bytes of a packet whose caller-ID field has its fixed
/// width gives back every field unchanged: channel, session, caller ID,
/// payload type, marker, sequence, timestamp and payload.
pub proof fn lemma_decode_encode(p: PacketView)
    requires
        p.caller_id.len() == CALLER_ID_LEN,
    ensures
        decode(encode(p)) == Some(p),
{
    let b = encode(p);
    lemma_be32_round_trip(p.session_id);
    lemma_be32_round_trip(p.timestamp);
    lemma_be16_round_trip(p.sequence);
    assert(b.subrange(2, 6) =~= be32(p.session_id));
    assert(b.subrange(22, 24) =~= be16(p.sequence));
    assert(b.subrange(24, 28) =~= be32(p.timestamp));
    assert(read_be32(b, 2) == read_be32(b.subrange(2, 6), 0));
    assert(read_be16(b, 22) == read_be16(b.subrange(22, 24), 0));
    assert(read_be32(b, 24) == read_be32(b.subrange(24, 28), 0));
    assert(b.subrange(7, 20) =~= p.caller_id);
    assert(b.subrange(HEADER_LEN as int, b.len() as int) =~= p.payload);
    let q = decode(b).unwrap();
    assert(q == p);
}

/// A caller-ID label of at most the field's width and without zero bytes
/// reads back from its field unchanged.
pub proof fn lemma_caller_id_text(text: Seq<u8>)
    requires
        text.len() <= CALLER_ID_LEN,
        forall|j: int| 0 <= j < text.len() ==> text[j] != 0,
    ensures
        is_text_of(caller_id_field(text), text),
{
    let f = caller_id_field(text);
    assert(text =~= f.take(text.len() as int));
}

fn push_be16(out: &mut Vec<u8>, x: u16)
    ensures
        final(out)@ == old(out)@ + be16(x),
{
    out.push((x >> 8u16) as u8);
    out.push((x & 0xffu16) as u8);
    assert(final(out)@ =~= old(out)@ + be16(x));
}

fn push_be32(out: &mut Vec<u8>, x: u32)
    ensures
        final(out)@ == old(out)@ + be32(x),
{
    out.push((x >> 24u32) as u8);
    out.push(((x >> 16u32) & 0xffu32) as u8);
    out.push(((x >> 8u32) & 0xffu32) as u8);
    out.push((x & 0xffu32) as u8);
    assert(final(out)@ =~= old(out)@ + be32(x));
}

fn push_all(out: &mut Vec<u8>, src: &Vec<u8>)
    ensures
        final(out)@ == old(out)@ + src@,
{
    let mut i: usize = 0;
    while i < src.len()
        invariant
            i <= src@.len(),
            out@ == old(out)@ + src@.take(i as int),
        decreases src@.len() - i,
    {
        out.push(src[i]);
        i = i + 1;
        assert(out@ =~= old(out)@ + src@.take(i as int));
    }
    assert(src@.take(src@.len() as int) =~= src@);
}

fn copy_range(b: &[u8], lo: usize, hi: usize) -> (r: Vec<u8>)
    requires
        lo <= hi <= b@.len(),
    ensures
        r@ == b@.subrange(lo as int, hi as int),
{
    let mut r: Vec<u8> = Vec::with_capacity(hi - lo);
    let mut i: usize = lo;
    while i < hi
        invariant
            lo <= i <= hi <= b@.len(),
            r@ == b@.subrange(lo as int, i as int),
        decreases hi - i,
    {
        r.push(b[i]);
        i = i + 1;
        assert(r@ =~= b@.subrange(lo as int, i as int));
    }
    r
}

/// Encodes a caller-ID label into its fixed-width field.
pub fn encode_caller_id(text: &str) -> (r: Vec<u8>)
    ensures
        r@ == caller_id_field(text.spec_bytes()),
{
    let bytes = text.as_bytes();
    let mut r: Vec<u8> = Vec::with_capacity(CALLER_ID_LEN);
    let mut j: usize = 0;
    while j < CALLER_ID_LEN
        invariant
            j <= CALLER_ID_LEN,
            bytes@ == text.spec_bytes(),
            r@.len() == j,
            forall|k: int| 0 <= k < j ==> r@[k] == caller_id_field(bytes@)[k],
        decreases CALLER_ID_LEN - j,
    {
        if j < bytes.len() {
            r.push(bytes[j]);
        } else {
            r.push(0u8);
        }
        j = j + 1;
    }
    assert(r@ =~= caller_id_field(bytes@));
    r
}

/// Reads a caller-ID field back as text: its bytes before the first zero.
pub fn caller_id_text(field: &[u8]) -> (r: Vec<u8>)
    ensures
        is_text_of(field@, r@),
{
    let mut r: Vec<u8> = Vec::new();
    let mut i: usize = 0;
    while i < field.len() && field[i] != 0
        invariant
            i <= field@.len(),
            r@ == field@.take(i as int),
            forall|j: int| 0 <= j < i ==> field@[j] != 0,
        decreases field@.len() - i,
    {
        r.push(field[i]);
        i = i + 1;
        assert(r@ =~= field@.take(i as int));
    }
    r
}

impl Packet {
    /// The caller-ID field has its fixed width.
    pub open spec fn wf(&self) -> bool {
        self.caller_id@.len() == CALLER_ID_LEN
    }

    /// Serializes the packet to its on-wire bytes.
    pub fn to_bytes(&self) -> (r: Vec<u8>)
        ensures
            r@ == encode(self@),
    {
        let mut out: Vec<u8> = Vec::new();
        out.push(OP_TRANSMIT);
        out.push(self.channel);
        push_be32(&mut out, self.session_id);
        out.push(CALLER_ID_LEN as u8);
        push_all(&mut out, &self.caller_id);
        out.push(self.payload_type);
        out.push(if self.marker { FLAG_START_OF_TALK } else { 0u8 });
        push_be16(&mut out, self.sequence);
        push_be32(&mut out, self.timestamp);
        push_all(&mut out, &self.payload);
        assert(out@ =~= encode(self@));
        out
    }

    /// Parses on-wire bytes; `None` when they are not a well-formed audio
    /// packet.
    pub fn parse(b: &[u8]) -> (r: Option<Packet>)
        ensures
            match r {
                Some(p) => decode(b@) == Some(p@),
                None => decode(b@) is None,
            },
    {
        if b.len() < HEADER_LEN || b[0] != OP_TRANSMIT || b[6] != CALLER_ID_LEN as u8 || (b[21]
            != 0 && b[21] != FLAG_START_OF_TALK) {
            return None;
        }
        let session_id = ((b[2] as u32) << 24u32) | ((b[3] as u32) << 16u32) | ((b[4] as u32)
            << 8u32) | (b[5] as u32);
        let sequence = ((b[22] as u16) << 8u16) | (b[23] as u16);
        let timestamp = ((b[24] as u32) << 24u32) | ((b[25] as u32) << 16u32) | ((b[26] as u32)
            << 8u32) | (b[27] as u32);
        let p = Packet {
            channel: b[1],
            session_id,
            caller_id: copy_range(b, 7, 20),
            payload_type: b[20],
            marker: b[21] == FLAG_START_OF_TALK,
            sequence,
            timestamp,
            payload: copy_range(b, HEADER_LEN, b.len()),
        };
        assert(p@ == decode(b@).unwrap());
        Some(p)
    }
}

/// Sequence number `n` packets after `first`, wrapping at 16 bits.
pub open spec fn sequence_after(first: u16, n: nat) -> u16 {
    ((first as nat + n) % 0x10000) as u16
}

/// Timestamp `n` frames of `step` ticks after `first`, wrapping at 32 bits.
pub open spec fn timestamp_after(first: u32, step: nat, n: nat) -> u32 {
    ((first as nat + n * step) % 0x1_0000_0000) as u32
}

/// One more packet advances the sequence by one and the timestamp by one
/// frame, modulo their widths, from any start and across the wrap.
pub proof fn lemma_counters_advance(first_seq: u16, first_ts: u32, step: nat, n: nat)
    ensures
        sequence_after(first_seq, n + 1) == ((sequence_after(first_seq, n) as nat + 1) % 0x10000) as u16,
        timestamp_after(first_ts, step, n + 1) == ((timestamp_after(first_ts, step, n) as nat
            + step) % 0x1_0000_0000) as u32,
        sequence_after(first_seq, 0) == first_seq,
        timestamp_after(first_ts, step, 0) == first_ts,
{
    let a = first_seq as nat + n;
    vstd::arithmetic::div_mod::lemma_add_mod_noop(a as int, 1, 0x10000);
    vstd::arithmetic::div_mod::lemma_mod_twice(1, 0x10000);
    vstd::arithmetic::div_mod::lemma_small_mod(1, 0x10000);
    let t = first_ts as nat + n * step;
    assert(first_ts as nat + (n + 1) * step == t + step) by (nonlinear_arith)
        requires
            t == first_ts as nat + n * step,
    ;
    vstd::arithmetic::div_mod::lemma_add_mod_noop(t as int, step as int, 0x1_0000_0000);
    vstd::arithmetic::div_mod::lemma_mod_twice(step as int, 0x1_0000_0000);
    vstd::arithmetic::div_mod::lemma_add_mod_noop(
        (t % 0x1_0000_0000) as int,
        step as int,
        0x1_0000_0000,
    );
    vstd::arithmetic::div_mod::lemma_mod_twice(t as int, 0x1_0000_0000);
    vstd::arithmetic::div_mod::lemma_add_mod_noop(
        (a % 0x10000) as int,
        1,
        0x10000,
    );
    vstd::arithmetic::div_mod::lemma_mod_twice(a as int, 0x10000);
}

/// One paging broadcast: fixed identity, codec, and the two counters that
/// only [`Session::build`] advances.
pub struct Session {
    session_id: u32,
    channel_number: u8,
    caller_id: Vec<u8>,
    profile: CodecProfile,
    step: u32,
    sequence: u16,
    timestamp: u32,
    started: bool,
}

/// What a session holds.
pub struct SessionView {
    pub session_id: u32,
    pub channel_number: u8,
    pub caller_id: Seq<u8>,
    pub profile: CodecProfile,
    pub sequence: u16,
    pub timestamp: u32,
    pub started: bool,
}

impl View for Session {
    type V = SessionView;

    closed spec fn view(&self) -> SessionView {
        SessionView {
            session_id: self.session_id,
            channel_number: self.channel_number,
            caller_id: self.caller_id@,
            profile: self.profile,
            sequence: self.sequence,
            timestamp: self.timestamp,
            started: self.started,
        }
    }
}

impl Session {
    /// The session's codec is supported and its caller-ID field has its
    /// fixed width.
    pub closed spec fn wf(&self) -> bool {
        &&& is_supported_profile(self.profile)
        &&& self.step as nat == samples_per_frame(self.profile)
        &&& self.caller_id@.len() == CALLER_ID_LEN
    }

    /// A well-formed session has a supported codec and a full-width caller-ID
    /// field.
    pub proof fn lemma_wf(&self)
        requires
            self.wf(),
        ensures
            is_supported_profile(self@.profile),
            self@.caller_id.len() == CALLER_ID_LEN,
    {
    }

    /// Opens a session on `channel_number` (1-25 push-to-talk, 26-50 paging)
    /// with counters starting at `first_sequence` and `first_timestamp`.
    pub fn new(
        session_id: u32,
        channel_number: u8,
        caller_id: &str,
        profile: CodecProfile,
        first_sequence: u16,
        first_timestamp: u32,
    ) -> (r: Session)
        requires
            1 <= channel_number <= 50,
            is_supported_profile(profile),
        ensures
            r.wf(),
            r@ == (SessionView {
                session_id,
                channel_number,
                caller_id: caller_id_field(caller_id.spec_bytes()),
                profile,
                sequence: first_sequence,
                timestamp: first_timestamp,
                started: false,
            }),
    {
        let step = timestamp_step(&profile);
        Session {
            session_id,
            channel_number,
            caller_id: encode_caller_id(caller_id),
            profile,
            step,
            sequence: first_sequence,
            timestamp: first_timestamp,
            started: false,
        }
    }

    /// The session's codec profile.
    pub fn profile(&self) -> (r: CodecProfile)
        requires
            self.wf(),
        ensures
            r == self@.profile,
            is_supported_profile(r),
    {
        self.profile
    }

    /// The packet that `frame` becomes in this session, given the counters and
    /// marker it is built with.
    pub open spec fn packet_of(s: SessionView, frame: Seq<u8>, sequence: u16, timestamp: u32, marker: bool) -> PacketView {
        PacketView {
            channel: s.channel_number,
            session_id: s.session_id,
            caller_id: s.caller_id,
            payload_type: s.profile.payload_type_id,
            marker,
            sequence,
            timestamp,
            payload: frame,
        }
    }

    /// Builds the packet of the next frame and advances both counters
    /// together. Only the session's first packet carries the start-of-talk
    /// marker.
    pub fn build(&mut self, frame: &Vec<u8>) -> (r: Packet)
        requires
            old(self).wf(),
        ensures
            final(self).wf(),
            r.wf(),
            r@ == Self::packet_of(old(self)@, frame@, old(self)@.sequence, old(self)@.timestamp, !old(self)@.started),
            final(self)@ == (SessionView {
                sequence: sequence_after(old(self)@.sequence, 1),
                timestamp: timestamp_after(
                    old(self)@.timestamp,
                    samples_per_frame(old(self)@.profile),
                    1,
                ),
                started: true,
                ..old(self)@
            }),
    {
        let p = Packet {
            channel: self.channel_number,
            session_id: self.session_id,
            caller_id: self.caller_id.clone(),
            payload_type: self.profile.payload_type_id,
            marker: !self.started,
            sequence: self.sequence,
            timestamp: self.timestamp,
            payload: frame.clone(),
        };
        self.sequence = self.sequence.wrapping_add(1);
        self.timestamp = self.timestamp.wrapping_add(self.step);
        self.started = true;
        p
    }

    /// Builds one packet per frame, in order.
    pub fn build_all(&mut self, frames: &Vec<Vec<u8>>) -> (r: Vec<Packet>)
        requires
            old(self).wf(),
        ensures
            final(self).wf(),
            r@.len() == frames@.len(),
            forall|i: int|
                0 <= i < r@.len() ==> (#[trigger] r@[i]).wf() && r@[i]@ == Self::packet_of(
                    old(self)@,
                    frames@[i]@,
                    sequence_after(old(self)@.sequence, i as nat),
                    timestamp_after(
                        old(self)@.timestamp,
                        samples_per_frame(old(self)@.profile),
                        i as nat,
                    ),
                    i == 0 && !old(self)@.started,
                ),
            final(self)@ == (SessionView {
                sequence: sequence_after(old(self)@.sequence, frames@.len()),
                timestamp: timestamp_after(
                    old(self)@.timestamp,
                    samples_per_frame(old(self)@.profile),
                    frames@.len(),
                ),
                started: old(self)@.started || frames@.len() > 0,
                ..old(self)@
            }),
    {
        let ghost s0 = self@;
        let ghost step = samples_per_frame(s0.profile);
        let mut r: Vec<Packet> = Vec::new();
        let mut i: usize = 0;
        proof {
            lemma_counters_advance(s0.sequence, s0.timestamp, step, 0);
        }
        while i < frames.len()
            invariant
                self.wf(),
                i <= frames@.len(),
                r@.len() == i,
                self@ == (SessionView {
                    sequence: sequence_after(s0.sequence, i as nat),
                    timestamp: timestamp_after(s0.timestamp, step, i as nat),
                    started: s0.started || i > 0,
                    ..s0
                }),
                step == samples_per_frame(s0.profile),
                forall|k: int|
                    0 <= k < i ==> (#[trigger] r@[k]).wf() && r@[k]@ == Self::packet_of(
                        s0,
                        frames@[k]@,
                        sequence_after(s0.sequence, k as nat),
                        timestamp_after(s0.timestamp, step, k as nat),
                        k == 0 && !s0.started,
                    ),
            decreases frames@.len() - i,
        {
            proof {
                lemma_counters_advance(s0.sequence, s0.timestamp, step, i as nat);
                lemma_counters_advance(self@.sequence, self@.timestamp, step, 0);
            }
            let p = self.build(&frames[i]);
            r.push(p);
            i = i + 1;
        }
        r
    }
}

} // verus!
