//! The RTP continuity engine: reads and rewrites the fixed RTP header, and
//! renumbers relayed packets so that a subscriber sees one continuous
//! stream across publisher switches.

use vstd::arithmetic::div_mod::lemma_fundamental_div_mod_converse;
use vstd::prelude::*;

verus! {

/// Length of the fixed RTP header.
pub const RTP_HEADER_SIZE: usize = 12;

/// One relayed RTP packet: the header followed by the payload.
pub struct RtpPacket {
    pub video: bool,
    pub buffer: Vec<u8>,
}

/// Why a packet header could not be read or written.
#[derive(PartialEq, Eq, Structural, Clone, Copy, Debug)]
pub enum RtpError {
    /// The buffer is shorter than the fixed RTP header.
    HeaderTooShort,
}

/// The big-endian 16-bit number at `at`.
pub open spec fn be16(b: Seq<u8>, at: int) -> int {
    b[at] * 256 + b[at + 1]
}

/// The big-endian 32-bit number at `at`.
pub open spec fn be32(b: Seq<u8>, at: int) -> int {
    b[at] * 16777216 + b[at + 1] * 65536 + b[at + 2] * 256 + b[at + 3]
}

/// The sequence number field of an RTP header.
pub open spec fn seq_field(b: Seq<u8>) -> u16 {
    be16(b, 2) as u16
}

/// The timestamp field of an RTP header.
pub open spec fn ts_field(b: Seq<u8>) -> u32 {
    be32(b, 4) as u32
}

/// The synchronization source field of an RTP header.
pub open spec fn ssrc_field(b: Seq<u8>) -> u32 {
    be32(b, 8) as u32
}

fn read_u16(b: &Vec<u8>, at: usize) -> (r: u16)
    requires
        at + 2 <= b.len(),
    ensures
        r == be16(b@, at as int),
{
    (b[at] as u16) * 256 + b[at + 1] as u16
}

fn read_u32(b: &Vec<u8>, at: usize) -> (r: u32)
    requires
        at + 4 <= b.len(),
    ensures
        r == be32(b@, at as int),
{
    (b[at] as u32) * 16777216 + (b[at + 1] as u32) * 65536 + (b[at + 2] as u32) * 256 + b[at
        + 3] as u32
}

fn write_u16(b: &mut Vec<u8>, at: usize, v: u16)
    requires
        at + 2 <= old(b).len(),
    ensures
        final(b).len() == old(b).len(),
        be16(final(b)@, at as int) == v,
        forall|i: int| 0 <= i < old(b).len() && (i < at || i >= at + 2) ==> final(b)@[i] == old(b)@[i],
{
    b.set(at, (v / 256) as u8);
    b.set(at + 1, (v % 256) as u8);
}

fn write_u32(b: &mut Vec<u8>, at: usize, v: u32)
    requires
        at + 4 <= old(b).len(),
    ensures
        final(b).len() == old(b).len(),
        be32(final(b)@, at as int) == v,
        forall|i: int| 0 <= i < old(b).len() && (i < at || i >= at + 4) ==> final(b)@[i] == old(b)@[i],
{
    b.set(at, (v / 16777216) as u8);
    b.set(at + 1, ((v / 65536) % 256) as u8);
    b.set(at + 2, ((v / 256) % 256) as u8);
    b.set(at + 3, (v % 256) as u8);
}

/// Sets the synchronization source of the packet to `ssrc`; everything else
/// is kept. Fails, changing nothing, on a buffer shorter than a header.
pub fn rewrite_ssrc(packet: &mut RtpPacket, ssrc: u32) -> (r: Result<(), RtpError>)
    ensures
        old(packet).buffer.len() < RTP_HEADER_SIZE ==> r == Err::<(), RtpError>(
            RtpError::HeaderTooShort,
        ) && *final(packet) == *old(packet),
        old(packet).buffer.len() >= RTP_HEADER_SIZE ==> r is Ok && final(packet).video == old(
            packet,
        ).video && final(packet).buffer@ == old(packet).buffer@.subrange(0, 8) + be32_bytes(ssrc)
            + old(packet).buffer@.subrange(12, old(packet).buffer.len() as int),
{
    if packet.buffer.len() < RTP_HEADER_SIZE {
        return Err(RtpError::HeaderTooShort);
    }
    let ghost before = packet.buffer@;
    write_u32(&mut packet.buffer, 8, ssrc);
    proof {
        lemma_be32_bytes(packet.buffer@, 8, ssrc);
        assert(packet.buffer@ =~= before.subrange(0, 8) + be32_bytes(ssrc) + before.subrange(
            12,
            before.len() as int,
        ));
    }
    Ok(())
}

/// The four big-endian bytes of `v`.
pub open spec fn be32_bytes(v: u32) -> Seq<u8> {
    seq![
        (v / 16777216) as u8,
        ((v / 65536) % 256) as u8,
        ((v / 256) % 256) as u8,
        (v % 256) as u8,
    ]
}

/// The two big-endian bytes of `v`.
pub open spec fn be16_bytes(v: u16) -> Seq<u8> {
    seq![(v / 256) as u8, (v % 256) as u8]
}

/// Two bytes that read as `v` are the big-endian bytes of `v`.
proof fn lemma_be16_bytes(b: Seq<u8>, at: int, v: u16)
    requires
        0 <= at,
        at + 2 <= b.len(),
        be16(b, at) == v,
    ensures
        b.subrange(at, at + 2) == be16_bytes(v),
{
    lemma_fundamental_div_mod_converse(v as int, 256, b[at] as int, b[at + 1] as int);
    assert(b.subrange(at, at + 2) =~= be16_bytes(v));
}

/// Four bytes that read as `v` are the big-endian bytes of `v`.
proof fn lemma_be32_bytes(b: Seq<u8>, at: int, v: u32)
    requires
        0 <= at,
        at + 4 <= b.len(),
        be32(b, at) == v,
    ensures
        b.subrange(at, at + 4) == be32_bytes(v),
{
    let b0 = b[at] as int;
    let b1 = b[at + 1] as int;
    let b2 = b[at + 2] as int;
    let b3 = b[at + 3] as int;
    let x = v as int;
    let q1 = b0 * 65536 + b1 * 256 + b2;
    let q2 = b0 * 256 + b1;
    assert(x == q1 * 256 + b3);
    lemma_fundamental_div_mod_converse(x, 256, q1, b3);
    assert(q1 == q2 * 256 + b2);
    lemma_fundamental_div_mod_converse(q1, 256, q2, b2);
    assert(x == q2 * 65536 + (b2 * 256 + b3));
    lemma_fundamental_div_mod_converse(x, 65536, q2, b2 * 256 + b3);
    lemma_fundamental_div_mod_converse(q2, 256, b0, b1);
    assert(x == b0 * 16777216 + (b1 * 65536 + b2 * 256 + b3));
    lemma_fundamental_div_mod_converse(x, 16777216, b0, b1 * 65536 + b2 * 256 + b3);
    assert(b.subrange(at, at + 4) =~= be32_bytes(v));
}

/// A saved copy of a packet's fixed header.
pub struct JanusRtpHeader {
    bytes: Vec<u8>,
}

impl View for JanusRtpHeader {
    type V = Seq<u8>;

    closed spec fn view(&self) -> Seq<u8> {
        self.bytes@
    }
}

impl JanusRtpHeader {
    /// Copies the fixed header of `packet`. Fails on a buffer shorter than
    /// a header.
    pub fn extract(packet: &RtpPacket) -> (r: Result<Self, RtpError>)
        ensures
            packet.buffer.len() < RTP_HEADER_SIZE ==> r == Err::<Self, RtpError>(
                RtpError::HeaderTooShort,
            ),
            packet.buffer.len() >= RTP_HEADER_SIZE ==> r is Ok && r->Ok_0@ == packet.buffer@.subrange(
                0,
                RTP_HEADER_SIZE as int,
            ),
    {
        if packet.buffer.len() < RTP_HEADER_SIZE {
            return Err(RtpError::HeaderTooShort);
        }
        let mut bytes: Vec<u8> = Vec::new();
        let mut i: usize = 0;
        while i < RTP_HEADER_SIZE
            invariant
                i <= RTP_HEADER_SIZE <= packet.buffer.len(),
                bytes@ == packet.buffer@.subrange(0, i as int),
            decreases RTP_HEADER_SIZE - i,
        {
            bytes.push(packet.buffer[i]);
            i = i + 1;
            assert(bytes@ =~= packet.buffer@.subrange(0, i as int));
        }
        Ok(JanusRtpHeader { bytes })
    }

    /// Writes the saved header back over the fixed header of `packet`.
    /// Fails, changing nothing, on a buffer shorter than a header.
    pub fn restore(&self, packet: &mut RtpPacket) -> (r: Result<(), RtpError>)
        requires
            self@.len() == RTP_HEADER_SIZE,
        ensures
            old(packet).buffer.len() < RTP_HEADER_SIZE ==> r == Err::<(), RtpError>(
                RtpError::HeaderTooShort,
            ) && *final(packet) == *old(packet),
            old(packet).buffer.len() >= RTP_HEADER_SIZE ==> r is Ok && final(packet).video == old(
                packet,
            ).video && final(packet).buffer@ == self@ + old(packet).buffer@.subrange(
                RTP_HEADER_SIZE as int,
                old(packet).buffer.len() as int,
            ),
    {
        if packet.buffer.len() < RTP_HEADER_SIZE {
            return Err(RtpError::HeaderTooShort);
        }
        let mut i: usize = 0;
        while i < RTP_HEADER_SIZE
            invariant
                i <= RTP_HEADER_SIZE <= packet.buffer.len(),
                self.bytes@.len() == RTP_HEADER_SIZE,
                packet.video == old(packet).video,
                packet.buffer.len() == old(packet).buffer.len(),
                forall|j: int| 0 <= j < i ==> packet.buffer@[j] == self.bytes@[j],
                forall|j: int| i <= j < packet.buffer.len() ==> packet.buffer@[j] == old(packet).buffer@[j],
            decreases RTP_HEADER_SIZE - i,
        {
            packet.buffer.set(i, self.bytes[i]);
            i = i + 1;
        }
        assert(packet.buffer@ =~= self@ + old(packet).buffer@.subrange(
            RTP_HEADER_SIZE as int,
            old(packet).buffer.len() as int,
        ));
        Ok(())
    }
}

/// The timestamp gap assumed at a switch before any gap has been seen.
pub const INITIAL_TS_STEP: u32 = 1;

/// The header fields that the continuity engine reads and rewrites.
#[derive(PartialEq, Eq, Structural, Clone, Copy, Debug)]
pub struct RtpFields {
    pub seq: u16,
    pub ts: u32,
    pub ssrc: u32,
}

/// The continuity state of one direction (audio or video) of a
/// subscription.
#[derive(PartialEq, Eq, Structural, Clone, Copy, Debug)]
pub struct StreamContinuity {
    /// Whether a packet has been relayed yet.
    pub started: bool,
    /// The synchronization source that the subscriber sees.
    pub out_ssrc: u32,
    /// The synchronization source of the last packet received.
    pub last_ssrc: u32,
    /// The timestamp of the last packet received.
    pub last_in_ts: u32,
    /// The sequence number of the last packet emitted.
    pub last_out_seq: u16,
    /// The timestamp of the last packet emitted.
    pub last_out_ts: u32,
    /// Added to the sequence numbers of the current source.
    pub seq_offset: u16,
    /// Added to the timestamps of the current source.
    pub ts_offset: u32,
    /// The last timestamp gap seen between packets of one source.
    pub ts_step: u32,
}

pub open spec fn add16(a: u16, b: u16) -> u16 {
    ((a + b) % 0x1_0000) as u16
}

pub open spec fn sub16(a: u16, b: u16) -> u16 {
    ((a - b + 0x1_0000) % 0x1_0000) as u16
}

pub open spec fn add32(a: u32, b: u32) -> u32 {
    ((a + b) % 0x1_0000_0000) as u32
}

pub open spec fn sub32(a: u32, b: u32) -> u32 {
    ((a - b + 0x1_0000_0000) % 0x1_0000_0000) as u32
}

proof fn lemma_add_sub32(a: u32, b: u32)
    ensures
        add32(b, sub32(a, b)) == a,
{
}

/// Timestamp `b` does not lag behind `a`, modulo wraparound.
pub open spec fn ts_ahead(a: u32, b: u32) -> bool {
    sub32(b, a) < 0x8000_0000
}

/// A forward gap between two timestamps, usable to bridge a switch.
pub open spec fn usable_step(step: u32) -> bool {
    0 < step < 0x8000_0000
}

impl StreamContinuity {
    /// The state of a direction that has relayed nothing yet.
    pub open spec fn fresh() -> StreamContinuity {
        StreamContinuity {
            started: false,
            out_ssrc: 0,
            last_ssrc: 0,
            last_in_ts: 0,
            last_out_seq: 0,
            last_out_ts: 0,
            seq_offset: 0,
            ts_offset: 0,
            ts_step: INITIAL_TS_STEP,
        }
    }

    /// The last emitted timestamp is the last received one shifted by the
    /// current offset, and the bridging gap points forward.
    pub open spec fn wf(&self) -> bool {
        &&& usable_step(self.ts_step)
        &&& self.started ==> self.last_out_ts == add32(self.last_in_ts, self.ts_offset)
    }

    /// The state after relaying a packet with fields `h`, and the fields
    /// that the subscriber receives.
    ///
    /// The first packet passes unchanged and fixes the outgoing source. A
    /// packet from a new source continues one sequence number and one
    /// timestamp gap after the last emitted packet; the offsets that this
    /// takes then apply to the rest of that source's packets.
    pub open spec fn next(self, h: RtpFields) -> (StreamContinuity, RtpFields) {
        if !self.started {
            (
                StreamContinuity {
                    started: true,
                    out_ssrc: h.ssrc,
                    last_ssrc: h.ssrc,
                    last_in_ts: h.ts,
                    last_out_seq: h.seq,
                    last_out_ts: h.ts,
                    seq_offset: 0,
                    ts_offset: 0,
                    ..self
                },
                h,
            )
        } else if h.ssrc != self.last_ssrc {
            let seq = add16(self.last_out_seq, 1);
            let ts = add32(self.last_out_ts, self.ts_step);
            (
                StreamContinuity {
                    last_ssrc: h.ssrc,
                    last_in_ts: h.ts,
                    last_out_seq: seq,
                    last_out_ts: ts,
                    seq_offset: sub16(seq, h.seq),
                    ts_offset: sub32(ts, h.ts),
                    ..self
                },
                RtpFields { seq, ts, ssrc: self.out_ssrc },
            )
        } else {
            let seq = add16(h.seq, self.seq_offset);
            let ts = add32(h.ts, self.ts_offset);
            let gap = sub32(h.ts, self.last_in_ts);
            (
                StreamContinuity {
                    last_in_ts: h.ts,
                    last_out_seq: seq,
                    last_out_ts: ts,
                    ts_step: if usable_step(gap) {
                        gap
                    } else {
                        self.ts_step
                    },
                    ..self
                },
                RtpFields { seq, ts, ssrc: self.out_ssrc },
            )
        }
    }

    pub fn new() -> (r: Self)
        ensures
            r == Self::fresh(),
            r.wf(),
    {
        StreamContinuity {
            started: false,
            out_ssrc: 0,
            last_ssrc: 0,
            last_in_ts: 0,
            last_out_seq: 0,
            last_out_ts: 0,
            seq_offset: 0,
            ts_offset: 0,
            ts_step: INITIAL_TS_STEP,
        }
    }

    /// Relays one packet with fields `h`: returns what the subscriber
    /// receives and moves to the next state.
    pub fn update(&mut self, h: RtpFields) -> (r: RtpFields)
        requires
            old(self).wf(),
        ensures
            (*final(self), r) == old(self).next(h),
            final(self).wf(),
    {
        let (state, out) = if !self.started {
            self.first(h)
        } else if h.ssrc != self.last_ssrc {
            self.switch_to(h)
        } else {
            self.follow(h)
        };
        *self = state;
        out
    }

    fn first(&self, h: RtpFields) -> (r: (Self, RtpFields))
        requires
            self.wf(),
            !self.started,
        ensures
            r == self.next(h),
            r.0.wf(),
    {
        (
            StreamContinuity {
                started: true,
                out_ssrc: h.ssrc,
                last_ssrc: h.ssrc,
                last_in_ts: h.ts,
                last_out_seq: h.seq,
                last_out_ts: h.ts,
                seq_offset: 0,
                ts_offset: 0,
                ts_step: self.ts_step,
            },
            h,
        )
    }

    fn switch_to(&self, h: RtpFields) -> (r: (Self, RtpFields))
        requires
            self.wf(),
            self.started,
            h.ssrc != self.last_ssrc,
        ensures
            r == self.next(h),
            r.0.wf(),
    {
        let seq = self.last_out_seq.wrapping_add(1);
        let ts = self.last_out_ts.wrapping_add(self.ts_step);
        proof {
            lemma_add_sub32(ts, h.ts);
        }
        (
            StreamContinuity {
                started: true,
                out_ssrc: self.out_ssrc,
                last_ssrc: h.ssrc,
                last_in_ts: h.ts,
                last_out_seq: seq,
                last_out_ts: ts,
                seq_offset: seq.wrapping_sub(h.seq),
                ts_offset: ts.wrapping_sub(h.ts),
                ts_step: self.ts_step,
            },
            RtpFields { seq, ts, ssrc: self.out_ssrc },
        )
    }

    fn follow(&self, h: RtpFields) -> (r: (Self, RtpFields))
        requires
            self.wf(),
            self.started,
            h.ssrc == self.last_ssrc,
        ensures
            r == self.next(h),
            r.0.wf(),
    {
        let seq = h.seq.wrapping_add(self.seq_offset);
        let ts = h.ts.wrapping_add(self.ts_offset);
        let gap = h.ts.wrapping_sub(self.last_in_ts);
        let step = if 0 < gap && gap < 0x8000_0000 {
            gap
        } else {
            self.ts_step
        };
        (
            StreamContinuity {
                started: true,
                out_ssrc: self.out_ssrc,
                last_ssrc: self.last_ssrc,
                last_in_ts: h.ts,
                last_out_seq: seq,
                last_out_ts: ts,
                seq_offset: self.seq_offset,
                ts_offset: self.ts_offset,
                ts_step: step,
            },
            RtpFields { seq, ts, ssrc: self.out_ssrc },
        )
    }
}

/// The fields of the fixed header at the start of `b`.
pub open spec fn header_fields(b: Seq<u8>) -> RtpFields {
    RtpFields { seq: seq_field(b), ts: ts_field(b), ssrc: ssrc_field(b) }
}

/// `b` with the sequence number, timestamp and synchronization source of
/// its fixed header set to those of `f`.
pub open spec fn with_fields(b: Seq<u8>, f: RtpFields) -> Seq<u8> {
    b.subrange(0, 2) + be16_bytes(f.seq) + be32_bytes(f.ts) + be32_bytes(f.ssrc) + b.subrange(
        12,
        b.len() as int,
    )
}

/// Per-subscription header rewriting, with separate state for audio and
/// video.
pub struct JanusRtpSwitchingContext {
    audio: StreamContinuity,
    video: StreamContinuity,
}

impl JanusRtpSwitchingContext {
    pub closed spec fn audio(&self) -> StreamContinuity {
        self.audio
    }

    pub closed spec fn video(&self) -> StreamContinuity {
        self.video
    }

    /// The state of the direction that `video` names.
    pub open spec fn direction(&self, video: bool) -> StreamContinuity {
        if video {
            self.video()
        } else {
            self.audio()
        }
    }

    pub open spec fn wf(&self) -> bool {
        self.audio().wf() && self.video().wf()
    }

    pub fn new() -> (r: Self)
        ensures
            r.wf(),
            r.audio() == StreamContinuity::fresh(),
            r.video() == StreamContinuity::fresh(),
    {
        JanusRtpSwitchingContext { audio: StreamContinuity::new(), video: StreamContinuity::new() }
    }

    /// Rewrites the sequence number, timestamp and synchronization source of
    /// `packet` so that it continues the stream that the subscriber has seen
    /// in its direction. Fails, changing nothing, on a buffer shorter than
    /// a header.
    pub fn update_rtp_packet_header(&mut self, packet: &mut RtpPacket) -> (r: Result<(), RtpError>)
        requires
            old(self).wf(),
        ensures
            final(self).wf(),
            old(packet).buffer.len() < RTP_HEADER_SIZE ==> r == Err::<(), RtpError>(
                RtpError::HeaderTooShort,
            ) && *final(packet) == *old(packet) && *final(self) == *old(self),
            old(packet).buffer.len() >= RTP_HEADER_SIZE ==> ({
                let video = old(packet).video;
                let (state, out) = old(self).direction(video).next(
                    header_fields(old(packet).buffer@),
                );
                &&& r is Ok
                &&& final(packet).video == video
                &&& final(packet).buffer@ == with_fields(old(packet).buffer@, out)
                &&& final(self).direction(video) == state
                &&& final(self).direction(!video) == old(self).direction(!video)
            }),
    {
        if packet.buffer.len() < RTP_HEADER_SIZE {
            return Err(RtpError::HeaderTooShort);
        }
        let ghost before = packet.buffer@;
        let h = RtpFields {
            seq: read_u16(&packet.buffer, 2),
            ts: read_u32(&packet.buffer, 4),
            ssrc: read_u32(&packet.buffer, 8),
        };
        assert(h == header_fields(before));
        let out = if packet.video {
            self.video.update(h)
        } else {
            self.audio.update(h)
        };
        write_u16(&mut packet.buffer, 2, out.seq);
        write_u32(&mut packet.buffer, 4, out.ts);
        write_u32(&mut packet.buffer, 8, out.ssrc);
        proof {
            let b = packet.buffer@;
            lemma_be16_bytes(b, 2, out.seq);
            lemma_be32_bytes(b, 4, out.ts);
            lemma_be32_bytes(b, 8, out.ssrc);
            assert(b =~= b.subrange(0, 2) + b.subrange(2, 4) + b.subrange(4, 8) + b.subrange(8, 12)
                + b.subrange(12, b.len() as int));
            assert(b =~= with_fields(before, out));
        }
        Ok(())
    }
}

/// Relaying the packets with fields `hs` in turn, starting from `d`: the
/// state reached and the fields that the subscriber receives.
pub open spec fn relay_all(d: StreamContinuity, hs: Seq<RtpFields>) -> (
    StreamContinuity,
    Seq<RtpFields>,
)
    decreases hs.len(),
{
    if hs.len() == 0 {
        (d, Seq::empty())
    } else {
        let (before, out) = relay_all(d, hs.drop_last());
        let (after, o) = before.next(hs.last());
        (after, out.push(o))
    }
}

/// Packets that follow one another from one source do not go back in time.
pub open spec fn in_order(hs: Seq<RtpFields>) -> bool {
    forall|i: int|
        0 < i < hs.len() && #[trigger] hs[i].ssrc == hs[i - 1].ssrc ==> ts_ahead(
            hs[i - 1].ts,
            hs[i].ts,
        )
}

proof fn lemma_next_wf(d: StreamContinuity, h: RtpFields)
    requires
        d.wf(),
    ensures
        d.next(h).0.wf(),
{
    if d.started && h.ssrc != d.last_ssrc {
        lemma_add_sub32(add32(d.last_out_ts, d.ts_step), h.ts);
    }
}

proof fn lemma_shift_keeps_gap(a: u32, b: u32, off: u32)
    ensures
        sub32(add32(b, off), add32(a, off)) == sub32(b, a),
{
}

proof fn lemma_step_gap(a: u32, step: u32)
    ensures
        sub32(add32(a, step), a) == step,
{
}

proof fn lemma_relay_all(hs: Seq<RtpFields>)
    requires
        in_order(hs),
    ensures
        ({
            let (d, out) = relay_all(StreamContinuity::fresh(), hs);
            &&& out.len() == hs.len()
            &&& d.wf()
            &&& hs.len() > 0 ==> {
                &&& d.started
                &&& d.last_ssrc == hs.last().ssrc
                &&& d.last_in_ts == hs.last().ts
                &&& d.last_out_ts == out.last().ts
                &&& d.out_ssrc == hs[0].ssrc
            }
            &&& hs.len() == 0 ==> !d.started
            &&& forall|i: int| 0 < i < out.len() ==> ts_ahead(out[i - 1].ts, #[trigger] out[i].ts)
            &&& forall|i: int| 0 <= i < out.len() ==> #[trigger] out[i].ssrc == hs[0].ssrc
        }),
    decreases hs.len(),
{
    if hs.len() > 0 {
        let rest = hs.drop_last();
        assert forall|i: int|
            0 < i < rest.len() && #[trigger] rest[i].ssrc == rest[i - 1].ssrc implies ts_ahead(
            rest[i - 1].ts,
            rest[i].ts,
        ) by {
            assert(rest[i] == hs[i] && rest[i - 1] == hs[i - 1]);
        }
        lemma_relay_all(rest);
        let (before, out) = relay_all(StreamContinuity::fresh(), rest);
        let h = hs.last();
        lemma_next_wf(before, h);
        let (after, o) = before.next(h);
        let all = out.push(o);
        if rest.len() > 0 {
            let n = hs.len() - 1;
            assert(rest.last() == hs[n - 1]);
            assert(rest[0] == hs[0]);
            if h.ssrc == before.last_ssrc {
                assert(hs[n].ssrc == hs[n - 1].ssrc);
                lemma_shift_keeps_gap(before.last_in_ts, h.ts, before.ts_offset);
            } else {
                lemma_step_gap(before.last_out_ts, before.ts_step);
            }
            assert(ts_ahead(all[n - 1].ts, all[n].ts));
        }
        assert forall|i: int| 0 < i < all.len() implies ts_ahead(all[i - 1].ts, #[trigger] all[i].ts) by {
            if i < all.len() - 1 {
                assert(all[i] == out[i] && all[i - 1] == out[i - 1]);
            }
        }
        assert forall|i: int| 0 <= i < all.len() implies #[trigger] all[i].ssrc == hs[0].ssrc by {
            if i < all.len() - 1 {
                assert(all[i] == out[i]);
                assert(rest[0] == hs[0]);
            }
        }
    }
}

/// Relaying packets that each source sends in timestamp order, through any
/// number of publisher switches, the subscriber sees timestamps that never
/// go back (modulo wraparound) and a single synchronization source, the one
/// of the first packet.
pub proof fn lemma_switching_keeps_continuity(hs: Seq<RtpFields>)
    requires
        in_order(hs),
    ensures
        ({
            let out = relay_all(StreamContinuity::fresh(), hs).1;
            &&& out.len() == hs.len()
            &&& forall|i: int| 0 < i < out.len() ==> ts_ahead(out[i - 1].ts, #[trigger] out[i].ts)
            &&& forall|i: int| 0 <= i < out.len() ==> #[trigger] out[i].ssrc == hs[0].ssrc
        }),
{
    lemma_relay_all(hs);
}

} // verus!
