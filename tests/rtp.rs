use conference::janus_rtp::{
    rewrite_ssrc, JanusRtpHeader, JanusRtpSwitchingContext, RtpError, RtpFields, RtpPacket,
    StreamContinuity,
};

fn packet(video: bool, seq: u16, ts: u32, ssrc: u32) -> RtpPacket {
    let mut buffer = vec![0x80u8, 0x60];
    buffer.extend_from_slice(&seq.to_be_bytes());
    buffer.extend_from_slice(&ts.to_be_bytes());
    buffer.extend_from_slice(&ssrc.to_be_bytes());
    buffer.extend_from_slice(&[0xde, 0xad]);
    RtpPacket { video, buffer }
}

fn fields(p: &RtpPacket) -> (u16, u32, u32) {
    let b = &p.buffer;
    (
        u16::from_be_bytes([b[2], b[3]]),
        u32::from_be_bytes([b[4], b[5], b[6], b[7]]),
        u32::from_be_bytes([b[8], b[9], b[10], b[11]]),
    )
}

#[test]
fn switch_keeps_timestamps_and_ssrc_continuous() {
    let mut ctx = JanusRtpSwitchingContext::new();
    let mut seen = Vec::new();
    let input = [(1u16, 1000u32, 0xAAAAu32), (2, 1033, 0xAAAA), (3, 1066, 0xAAAA), (70, 500, 0xBBBB), (71, 533, 0xBBBB)];
    for (seq, ts, ssrc) in input {
        let mut p = packet(true, seq, ts, ssrc);
        ctx.update_rtp_packet_header(&mut p).unwrap();
        seen.push(fields(&p));
    }
    assert_eq!(
        seen,
        vec![
            (1, 1000, 0xAAAA),
            (2, 1033, 0xAAAA),
            (3, 1066, 0xAAAA),
            (4, 1099, 0xAAAA),
            (5, 1132, 0xAAAA),
        ]
    );
    for w in seen.windows(2) {
        assert!(w[1].1.wrapping_sub(w[0].1) < 0x8000_0000);
    }
}

#[test]
fn payload_and_first_bytes_are_kept() {
    let mut ctx = JanusRtpSwitchingContext::new();
    let mut p = packet(false, 9, 90, 3);
    ctx.update_rtp_packet_header(&mut p).unwrap();
    let mut q = packet(false, 100, 7, 4);
    ctx.update_rtp_packet_header(&mut q).unwrap();
    assert_eq!(&q.buffer[0..2], &[0x80, 0x60]);
    assert_eq!(&q.buffer[12..], &[0xde, 0xad]);
    assert_eq!(fields(&q), (10, 91, 3));
}

#[test]
fn audio_and_video_are_independent() {
    let mut ctx = JanusRtpSwitchingContext::new();
    let mut a = packet(false, 10, 100, 1);
    let mut v = packet(true, 50, 9000, 2);
    ctx.update_rtp_packet_header(&mut a).unwrap();
    ctx.update_rtp_packet_header(&mut v).unwrap();
    let mut a2 = packet(false, 11, 120, 1);
    ctx.update_rtp_packet_header(&mut a2).unwrap();
    assert_eq!(fields(&a2), (11, 120, 1));
    assert_eq!(fields(&v), (50, 9000, 2));
}

#[test]
fn sequence_numbers_wrap() {
    let mut d = StreamContinuity::new();
    d.update(RtpFields { seq: 65535, ts: u32::MAX, ssrc: 1 });
    let out = d.update(RtpFields { seq: 1, ts: 10, ssrc: 2 });
    assert_eq!(out, RtpFields { seq: 0, ts: 0, ssrc: 1 });
    let out = d.update(RtpFields { seq: 2, ts: 20, ssrc: 2 });
    assert_eq!(out, RtpFields { seq: 1, ts: 10, ssrc: 1 });
}

#[test]
fn short_buffer_is_refused() {
    let mut ctx = JanusRtpSwitchingContext::new();
    let mut p = RtpPacket { video: true, buffer: vec![1, 2, 3] };
    assert_eq!(ctx.update_rtp_packet_header(&mut p), Err(RtpError::HeaderTooShort));
    assert_eq!(p.buffer, vec![1, 2, 3]);
    assert_eq!(rewrite_ssrc(&mut p, 5), Err(RtpError::HeaderTooShort));
    assert!(JanusRtpHeader::extract(&p).is_err());
}

#[test]
fn rewrite_ssrc_sets_only_the_ssrc() {
    let mut p = packet(true, 7, 77, 0x01020304);
    rewrite_ssrc(&mut p, 0xA1B2C3D4).unwrap();
    assert_eq!(fields(&p), (7, 77, 0xA1B2C3D4));
    assert_eq!(&p.buffer[8..12], &[0xA1, 0xB2, 0xC3, 0xD4]);
    assert_eq!(&p.buffer[12..], &[0xde, 0xad]);
}

#[test]
fn header_round_trip() {
    let first = packet(true, 7, 77, 42);
    let saved = JanusRtpHeader::extract(&first).unwrap();
    let mut p = packet(true, 8, 88, 43);
    saved.restore(&mut p).unwrap();
    assert_eq!(p.buffer, first.buffer);
    let mut short = RtpPacket { video: true, buffer: vec![0; 4] };
    assert_eq!(saved.restore(&mut short), Err(RtpError::HeaderTooShort));
}
