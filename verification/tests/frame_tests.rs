use rxstamp::cmsg::encode_timestamping_control;
use rxstamp::frame::{batch_from_read, frame_payload, parse_frames, Frame, FrameErrorKind, FrameKind};
use rxstamp::stream::TimestampingStream;
use rxstamp::timestamps::RxTimestamps;

#[test]
fn single_text_frame() {
    let buf = [0x81, 0x03, b'a', b'b', b'c'];
    let batch = parse_frames(&buf);
    assert_eq!(batch.frames.len(), 1);
    assert_eq!(
        batch.frames[0],
        Frame { kind: FrameKind::Text, fin: true, payload_start: 2, payload_len: 3 }
    );
    assert_eq!(batch.consumed, 5);
    assert_eq!(batch.error, None);
    assert_eq!(frame_payload(&batch.frames[0], &buf), b"abc");
}

#[test]
fn frames_come_in_header_order_and_partial_bytes_are_preserved() {
    // A complete text frame, a complete unfinished binary frame, then one
    // byte of a further header.
    let buf = [0x81, 0x01, b'x', 0x02, 0x02, b'y', b'z', 0x81];
    let batch = parse_frames(&buf);
    assert_eq!(batch.frames.len(), 2);
    assert_eq!(batch.frames[0].kind, FrameKind::Text);
    assert!(batch.frames[0].fin);
    assert_eq!(batch.frames[1].kind, FrameKind::Binary);
    assert!(!batch.frames[1].fin);
    assert_eq!(frame_payload(&batch.frames[0], &buf), b"x");
    assert_eq!(frame_payload(&batch.frames[1], &buf), b"yz");
    // The truncated trailing header is no error, and consumed marks where the
    // bytes to retain begin.
    assert_eq!(batch.error, None);
    assert_eq!(batch.consumed, 7);
    assert_eq!(&buf[batch.consumed..], &[0x81]);
}

#[test]
fn retained_bytes_parse_once_completed() {
    let buf = [0x81, 0x01, b'x', 0x81];
    let batch = parse_frames(&buf);
    assert_eq!(batch.frames.len(), 1);
    assert_eq!(batch.consumed, 3);
    // Retain the partial bytes and complete them with the next read.
    let mut next = buf[batch.consumed..].to_vec();
    next.extend_from_slice(&[0x01, b'q']);
    let batch2 = parse_frames(&next);
    assert_eq!(batch2.frames.len(), 1);
    assert_eq!(frame_payload(&batch2.frames[0], &next), b"q");
    assert_eq!(batch2.error, None);
}

#[test]
fn truncated_payload_is_not_an_error() {
    let buf = [0x81, 0x05, b'a', b'b', b'c'];
    let batch = parse_frames(&buf);
    assert_eq!(batch.frames.len(), 0);
    assert_eq!(batch.consumed, 0);
    assert_eq!(batch.error, None);
}

#[test]
fn sixteen_bit_extended_length() {
    let mut buf = vec![0x82, 126, 0x00, 0x80];
    buf.extend_from_slice(&[7u8; 128]);
    let batch = parse_frames(&buf);
    assert_eq!(batch.frames.len(), 1);
    assert_eq!(batch.frames[0].kind, FrameKind::Binary);
    assert_eq!(batch.frames[0].payload_start, 4);
    assert_eq!(batch.frames[0].payload_len, 128);
    assert_eq!(batch.consumed, 132);
}

#[test]
fn sixty_four_bit_extended_length() {
    let mut buf = vec![0x81, 127];
    buf.extend_from_slice(&2u64.to_be_bytes());
    buf.extend_from_slice(b"hi");
    let batch = parse_frames(&buf);
    assert_eq!(batch.frames.len(), 1);
    assert_eq!(batch.frames[0].payload_start, 10);
    assert_eq!(batch.frames[0].payload_len, 2);
    assert_eq!(frame_payload(&batch.frames[0], &buf), b"hi");
}

#[test]
fn absurd_declared_length_is_just_truncation() {
    // A header declaring a payload of 2^63 bytes: nothing to do but wait for
    // bytes that will never all arrive - not an error, nothing consumed.
    let mut buf = vec![0x81, 127];
    buf.extend_from_slice(&(1u64 << 63).to_be_bytes());
    let batch = parse_frames(&buf);
    assert_eq!(batch.frames.len(), 0);
    assert_eq!(batch.consumed, 0);
    assert_eq!(batch.error, None);
}

#[test]
fn control_frames_parse() {
    let buf = [0x89, 0x00, 0x8a, 0x01, b'p', 0x88, 0x00];
    let batch = parse_frames(&buf);
    assert_eq!(batch.frames.len(), 3);
    assert_eq!(batch.frames[0].kind, FrameKind::Ping);
    assert_eq!(batch.frames[1].kind, FrameKind::Pong);
    assert_eq!(batch.frames[2].kind, FrameKind::Close);
    assert_eq!(batch.error, None);
}

#[test]
fn continuation_frame_parses() {
    let buf = [0x80, 0x01, b'c'];
    let batch = parse_frames(&buf);
    assert_eq!(batch.frames.len(), 1);
    assert_eq!(batch.frames[0].kind, FrameKind::Continuation);
    assert!(batch.frames[0].fin);
}

#[test]
fn reserved_bits_fail_the_batch_with_offset() {
    let buf = [0x81, 0x01, b'x', 0xC1, 0x00];
    let batch = parse_frames(&buf);
    // The frame already parsed stays valid.
    assert_eq!(batch.frames.len(), 1);
    let err = batch.error.expect("reserved bits must fail the batch");
    assert_eq!(err.kind, FrameErrorKind::ReservedBits);
    assert_eq!(err.offset, 3);
}

#[test]
fn bad_opcode_fails_the_batch_with_offset() {
    let buf = [0x83, 0x00];
    let batch = parse_frames(&buf);
    assert_eq!(batch.frames.len(), 0);
    let err = batch.error.expect("an undefined opcode must fail the batch");
    assert_eq!(err.kind, FrameErrorKind::BadOpcode);
    assert_eq!(err.offset, 0);
}

#[test]
fn masked_frame_fails_the_batch() {
    let buf = [0x81, 0x81, 1, 2, 3, 4, b'x'];
    let batch = parse_frames(&buf);
    let err = batch.error.expect("a masked frame must fail the batch");
    assert_eq!(err.kind, FrameErrorKind::Masked);
    assert_eq!(err.offset, 0);
}

#[test]
fn oversized_control_frame_fails_the_batch() {
    let mut buf = vec![0x89, 126, 0x00, 0x80];
    buf.extend_from_slice(&[0u8; 128]);
    let batch = parse_frames(&buf);
    let err = batch.error.expect("an oversized ping must fail the batch");
    assert_eq!(err.kind, FrameErrorKind::OversizedControl);
    assert_eq!(err.offset, 0);
}

#[test]
fn empty_buffer_yields_empty_clean_batch() {
    let batch = parse_frames(&[]);
    assert_eq!(batch.frames.len(), 0);
    assert_eq!(batch.consumed, 0);
    assert_eq!(batch.error, None);
    assert_eq!(batch.rx_timestamps(), None);
}

#[test]
fn batch_carries_the_reads_timestamps() {
    let mut s: TimestampingStream<u32> = TimestampingStream::new(0);
    let ctrl = encode_timestamping_control(0, 0, 0, 0, 6, 0);
    let payload = [0x81, 0x02, b'o', b'k'];
    let batch = batch_from_read(&mut s, payload.len(), &payload, &ctrl);
    assert_eq!(batch.frames.len(), 1);
    assert_eq!(batch.frames[0].kind, FrameKind::Text);
    assert_eq!(
        batch.rx_timestamps(),
        Some(RxTimestamps { sw_ns: 0, hw_sys_ns: 0, hw_raw_ns: 6_000_000_000 })
    );
}

#[test]
fn zero_byte_read_batch_is_empty_and_clears_timestamps() {
    let mut s: TimestampingStream<u32> = TimestampingStream::new(0);
    let ctrl = encode_timestamping_control(0, 0, 0, 0, 6, 0);
    let ping = [0x89, 0x00];
    let batch = batch_from_read(&mut s, ping.len(), &ping, &ctrl);
    assert!(batch.rx_timestamps().is_some());
    let eof = batch_from_read(&mut s, 0, &[], &ctrl);
    assert_eq!(eof.frames.len(), 0);
    assert_eq!(eof.rx_timestamps(), None);
}
