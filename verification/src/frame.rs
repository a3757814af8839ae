//! Batched parsing of message frames out of one read.
//!
//! One underlying read yields zero or more frames. A frame starts with a
//! two-byte header: a completion bit, three reserved bits that must be clear,
//! and a four-bit opcode in the first byte; a mask bit that must be clear on
//! frames a server sends, and a seven-bit length in the second. Lengths of 126
//! and 127 defer to a 16-bit or 64-bit big-endian extended length. Control
//! frames (close, ping, pong) may not carry an extended length.
//!
//! Parsing is single-pass and stops at the first problem. A malformed header
//! fails the batch with the byte offset of the offending frame; frames already
//! parsed stay valid. A truncated trailing frame — header or payload not yet
//! fully present — is not an error: the batch ends cleanly and `consumed`
//! tells the caller where the partial bytes to retain for the next read begin.
//! Payloads are not copied: each frame carries its span of the read buffer.

use crate::cmsg::spec_decode_control;
use crate::stream::{RxTimestamped, TimestampingStream};
use crate::timestamps::RxTimestamps;
use vstd::prelude::*;

verus! {

/// The kind of one decoded frame.
#[derive(Clone, Copy, PartialEq, Eq, Structural, Debug)]
pub enum FrameKind {
    Continuation,
    Text,
    Binary,
    Close,
    Ping,
    Pong,
}

/// One decoded frame: its kind, its completion flag, and the span of the read
/// buffer holding its payload.
#[derive(Clone, Copy, PartialEq, Eq, Structural, Debug)]
pub struct Frame {
    pub kind: FrameKind,
    pub fin: bool,
    pub payload_start: usize,
    pub payload_len: usize,
}

/// Why a frame failed to parse.
#[derive(Clone, Copy, PartialEq, Eq, Structural, Debug)]
pub enum FrameErrorKind {
    /// The opcode is not one this protocol defines.
    BadOpcode,
    /// A reserved header bit was set without a negotiated extension.
    ReservedBits,
    /// The frame claims to be masked, which a server may not send.
    Masked,
    /// A control frame claims a payload longer than 125 bytes.
    OversizedControl,
}

/// A frame error, with the byte offset of the offending frame's header.
#[derive(Clone, Copy, PartialEq, Eq, Structural, Debug)]
pub struct FrameError {
    pub kind: FrameErrorKind,
    pub offset: usize,
}

/// The frame kind an opcode stands for, if any.
pub open spec fn kind_of_opcode(op: u8) -> Option<FrameKind> {
    if op == 0 {
        Some(FrameKind::Continuation)
    } else if op == 1 {
        Some(FrameKind::Text)
    } else if op == 2 {
        Some(FrameKind::Binary)
    } else if op == 8 {
        Some(FrameKind::Close)
    } else if op == 9 {
        Some(FrameKind::Ping)
    } else if op == 10 {
        Some(FrameKind::Pong)
    } else {
        None
    }
}

/// Control opcodes occupy the upper half of the opcode space.
pub open spec fn is_control_opcode(op: u8) -> bool {
    op >= 8
}

/// The 16-bit big-endian value starting at `off`.
pub open spec fn be16_at(b: Seq<u8>, off: int) -> int {
    (b[off] as int) * 0x100 + (b[off + 1] as int)
}

/// The 64-bit big-endian value starting at `off`.
pub open spec fn be64_at(b: Seq<u8>, off: int) -> int {
    (b[off] as int) * 0x100_0000_0000_0000 + (b[off + 1] as int) * 0x1_0000_0000_0000 + (b[off
        + 2] as int) * 0x100_0000_0000 + (b[off + 3] as int) * 0x1_0000_0000 + (b[off
        + 4] as int) * 0x100_0000 + (b[off + 5] as int) * 0x1_0000 + (b[off + 6] as int) * 0x100 + (
    b[off + 7] as int)
}

/// The outcome of parsing one frame at a position.
pub enum HeaderStep {
    /// A whole frame lies at the position; `next` is where the following one starts.
    Parsed { frame: Frame, next: int },
    /// The frame's header or payload is not fully present yet.
    Truncated,
    /// The header is invalid.
    Invalid { kind: FrameErrorKind },
}

/// Builds the step for a frame whose header length and payload length are
/// settled: parsed if the payload is fully present, truncated otherwise.
pub open spec fn frame_step(b: Seq<u8>, pos: int, kind: FrameKind, fin: bool, hdr: int, plen: int) -> HeaderStep {
    if pos + hdr + plen <= b.len() {
        HeaderStep::Parsed {
            frame: Frame {
                kind,
                fin,
                payload_start: (pos + hdr) as usize,
                payload_len: plen as usize,
            },
            next: pos + hdr + plen,
        }
    } else {
        HeaderStep::Truncated
    }
}

/// Parses the frame starting at `pos`.
pub open spec fn parse_frame_at(b: Seq<u8>, pos: int) -> HeaderStep {
    if !(0 <= pos && pos + 2 <= b.len()) {
        HeaderStep::Truncated
    } else {
        let b0 = b[pos];
        let b1 = b[pos + 1];
        if (b0 / 16) % 8 != 0 {
            HeaderStep::Invalid { kind: FrameErrorKind::ReservedBits }
        } else {
            match kind_of_opcode(b0 % 16) {
                None => HeaderStep::Invalid { kind: FrameErrorKind::BadOpcode },
                Some(kind) => {
                    if b1 >= 128 {
                        HeaderStep::Invalid { kind: FrameErrorKind::Masked }
                    } else {
                        let fin = b0 >= 128;
                        if is_control_opcode(b0 % 16) && b1 > 125 {
                            HeaderStep::Invalid { kind: FrameErrorKind::OversizedControl }
                        } else if b1 <= 125 {
                            frame_step(b, pos, kind, fin, 2, b1 as int)
                        } else if b1 == 126 {
                            if pos + 4 <= b.len() {
                                frame_step(b, pos, kind, fin, 4, be16_at(b, pos + 2))
                            } else {
                                HeaderStep::Truncated
                            }
                        } else {
                            if pos + 10 <= b.len() {
                                if be64_at(b, pos + 2) <= usize::MAX as int {
                                    frame_step(b, pos, kind, fin, 10, be64_at(b, pos + 2))
                                } else {
                                    HeaderStep::Truncated
                                }
                            } else {
                                HeaderStep::Truncated
                            }
                        }
                    }
                },
            }
        }
    }
}

/// What parsing a whole buffer from `pos` yields: the frames in header order,
/// where the bytes retained for the next read begin, and the error that ended
/// the batch, if any.
pub struct SpecBatch {
    pub frames: Seq<Frame>,
    pub consumed: int,
    pub error: Option<FrameError>,
}

/// Parses frames from `pos` until the buffer runs out or a frame is invalid.
pub open spec fn spec_parse_frames(b: Seq<u8>, pos: int) -> SpecBatch
    decreases b.len() - pos,
{
    match parse_frame_at(b, pos) {
        HeaderStep::Truncated => SpecBatch { frames: Seq::empty(), consumed: pos, error: None },
        HeaderStep::Invalid { kind } => SpecBatch {
            frames: Seq::empty(),
            consumed: pos,
            error: Some(FrameError { kind, offset: pos as usize }),
        },
        HeaderStep::Parsed { frame, next } => {
            let rest = spec_parse_frames(b, next);
            SpecBatch {
                frames: seq![frame] + rest.frames,
                consumed: rest.consumed,
                error: rest.error,
            }
        },
    }
}

/// Law: a batch never consumes behind where it started nor past the buffer,
/// so the bytes from `consumed` to the end are exactly the partial trailing
/// bytes the caller retains for the next read.
pub proof fn lemma_batch_consumed_bounds(b: Seq<u8>, pos: int)
    requires
        0 <= pos <= b.len(),
    ensures
        pos <= spec_parse_frames(b, pos).consumed <= b.len(),
    decreases b.len() - pos,
{
    match parse_frame_at(b, pos) {
        HeaderStep::Parsed { frame, next } => {
            lemma_batch_consumed_bounds(b, next);
        },
        _ => {},
    }
}

/// Law: frames come out in header order — every payload span lies between the
/// batch's start and `consumed`, and each frame's span ends at or before the
/// next frame's payload begins.
pub proof fn lemma_frames_in_order(b: Seq<u8>, pos: int)
    requires
        0 <= pos <= b.len(),
        b.len() <= usize::MAX as int,
    ensures
        ({
            let batch = spec_parse_frames(b, pos);
            &&& forall|i: int|
                0 <= i < batch.frames.len() ==> pos <= #[trigger] batch.frames[i].payload_start
            &&& forall|i: int|
                0 <= i < batch.frames.len() ==> (#[trigger] batch.frames[i].payload_start)
                    + batch.frames[i].payload_len <= batch.consumed
            &&& forall|i: int|
                0 <= i && i + 1 < batch.frames.len() ==> (#[trigger] batch.frames[i].payload_start)
                    + batch.frames[i].payload_len <= batch.frames[i + 1].payload_start
        }),
    decreases b.len() - pos,
{
    match parse_frame_at(b, pos) {
        HeaderStep::Parsed { frame, next } => {
            lemma_frames_in_order(b, next);
            lemma_batch_consumed_bounds(b, next);
            let batch = spec_parse_frames(b, pos);
            let rest = spec_parse_frames(b, next);
            assert(frame.payload_start + frame.payload_len == next);
            assert(forall|i: int|
                0 <= i && i + 1 < batch.frames.len() ==> (#[trigger] batch.frames[i].payload_start)
                    + batch.frames[i].payload_len <= batch.frames[i + 1].payload_start) by {
                assert(forall|i: int|
                    0 <= i < rest.frames.len() ==> next <= #[trigger] rest.frames[i].payload_start);
            }
        },
        _ => {},
    }
}

/// Law: when a batch fails, the reported offset is exactly where parsing
/// stopped — the first byte of the offending frame, just past the frames
/// already yielded, which stay valid.
pub proof fn lemma_error_offset_is_where_parsing_stopped(b: Seq<u8>, pos: int)
    requires
        0 <= pos <= b.len(),
        b.len() <= usize::MAX as int,
    ensures
        ({
            let batch = spec_parse_frames(b, pos);
            match batch.error {
                Some(e) => e.offset == batch.consumed,
                None => true,
            }
        }),
    decreases b.len() - pos,
{
    match parse_frame_at(b, pos) {
        HeaderStep::Parsed { frame, next } => {
            lemma_error_offset_is_where_parsing_stopped(b, next);
        },
        _ => {},
    }
}

/// Law: a batch that ended without error loses nothing to truncation —
/// parsing the same bytes with more appended yields the same frames first, at
/// the same spans, and consumes at least as far.
pub proof fn lemma_clean_batch_extends(b: Seq<u8>, ext: Seq<u8>, pos: int)
    requires
        0 <= pos <= b.len(),
        spec_parse_frames(b, pos).error is None,
    ensures
        ({
            let cur = spec_parse_frames(b, pos);
            let grown = spec_parse_frames(b + ext, pos);
            &&& grown.frames.len() >= cur.frames.len()
            &&& forall|i: int| 0 <= i < cur.frames.len() ==> grown.frames[i] == #[trigger] cur.frames[i]
            &&& grown.consumed >= cur.consumed
        }),
    decreases b.len() - pos,
{
    let whole = b + ext;
    assert(forall|i: int| 0 <= i < b.len() ==> whole[i] == b[i]);
    match parse_frame_at(b, pos) {
        HeaderStep::Parsed { frame, next } => {
            assert(parse_frame_at(whole, pos) == HeaderStep::Parsed { frame, next });
            lemma_clean_batch_extends(b, ext, next);
        },
        HeaderStep::Truncated => {
            lemma_batch_consumed_bounds(whole, pos);
        },
        HeaderStep::Invalid { kind } => {},
    }
}

/// The result of one underlying read: the frames it decoded, where the bytes
/// to retain begin, the error that ended the batch if any, and the receive
/// timestamps captured during that same read.
pub struct Batch {
    pub frames: Vec<Frame>,
    pub consumed: usize,
    pub error: Option<FrameError>,
    pub rx: Option<RxTimestamps>,
}

impl Batch {
    /// The capture layer's timestamps for the read that produced this batch,
    /// or absent if none were found or the stack has no capture layer.
    pub fn rx_timestamps(&self) -> (r: Option<RxTimestamps>)
        ensures
            r == self.rx,
    {
        self.rx
    }
}

fn read_be16(b: &[u8], off: usize) -> (r: u16)
    requires
        off + 2 <= b@.len(),
    ensures
        r as int == be16_at(b@, off as int),
{
    proof {
        vstd::slice::axiom_spec_len(b);
    }
    let hi: u8 = b[off];
    let lo: u8 = b[off + 1];
    (hi as u16) * 0x100 + (lo as u16)
}

fn read_be64(b: &[u8], off: usize) -> (r: u64)
    requires
        off + 8 <= b@.len(),
    ensures
        r as int == be64_at(b@, off as int),
{
    proof {
        vstd::slice::axiom_spec_len(b);
    }
    let b0: u8 = b[off];
    let b1: u8 = b[off + 1];
    let b2: u8 = b[off + 2];
    let b3: u8 = b[off + 3];
    let b4: u8 = b[off + 4];
    let b5: u8 = b[off + 5];
    let b6: u8 = b[off + 6];
    let b7: u8 = b[off + 7];
    (b0 as u64) * 0x100_0000_0000_0000 + (b1 as u64) * 0x1_0000_0000_0000 + (b2 as u64)
        * 0x100_0000_0000 + (b3 as u64) * 0x1_0000_0000 + (b4 as u64) * 0x100_0000 + (b5 as u64)
        * 0x1_0000 + (b6 as u64) * 0x100 + (b7 as u64)
}

/// Parses as many whole frames as the buffer holds, single-pass, stopping at
/// the first invalid frame (reported with its byte offset) or at a truncated
/// trailing frame (not an error; `consumed` marks where the partial bytes to
/// retain begin). No timestamps are attached.
#[verifier::rlimit(60)]
pub fn parse_frames(buf: &[u8]) -> (r: Batch)
    ensures
        r.frames@ == spec_parse_frames(buf@, 0).frames,
        r.consumed == spec_parse_frames(buf@, 0).consumed,
        r.error == spec_parse_frames(buf@, 0).error,
        r.rx is None,
{
    let end: usize = buf.len();
    let mut frames: Vec<Frame> = Vec::new();
    let mut pos: usize = 0;
    loop
        invariant
            pos <= end,
            end == buf@.len(),
            spec_parse_frames(buf@, 0).frames == frames@ + spec_parse_frames(
                buf@,
                pos as int,
            ).frames,
            spec_parse_frames(buf@, 0).consumed == spec_parse_frames(buf@, pos as int).consumed,
            spec_parse_frames(buf@, 0).error == spec_parse_frames(buf@, pos as int).error,
        decreases end - pos,
    {
        if end - pos < 2 {
            proof {
                assert(spec_parse_frames(buf@, 0).frames =~= frames@);
            }
            return Batch { frames, consumed: pos, error: None, rx: None };
        }
        let b0: u8 = buf[pos];
        let b1: u8 = buf[pos + 1];
        if (b0 / 16) % 8 != 0 {
            proof {
                assert(spec_parse_frames(buf@, 0).frames =~= frames@);
            }
            let err = FrameError { kind: FrameErrorKind::ReservedBits, offset: pos };
            return Batch { frames, consumed: pos, error: Some(err), rx: None };
        }
        let op: u8 = b0 % 16;
        let kind: FrameKind = match op {
            0 => FrameKind::Continuation,
            1 => FrameKind::Text,
            2 => FrameKind::Binary,
            8 => FrameKind::Close,
            9 => FrameKind::Ping,
            10 => FrameKind::Pong,
            _ => {
                proof {
                    assert(spec_parse_frames(buf@, 0).frames =~= frames@);
                }
                let err = FrameError { kind: FrameErrorKind::BadOpcode, offset: pos };
                return Batch { frames, consumed: pos, error: Some(err), rx: None };
            },
        };
        if b1 >= 128 {
            proof {
                assert(spec_parse_frames(buf@, 0).frames =~= frames@);
            }
            let err = FrameError { kind: FrameErrorKind::Masked, offset: pos };
            return Batch { frames, consumed: pos, error: Some(err), rx: None };
        }
        let fin: bool = b0 >= 128;
        if op >= 8 && b1 > 125 {
            proof {
                assert(spec_parse_frames(buf@, 0).frames =~= frames@);
            }
            let err = FrameError { kind: FrameErrorKind::OversizedControl, offset: pos };
            return Batch { frames, consumed: pos, error: Some(err), rx: None };
        }
        let hdr: usize;
        let plen: usize;
        if b1 <= 125 {
            hdr = 2;
            plen = b1 as usize;
        } else if b1 == 126 {
            if end - pos < 4 {
                proof {
                    assert(spec_parse_frames(buf@, 0).frames =~= frames@);
                }
                return Batch { frames, consumed: pos, error: None, rx: None };
            }
            hdr = 4;
            plen = read_be16(buf, pos + 2) as usize;
        } else {
            if end - pos < 10 {
                proof {
                    assert(spec_parse_frames(buf@, 0).frames =~= frames@);
                }
                return Batch { frames, consumed: pos, error: None, rx: None };
            }
            let wide: u64 = read_be64(buf, pos + 2);
            if wide > usize::MAX as u64 {
                proof {
                    assert(spec_parse_frames(buf@, 0).frames =~= frames@);
                }
                return Batch { frames, consumed: pos, error: None, rx: None };
            }
            hdr = 10;
            plen = wide as usize;
        }
        if plen > (end - pos) - hdr {
            proof {
                assert(spec_parse_frames(buf@, 0).frames =~= frames@);
            }
            return Batch { frames, consumed: pos, error: None, rx: None };
        }
        let frame = Frame { kind, fin, payload_start: pos + hdr, payload_len: plen };
        proof {
            let step = parse_frame_at(buf@, pos as int);
            assert(step == HeaderStep::Parsed { frame, next: pos + hdr + plen });
            let rest = spec_parse_frames(buf@, pos + hdr + plen);
            assert(frames@ + spec_parse_frames(buf@, pos as int).frames =~= (frames@
                + seq![frame]) + rest.frames);
        }
        frames.push(frame);
        pos = pos + hdr + plen;
    }
}

/// Borrows a frame's payload out of the read buffer it was parsed from.
pub fn frame_payload<'a>(frame: &Frame, buf: &'a [u8]) -> (r: &'a [u8])
    requires
        frame.payload_start + frame.payload_len <= buf@.len(),
    ensures
        r@ == buf@.subrange(
            frame.payload_start as int,
            frame.payload_start + frame.payload_len,
        ),
{
    proof {
        vstd::slice::axiom_spec_len(buf);
    }
    vstd::slice::slice_subrange(buf, frame.payload_start, frame.payload_start + frame.payload_len)
}

/// The pure half of one `read_batch`: given the outcome of exactly one
/// underlying read — `n` payload bytes and the control bytes captured with
/// them — records the read on the capture layer, parses the payload's frames,
/// and attaches the timestamps of that same read to the whole batch.
pub fn batch_from_read<S>(
    stream: &mut TimestampingStream<S>,
    n: usize,
    payload: &[u8],
    ctrl: &[u8],
) -> (r: Batch)
    requires
        payload@.len() == n,
    ensures
        r.frames@ == spec_parse_frames(payload@, 0).frames,
        r.consumed == spec_parse_frames(payload@, 0).consumed,
        r.error == spec_parse_frames(payload@, 0).error,
        r.rx == final(stream).spec_last(),
        final(stream).spec_inner() == old(stream).spec_inner(),
        n == 0 ==> final(stream).spec_last() is None,
        n != 0 ==> final(stream).spec_last() == spec_decode_control(ctrl@),
{
    stream.record_read(n, ctrl);
    let mut batch = parse_frames(payload);
    batch.rx = stream.last_rx_timestamps();
    batch
}

} // verus!
