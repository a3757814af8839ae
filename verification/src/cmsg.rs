//! Bounds-checked decoding of socket ancillary (control-message) data.
//!
//! A control buffer returned by a receive syscall is a chain of entries. Each
//! entry starts with a 16-byte header — a 64-bit declared length, then a
//! 32-bit level and a 32-bit type, all little-endian in the platform's layout
//! — followed by its payload; the next entry begins at the declared length
//! rounded up to 8-byte alignment. The entry carrying receive timestamps has
//! level "socket" and type "timestamping", and its payload is three
//! consecutive (seconds, nanoseconds) time records: software, hardware in the
//! system clock domain, raw hardware.
//!
//! Declared lengths come from the kernel but are never trusted: an entry is
//! interpreted only after its declared length and the bytes actually present
//! both cover what is about to be read, and a declared length too small to
//! hold even a header ends the chain. Only the first timestamping entry of a
//! chain is honored.

use crate::timestamps::{encode_record, ns_from_pair, pairs_to_timestamps, record_ns_at, RxTimestamps};
use vstd::bytes::{
    spec_u32_from_le_bytes, spec_u32_to_le_bytes, spec_u64_from_le_bytes, spec_u64_to_le_bytes,
    u32_from_le_bytes, u32_to_le_bytes, u64_from_le_bytes, u64_to_le_bytes,
};
use vstd::prelude::*;
use vstd::slice::slice_subrange;

verus! {

/// Bytes of one control-message header: 64-bit length, 32-bit level, 32-bit type.
pub const CMSG_HEADER_LEN: usize = 16;

/// Entries are aligned to 8 bytes.
pub const CMSG_ALIGNMENT: usize = 8;

/// The socket-level value (`SOL_SOCKET`).
pub const SOCKET_LEVEL: u32 = 1;

/// The timestamping control-message type (`SCM_TIMESTAMPING`).
pub const TIMESTAMPING_TYPE: u32 = 37;

/// Payload of a timestamping entry: three 16-byte time records.
pub const TIMESTAMPING_PAYLOAD_LEN: usize = 48;

/// Declared length of a complete timestamping entry, header included.
pub const TIMESTAMPING_ENTRY_LEN: usize = 64;

/// `n` rounded up to the entry alignment.
pub open spec fn spec_align_up(n: int) -> int {
    if n % 8 == 0 {
        n
    } else {
        n + (8 - n % 8)
    }
}

/// The 32-bit little-endian word starting at `off`.
pub open spec fn le32_at(b: Seq<u8>, off: int) -> u32 {
    spec_u32_from_le_bytes(b.subrange(off, off + 4))
}

/// The 64-bit little-endian word starting at `off`.
pub open spec fn le64_at(b: Seq<u8>, off: int) -> u64 {
    spec_u64_from_le_bytes(b.subrange(off, off + 8))
}

/// Whether a full entry header lies within the buffer at `pos`.
pub open spec fn header_fits(b: Seq<u8>, pos: int) -> bool {
    0 <= pos && pos + CMSG_HEADER_LEN <= b.len()
}

/// The declared length of the entry at `pos`.
pub open spec fn declared_len_at(b: Seq<u8>, pos: int) -> int {
    le64_at(b, pos) as int
}

/// Whether the entry at `pos` is a socket-level timestamping entry.
pub open spec fn is_timestamping_at(b: Seq<u8>, pos: int) -> bool {
    le32_at(b, pos + 8) == SOCKET_LEVEL && le32_at(b, pos + 12) == TIMESTAMPING_TYPE
}

/// The three time records of the timestamping payload starting at `off`,
/// converted to nanoseconds.
pub open spec fn spec_decode_records(b: Seq<u8>, off: int) -> RxTimestamps {
    RxTimestamps {
        sw_ns: record_ns_at(b, off),
        hw_sys_ns: record_ns_at(b, off + 16),
        hw_raw_ns: record_ns_at(b, off + 32),
    }
}

/// What decoding the chain from `pos` onward yields: the timestamps of the
/// first timestamping entry whose declared length and available bytes both
/// cover the three time records, or `None` if the chain holds no such entry.
pub open spec fn spec_decode_chain(b: Seq<u8>, pos: int) -> Option<RxTimestamps>
    decreases b.len() - pos,
{
    if !header_fits(b, pos) {
        None
    } else if is_timestamping_at(b, pos) {
        if declared_len_at(b, pos) >= TIMESTAMPING_ENTRY_LEN && pos + TIMESTAMPING_ENTRY_LEN
            <= b.len() {
            Some(spec_decode_records(b, pos + CMSG_HEADER_LEN))
        } else {
            None
        }
    } else if declared_len_at(b, pos) < CMSG_HEADER_LEN {
        None
    } else {
        let next = pos + spec_align_up(declared_len_at(b, pos));
        if next + CMSG_HEADER_LEN <= b.len() {
            spec_decode_chain(b, next)
        } else {
            None
        }
    }
}

/// What decoding a whole control buffer yields.
pub open spec fn spec_decode_control(b: Seq<u8>) -> Option<RxTimestamps> {
    spec_decode_chain(b, 0)
}

/// Whether the chain from `pos` onward reaches a timestamping entry at all,
/// whatever its declared length.
pub open spec fn spec_chain_has_timestamping(b: Seq<u8>, pos: int) -> bool
    decreases b.len() - pos,
{
    if !header_fits(b, pos) {
        false
    } else if is_timestamping_at(b, pos) {
        true
    } else if declared_len_at(b, pos) < CMSG_HEADER_LEN {
        false
    } else {
        let next = pos + spec_align_up(declared_len_at(b, pos));
        next + CMSG_HEADER_LEN <= b.len() && spec_chain_has_timestamping(b, next)
    }
}

/// Whether a whole control buffer holds a timestamping entry.
pub open spec fn spec_has_timestamping(b: Seq<u8>) -> bool {
    spec_chain_has_timestamping(b, 0)
}

proof fn lemma_no_entry_chain_absent(b: Seq<u8>, pos: int)
    requires
        !spec_chain_has_timestamping(b, pos),
    ensures
        spec_decode_chain(b, pos) is None,
    decreases b.len() - pos,
{
    if header_fits(b, pos) && !is_timestamping_at(b, pos) && declared_len_at(b, pos)
        >= CMSG_HEADER_LEN {
        let next = pos + spec_align_up(declared_len_at(b, pos));
        if next + CMSG_HEADER_LEN <= b.len() {
            lemma_no_entry_chain_absent(b, next);
        }
    }
}

/// Law: a control buffer without any timestamping entry decodes to absent.
pub proof fn lemma_no_entry_decodes_absent(b: Seq<u8>)
    requires
        !spec_has_timestamping(b),
    ensures
        spec_decode_control(b) is None,
{
    lemma_no_entry_chain_absent(b, 0);
}

/// Encodes a complete control buffer holding one timestamping entry with the
/// given three (seconds, nanoseconds) records. Decoding it yields exactly the
/// timestamps those records stand for — in particular, an all-zero entry
/// still decodes as present, with every field the zero sentinel.
pub fn encode_timestamping_control(
    sw_sec: u64,
    sw_nsec: u64,
    hw_sys_sec: u64,
    hw_sys_nsec: u64,
    hw_raw_sec: u64,
    hw_raw_nsec: u64,
) -> (r: Vec<u8>)
    ensures
        r@.len() == TIMESTAMPING_ENTRY_LEN,
        spec_has_timestamping(r@),
        spec_decode_control(r@) == Some(
            pairs_to_timestamps(sw_sec, sw_nsec, hw_sys_sec, hw_sys_nsec, hw_raw_sec, hw_raw_nsec),
        ),
{
    let mut out = u64_to_le_bytes(TIMESTAMPING_ENTRY_LEN as u64);
    let mut lvl = u32_to_le_bytes(SOCKET_LEVEL);
    let mut ty = u32_to_le_bytes(TIMESTAMPING_TYPE);
    out.append(&mut lvl);
    out.append(&mut ty);
    let mut sw = encode_record(sw_sec, sw_nsec);
    let mut hw_sys = encode_record(hw_sys_sec, hw_sys_nsec);
    let mut hw_raw = encode_record(hw_raw_sec, hw_raw_nsec);
    out.append(&mut sw);
    out.append(&mut hw_sys);
    out.append(&mut hw_raw);
    proof {
        vstd::bytes::lemma_auto_spec_u64_to_from_le_bytes();
        vstd::bytes::lemma_auto_spec_u32_to_from_le_bytes();
        let v = out@;
        assert(v.subrange(0, 8) =~= spec_u64_to_le_bytes(TIMESTAMPING_ENTRY_LEN as u64));
        assert(v.subrange(8, 12) =~= spec_u32_to_le_bytes(SOCKET_LEVEL));
        assert(v.subrange(12, 16) =~= spec_u32_to_le_bytes(TIMESTAMPING_TYPE));
        assert(v.subrange(16, 24) =~= spec_u64_to_le_bytes(sw_sec));
        assert(v.subrange(24, 32) =~= spec_u64_to_le_bytes(sw_nsec));
        assert(v.subrange(32, 40) =~= spec_u64_to_le_bytes(hw_sys_sec));
        assert(v.subrange(40, 48) =~= spec_u64_to_le_bytes(hw_sys_nsec));
        assert(v.subrange(48, 56) =~= spec_u64_to_le_bytes(hw_raw_sec));
        assert(v.subrange(56, 64) =~= spec_u64_to_le_bytes(hw_raw_nsec));
    }
    out
}

fn read_le64(b: &[u8], off: usize) -> (r: u64)
    requires
        off + 8 <= b@.len(),
    ensures
        r == le64_at(b@, off as int),
{
    proof {
        vstd::slice::axiom_spec_len(b);
    }
    u64_from_le_bytes(slice_subrange(b, off, off + 8))
}

fn read_le32(b: &[u8], off: usize) -> (r: u32)
    requires
        off + 4 <= b@.len(),
    ensures
        r == le32_at(b@, off as int),
{
    proof {
        vstd::slice::axiom_spec_len(b);
    }
    u32_from_le_bytes(slice_subrange(b, off, off + 4))
}

/// Decodes the three time records of a timestamping payload at `off`.
fn decode_records(b: &[u8], off: usize) -> (r: RxTimestamps)
    requires
        off + TIMESTAMPING_PAYLOAD_LEN <= b@.len(),
    ensures
        r == spec_decode_records(b@, off as int),
{
    proof {
        vstd::slice::axiom_spec_len(b);
    }
    RxTimestamps {
        sw_ns: ns_from_pair(read_le64(b, off), read_le64(b, off + 8)),
        hw_sys_ns: ns_from_pair(read_le64(b, off + 16), read_le64(b, off + 24)),
        hw_raw_ns: ns_from_pair(read_le64(b, off + 32), read_le64(b, off + 40)),
    }
}

/// Scans a control buffer for the first socket-level timestamping entry and
/// decodes its three time records, validating every declared length against
/// the bytes actually present before interpreting anything.
pub fn decode_control(ctrl: &[u8]) -> (r: Option<RxTimestamps>)
    ensures
        r == spec_decode_control(ctrl@),
{
    let end: usize = ctrl.len();
    let mut pos: usize = 0;
    loop
        invariant
            pos <= end,
            end == ctrl@.len(),
            spec_decode_chain(ctrl@, pos as int) == spec_decode_control(ctrl@),
        decreases end - pos,
    {
        if end - pos < CMSG_HEADER_LEN {
            return None;
        }
        let declared = read_le64(ctrl, pos);
        let level = read_le32(ctrl, pos + 8);
        let typ = read_le32(ctrl, pos + 12);
        if level == SOCKET_LEVEL && typ == TIMESTAMPING_TYPE {
            if declared >= TIMESTAMPING_ENTRY_LEN as u64 && end - pos >= TIMESTAMPING_ENTRY_LEN {
                return Some(decode_records(ctrl, pos + CMSG_HEADER_LEN));
            }
            return None;
        }
        if declared < CMSG_HEADER_LEN as u64 {
            return None;
        }
        let remaining: usize = end - pos;
        if declared > remaining as u64 {
            // The next entry would begin past the buffer: no further header fits.
            return None;
        }
        let declared_us: usize = declared as usize;
        let part: usize = declared_us % CMSG_ALIGNMENT;
        let pad: usize = if part == 0 {
            0
        } else {
            CMSG_ALIGNMENT - part
        };
        let avail: usize = remaining - declared_us;
        if avail < CMSG_HEADER_LEN || pad > avail - CMSG_HEADER_LEN {
            return None;
        }
        pos = pos + declared_us + pad;
    }
}

} // verus!
