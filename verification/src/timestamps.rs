//! RX timestamp values and the kernel time-record encoding.
//!
//! The kernel reports each receive timestamp as a (seconds, nanoseconds)
//! record of two 64-bit little-endian words. A record is converted to a single
//! nanosecond count, saturating at the largest representable value instead of
//! wrapping; the all-zero record is the sentinel "not supplied" and converts
//! to zero.

use vstd::bytes::{spec_u64_from_le_bytes, spec_u64_to_le_bytes, u64_to_le_bytes};
use vstd::prelude::*;

verus! {

/// Nanosecond receive timestamps decoded from one read's ancillary data.
///
/// `sw_ns` is the software timestamp, `hw_sys_ns` the hardware timestamp
/// translated into the system clock domain (frequently unsupported by the
/// driver and then zero), `hw_raw_ns` the raw hardware timestamp. A field of
/// zero means "not supplied", not a real zero time.
#[derive(Clone, Copy, PartialEq, Eq, Structural, Debug)]
pub struct RxTimestamps {
    pub sw_ns: u64,
    pub hw_sys_ns: u64,
    pub hw_raw_ns: u64,
}

pub const NS_PER_SEC: u64 = 1_000_000_000;

/// Socket-option bit: generate hardware RX timestamps.
pub const SOF_TIMESTAMPING_RX_HARDWARE: u32 = 4;

/// Socket-option bit: generate software RX timestamps.
pub const SOF_TIMESTAMPING_RX_SOFTWARE: u32 = 8;

/// Socket-option bit: report software timestamps.
pub const SOF_TIMESTAMPING_SOFTWARE: u32 = 16;

/// Socket-option bit: report hardware timestamps converted to the system
/// clock domain (best-effort; many drivers leave the record zero).
pub const SOF_TIMESTAMPING_SYS_HARDWARE: u32 = 32;

/// Socket-option bit: report raw hardware timestamps.
pub const SOF_TIMESTAMPING_RAW_HARDWARE: u32 = 64;

/// The bitmask a capture socket is enabled with, set once before the first
/// read: hardware and software RX generation, and software, system-domain and
/// raw-hardware reporting. The bits are distinct powers of two, so their sum
/// is their union.
pub fn rx_timestamping_flags() -> (r: u32)
    ensures
        r == SOF_TIMESTAMPING_RX_HARDWARE + SOF_TIMESTAMPING_RX_SOFTWARE
            + SOF_TIMESTAMPING_SOFTWARE + SOF_TIMESTAMPING_SYS_HARDWARE
            + SOF_TIMESTAMPING_RAW_HARDWARE,
{
    SOF_TIMESTAMPING_RX_HARDWARE + SOF_TIMESTAMPING_RX_SOFTWARE + SOF_TIMESTAMPING_SOFTWARE
        + SOF_TIMESTAMPING_SYS_HARDWARE + SOF_TIMESTAMPING_RAW_HARDWARE
}

/// Bytes of one kernel time record: two 64-bit little-endian words.
pub const TIME_RECORD_LEN: usize = 16;

/// The nanosecond count that a (seconds, nanoseconds) record stands for:
/// `sec * 1e9 + nsec`, saturating at `u64::MAX`; the all-zero record is the
/// "not supplied" sentinel and stands for zero.
pub open spec fn ns_of_pair(sec: u64, nsec: u64) -> u64 {
    if sec == 0 && nsec == 0 {
        0
    } else if sec * NS_PER_SEC + nsec > u64::MAX {
        u64::MAX
    } else {
        (sec * NS_PER_SEC + nsec) as u64
    }
}

/// Converts one (seconds, nanoseconds) record to nanoseconds, saturating.
pub fn ns_from_pair(sec: u64, nsec: u64) -> (r: u64)
    ensures
        r == ns_of_pair(sec, nsec),
{
    if sec == 0 && nsec == 0 {
        0
    } else if sec > u64::MAX / NS_PER_SEC {
        proof {
            assert(sec * NS_PER_SEC + nsec > u64::MAX) by (nonlinear_arith)
                requires
                    sec > u64::MAX / NS_PER_SEC,
            ;
        }
        u64::MAX
    } else {
        proof {
            assert(sec * NS_PER_SEC <= u64::MAX) by (nonlinear_arith)
                requires
                    sec <= u64::MAX / NS_PER_SEC,
            ;
        }
        let whole: u64 = sec * NS_PER_SEC;
        if nsec > u64::MAX - whole {
            u64::MAX
        } else {
            whole + nsec
        }
    }
}

/// The 64-bit little-endian word starting at `off`.
pub open spec fn le64_at(b: Seq<u8>, off: int) -> u64 {
    spec_u64_from_le_bytes(b.subrange(off, off + 8))
}

/// The nanosecond count of the time record starting at `off`.
pub open spec fn record_ns_at(b: Seq<u8>, off: int) -> u64 {
    ns_of_pair(le64_at(b, off), le64_at(b, off + 8))
}

/// The timestamps that three (seconds, nanoseconds) records stand for, in
/// payload order: software, hardware in the system domain, raw hardware.
pub open spec fn pairs_to_timestamps(
    sw_sec: u64,
    sw_nsec: u64,
    hw_sys_sec: u64,
    hw_sys_nsec: u64,
    hw_raw_sec: u64,
    hw_raw_nsec: u64,
) -> RxTimestamps {
    RxTimestamps {
        sw_ns: ns_of_pair(sw_sec, sw_nsec),
        hw_sys_ns: ns_of_pair(hw_sys_sec, hw_sys_nsec),
        hw_raw_ns: ns_of_pair(hw_raw_sec, hw_raw_nsec),
    }
}

/// The byte encoding of a (seconds, nanoseconds) record.
pub open spec fn spec_encode_record(sec: u64, nsec: u64) -> Seq<u8> {
    spec_u64_to_le_bytes(sec) + spec_u64_to_le_bytes(nsec)
}

/// Encodes a (seconds, nanoseconds) record as the kernel lays it out.
pub fn encode_record(sec: u64, nsec: u64) -> (r: Vec<u8>)
    ensures
        r@ == spec_encode_record(sec, nsec),
        r@.len() == TIME_RECORD_LEN,
{
    let mut out = u64_to_le_bytes(sec);
    let mut tail = u64_to_le_bytes(nsec);
    out.append(&mut tail);
    out
}

/// Law: decoding an encoded (seconds, nanoseconds) record yields exactly
/// `sec * 1e9 + nsec` nanoseconds, saturating (not wrapping) at `u64::MAX`.
pub proof fn lemma_record_round_trip(sec: u64, nsec: u64)
    ensures
        record_ns_at(spec_encode_record(sec, nsec), 0) == ns_of_pair(sec, nsec),
        !(sec == 0 && nsec == 0) && sec * NS_PER_SEC + nsec <= u64::MAX ==> record_ns_at(
            spec_encode_record(sec, nsec),
            0,
        ) == sec * NS_PER_SEC + nsec,
        sec * NS_PER_SEC + nsec > u64::MAX ==> record_ns_at(spec_encode_record(sec, nsec), 0)
            == u64::MAX,
{
    vstd::bytes::lemma_auto_spec_u64_to_from_le_bytes();
    let enc = spec_encode_record(sec, nsec);
    assert(enc.subrange(0, 8) =~= spec_u64_to_le_bytes(sec));
    assert(enc.subrange(8, 16) =~= spec_u64_to_le_bytes(nsec));
}

} // verus!
