use rxstamp::cmsg::encode_timestamping_control;
use rxstamp::stream::{
    ConnectionInfo, ConnectionInfoProvider, OsError, RxTimestamped, Selectable,
    TimestampingStream,
};
use rxstamp::timestamps::RxTimestamps;

struct FakeTransport {
    connected_now: bool,
    info: ConnectionInfo,
}

impl Selectable for FakeTransport {
    fn connected(&mut self) -> Result<bool, OsError> {
        Ok(self.connected_now)
    }

    fn make_writable(&mut self) -> Result<(), OsError> {
        Ok(())
    }

    fn make_readable(&mut self) -> Result<(), OsError> {
        Ok(())
    }
}

impl ConnectionInfoProvider for FakeTransport {
    fn connection_info(&self) -> &ConnectionInfo {
        &self.info
    }
}

#[test]
fn capabilities_delegate_through_the_capture_layer() {
    let transport = FakeTransport {
        connected_now: true,
        info: ConnectionInfo {
            host: "feed.example".to_string(),
            port: 443,
            receive_cpu: Some(3),
        },
    };
    let mut s = TimestampingStream::new(transport);
    assert_eq!(s.connected(), Ok(true));
    assert_eq!(s.make_readable(), Ok(()));
    assert_eq!(s.make_writable(), Ok(()));
    assert_eq!(s.connection_info().host, "feed.example");
    assert_eq!(s.connection_info().port, 443);
    assert_eq!(s.connection_info().receive_cpu, Some(3));
    s.inner_mut().connected_now = false;
    assert_eq!(s.connected(), Ok(false));
}

#[test]
fn new_stream_has_no_timestamps() {
    let s: TimestampingStream<u32> = TimestampingStream::new(7);
    assert_eq!(s.last_rx_timestamps(), None);
}

#[test]
fn inner_accessors_expose_the_wrapped_layer() {
    let mut s: TimestampingStream<u32> = TimestampingStream::new(7);
    assert_eq!(*s.inner_ref(), 7);
    *s.inner_mut() = 9;
    assert_eq!(*s.inner_ref(), 9);
    assert_eq!(s.into_inner(), 9);
}

#[test]
fn read_with_entry_caches_timestamps() {
    let mut s: TimestampingStream<u32> = TimestampingStream::new(0);
    let ctrl = encode_timestamping_control(3, 0, 0, 0, 4, 0);
    s.record_read(100, &ctrl);
    assert_eq!(
        s.last_rx_timestamps(),
        Some(RxTimestamps { sw_ns: 3_000_000_000, hw_sys_ns: 0, hw_raw_ns: 4_000_000_000 })
    );
}

#[test]
fn read_without_entry_leaves_cache_absent_not_stale() {
    let mut s: TimestampingStream<u32> = TimestampingStream::new(0);
    let ctrl = encode_timestamping_control(3, 0, 0, 0, 4, 0);
    s.record_read(100, &ctrl);
    assert!(s.last_rx_timestamps().is_some());
    // The next read found no timestamping entry: the cache must become
    // absent, never keep the previous read's value.
    s.record_read(50, &[]);
    assert_eq!(s.last_rx_timestamps(), None);
}

#[test]
fn zero_byte_read_clears_cache_unconditionally() {
    let mut s: TimestampingStream<u32> = TimestampingStream::new(0);
    let ctrl = encode_timestamping_control(3, 0, 0, 0, 4, 0);
    s.record_read(100, &ctrl);
    assert!(s.last_rx_timestamps().is_some());
    // End of stream clears the cache even though the control bytes passed
    // alongside hold a valid entry.
    s.record_read(0, &ctrl);
    assert_eq!(s.last_rx_timestamps(), None);
}

#[test]
fn take_empties_the_slot() {
    let mut s: TimestampingStream<u32> = TimestampingStream::new(0);
    let ctrl = encode_timestamping_control(0, 5, 0, 0, 0, 0);
    s.record_read(10, &ctrl);
    let taken = s.take_last_rx_timestamps();
    assert_eq!(taken, Some(RxTimestamps { sw_ns: 5, hw_sys_ns: 0, hw_raw_ns: 0 }));
    assert_eq!(s.last_rx_timestamps(), None);
    assert_eq!(s.take_last_rx_timestamps(), None);
}

#[test]
fn three_reads_observed_in_sequence() {
    // Three successive reads: raw-hardware 1s, no entry, raw-hardware 2s.
    let mut s: TimestampingStream<u32> = TimestampingStream::new(0);
    let mut observed: Vec<(bool, u64)> = Vec::new();

    let first = encode_timestamping_control(0, 0, 0, 0, 1, 0);
    s.record_read(64, &first);
    let ts = s.last_rx_timestamps();
    observed.push((ts.is_some(), ts.map(|t| t.hw_raw_ns).unwrap_or(0)));

    s.record_read(64, &[]);
    let ts = s.last_rx_timestamps();
    observed.push((ts.is_some(), ts.map(|t| t.hw_raw_ns).unwrap_or(0)));

    let third = encode_timestamping_control(0, 0, 0, 0, 2, 0);
    s.record_read(64, &third);
    let ts = s.last_rx_timestamps();
    observed.push((ts.is_some(), ts.map(|t| t.hw_raw_ns).unwrap_or(0)));

    assert_eq!(
        observed,
        vec![(true, 1_000_000_000), (false, 0), (true, 2_000_000_000)]
    );
}
