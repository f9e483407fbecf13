use duplex_forward::{pair_len, Forwarder, ForwarderError, Phase, Progress, TickOutcome};
use std::io::{Error, ErrorKind};

/// Drives a forwarder against a source that yields `chunks` then end of input,
/// and a sink that accepts at most `max_write` bytes per attempt.
fn drive(cap: usize, chunks: &[&[u8]], max_write: usize) -> (Vec<u8>, Result<(), ForwarderError>) {
    let mut f = Forwarder::new(vec![0; cap]);
    let mut pending: Vec<u8> = Vec::new();
    let mut next_chunk = 0;
    let mut sink = Vec::new();
    for _ in 0..10_000 {
        let room = f.read_room();
        if room > 0 {
            if pending.is_empty() && next_chunk < chunks.len() {
                pending = chunks[next_chunk].to_vec();
                next_chunk += 1;
            }
            let n = room.min(pending.len());
            let data: Vec<u8> = pending.drain(..n).collect();
            if let Err(e) = f.on_read(Progress::Moved(n), &data) {
                return (sink, Err(e));
            }
        }
        let segs = f.write_segments();
        let len = pair_len(&segs);
        if len > 0 {
            let bytes: Vec<u8> = segs[0].iter().chain(segs[1].iter()).copied().collect();
            let n = len.min(max_write);
            sink.extend_from_slice(&bytes[..n]);
            if let Err(e) = f.on_write(Progress::Moved(n)) {
                return (sink, Err(e));
            }
        }
        let room = f.read_room();
        let filled = pair_len(&f.write_segments());
        assert!(f.phase() != Phase::Active || room + filled == cap);
        if f.finish_tick() == TickOutcome::Finished {
            assert_eq!(f.phase(), Phase::Done);
            return (sink, Ok(()));
        }
    }
    panic!("forwarding did not finish");
}

#[test]
fn two_chunks_through_one_byte_sink() {
    let (sink, result) = drive(4, &[b"AB", b"CD"], 1);
    assert!(result.is_ok());
    assert_eq!(sink, b"ABCD");
}

#[test]
fn long_stream_keeps_order_under_any_chunking() {
    let data: Vec<u8> = (0..200u32).map(|i| (i * 7 % 251) as u8).collect();
    let chunks: Vec<&[u8]> = data.chunks(13).collect();
    for cap in [1, 3, 4, 16, 64] {
        for max_write in [1, 2, 5, 100] {
            let (sink, result) = drive(cap, &chunks, max_write);
            assert!(result.is_ok());
            assert_eq!(sink, data);
        }
    }
}

#[test]
fn empty_source_finishes_at_once() {
    let (sink, result) = drive(4, &[], 4);
    assert!(result.is_ok());
    assert!(sink.is_empty());
}

#[test]
fn fill_to_full_then_drain_to_done() {
    let mut f = Forwarder::new(vec![0; 4]);
    assert_eq!(f.phase(), Phase::Active);
    assert_eq!(f.read_room(), 4);
    assert!(f.on_read(Progress::Moved(4), b"WXYZ").is_ok());
    assert_eq!(f.read_room(), 0);
    assert_eq!(pair_len(&f.write_segments()), 4);
    assert!(f.on_write(Progress::NotReady).is_ok());
    assert_eq!(f.finish_tick(), TickOutcome::Wait);

    // full: no read this tick
    assert_eq!(f.read_room(), 0);
    let segs = f.write_segments();
    assert_eq!(segs[0], b"WXYZ");
    assert!(f.on_write(Progress::Moved(2)).is_ok());
    assert_eq!(f.finish_tick(), TickOutcome::WakeNow);

    assert_eq!(f.read_room(), 2);
    assert!(f.on_read(Progress::Moved(0), b"").is_ok());
    assert_eq!(f.phase(), Phase::Draining);
    assert_eq!(f.read_room(), 0);
    let segs = f.write_segments();
    assert_eq!(segs[0], b"YZ");
    assert!(f.on_write(Progress::Moved(2)).is_ok());
    assert_eq!(pair_len(&f.write_segments()), 0);
    assert_eq!(f.finish_tick(), TickOutcome::Finished);
    assert_eq!(f.phase(), Phase::Done);
    assert_eq!(f.read_room(), 0);
    assert_eq!(pair_len(&f.write_segments()), 0);
}

#[test]
fn sink_accepting_nothing_closes_early() {
    let mut f = Forwarder::new(vec![0; 4]);
    assert!(f.on_read(Progress::Moved(4), b"ABCD").is_ok());
    let r = f.on_write(Progress::Moved(0));
    assert!(matches!(r, Err(ForwarderError::WriteClosedEarly)));
    assert_eq!(f.phase(), Phase::Failed);
    assert_eq!(f.read_room(), 0);
    assert_eq!(pair_len(&f.write_segments()), 0);
    let err = r.unwrap_err().into_io_error();
    assert_eq!(err.kind(), ErrorKind::WriteZero);
}

#[test]
fn read_failure_is_tagged() {
    let mut f = Forwarder::new(vec![0; 4]);
    let r = f.on_read(Progress::Failed(Error::new(ErrorKind::ConnectionReset, "reset")), b"");
    assert!(matches!(r, Err(ForwarderError::Read(_))));
    assert_eq!(f.phase(), Phase::Failed);
    let err = r.unwrap_err().into_io_error();
    assert_eq!(err.kind(), ErrorKind::ConnectionReset);
}

#[test]
fn write_failure_is_tagged() {
    let mut f = Forwarder::new(vec![0; 4]);
    assert!(f.on_read(Progress::Moved(1), b"A").is_ok());
    let r = f.on_write(Progress::Failed(Error::new(ErrorKind::BrokenPipe, "pipe")));
    assert!(matches!(r, Err(ForwarderError::Write(_))));
    assert_eq!(f.phase(), Phase::Failed);
    let err = r.unwrap_err().into_io_error();
    assert_eq!(err.kind(), ErrorKind::BrokenPipe);
}

#[test]
fn interrupted_read_retries_without_loss() {
    let mut f = Forwarder::new(vec![0; 4]);
    assert!(f.on_read(Progress::Interrupted, b"").is_ok());
    assert_eq!(f.finish_tick(), TickOutcome::WakeNow);
    assert_eq!(f.read_room(), 4);
    assert_eq!(pair_len(&f.write_segments()), 0);
    assert!(f.on_read(Progress::Moved(2), b"hi").is_ok());
    assert_eq!(f.write_segments()[0], b"hi");
}

#[test]
fn interrupted_write_retries_without_loss() {
    let mut f = Forwarder::new(vec![0; 4]);
    assert!(f.on_read(Progress::Moved(4), b"abcd").is_ok());
    assert_eq!(f.finish_tick(), TickOutcome::Wait);
    assert!(f.on_write(Progress::Interrupted).is_ok());
    assert_eq!(f.finish_tick(), TickOutcome::WakeNow);
    assert_eq!(f.write_segments()[0], b"abcd");
    assert!(f.on_write(Progress::Moved(3)).is_ok());
    assert_eq!(f.write_segments()[0], b"d");
}

#[test]
fn not_ready_endpoints_wait_for_a_signal() {
    let mut f = Forwarder::new(vec![0; 4]);
    assert!(f.on_read(Progress::NotReady, b"").is_ok());
    assert_eq!(f.finish_tick(), TickOutcome::Wait);
    assert!(f.on_read(Progress::Moved(2), b"ab").is_ok());
    assert!(f.on_write(Progress::NotReady).is_ok());
    // the read made progress and there is still room
    assert_eq!(f.finish_tick(), TickOutcome::WakeNow);
}

#[test]
fn progress_in_one_direction_wakes_only_if_that_direction_is_still_ready() {
    let mut f = Forwarder::new(vec![0; 2]);
    assert!(f.on_read(Progress::Moved(2), b"ab").is_ok());
    // read progressed but the buffer is now full; write progress was none
    assert!(f.on_write(Progress::NotReady).is_ok());
    assert_eq!(f.finish_tick(), TickOutcome::Wait);
    assert!(f.on_write(Progress::Moved(2)).is_ok());
    // write progressed but nothing is left to write
    assert_eq!(f.finish_tick(), TickOutcome::Wait);
}
