use leaf::copy::{CopyBuffer, CopyError, CopyStep};
use leaf::relay::{CopyBidirectional, Direction, TransferPhase};

/// Drives a copy machine over scripted reader chunks, collecting everything
/// the writer accepts, and returns (total, written bytes).
fn run_copy(chunks: &[&[u8]]) -> (u64, Vec<u8>) {
    let mut cb = CopyBuffer::new();
    let mut written: Vec<u8> = Vec::new();
    let mut next_chunk = 0;
    loop {
        match cb.next_step() {
            CopyStep::Read => {
                if next_chunk < chunks.len() {
                    cb.on_read(chunks[next_chunk]);
                    next_chunk += 1;
                } else {
                    cb.on_read(&[]);
                }
            }
            CopyStep::Write => {
                let chunk = cb.write_chunk();
                written.extend_from_slice(&chunk);
                cb.on_write(chunk.len()).expect("writer accepted all bytes");
            }
            CopyStep::FlushAndFinish => {
                return (cb.finish(), written);
            }
        }
    }
}

#[test]
fn copy_conservation_single_chunk() {
    let (total, written) = run_copy(&[b"hello"]);
    assert_eq!(total, 5);
    assert_eq!(written, b"hello".to_vec());
}

#[test]
fn copy_conservation_multiple_chunks() {
    let (total, written) = run_copy(&[b"hel", b"lo ", b"world"]);
    assert_eq!(total, 11);
    assert_eq!(written, b"hello world".to_vec());
}

#[test]
fn copy_conservation_empty_input() {
    let (total, written) = run_copy(&[]);
    assert_eq!(total, 0);
    assert!(written.is_empty());
}

#[test]
fn copy_partial_writes_preserve_bytes() {
    let mut cb = CopyBuffer::new();
    let mut written: Vec<u8> = Vec::new();
    cb.on_read(b"abcdef");
    // The writer takes the bytes two at a time.
    while let CopyStep::Write = cb.next_step() {
        let chunk = cb.write_chunk();
        let n = chunk.len().min(2);
        written.extend_from_slice(&chunk[..n]);
        cb.on_write(n).unwrap();
    }
    cb.on_read(&[]);
    assert_eq!(cb.finish(), 6);
    assert_eq!(written, b"abcdef".to_vec());
}

#[test]
fn zero_write_is_fatal() {
    let mut cb = CopyBuffer::new();
    cb.on_read(b"ab");
    assert!(matches!(cb.next_step(), CopyStep::Write));
    let r = cb.on_write(0);
    assert_eq!(r, Err(CopyError::WriteZero));
    // The state is untouched: the bytes are still pending, nothing counted.
    assert!(matches!(cb.next_step(), CopyStep::Write));
    assert_eq!(cb.write_chunk(), b"ab".to_vec());
    assert_eq!(cb.amount_transfered(), 0);
}

#[test]
fn flush_on_read_pending() {
    let mut cb = CopyBuffer::new();
    // A write leaves data buffered unflushed in the writer.
    cb.on_read(b"ab");
    cb.write_chunk();
    cb.on_write(2).unwrap();
    // The next read would block; a flush must be driven first.
    assert!(matches!(cb.next_step(), CopyStep::Read));
    assert!(cb.flush_before_pending());
    cb.on_flush();
    // Only then may the copy report itself blocked.
    assert!(!cb.flush_before_pending());
}

#[test]
fn no_read_requested_after_eof() {
    let mut cb = CopyBuffer::new();
    cb.on_read(&[]);
    assert!(matches!(cb.next_step(), CopyStep::FlushAndFinish));
}

#[test]
fn new_with_capacity_sets_buffer_size() {
    let cb = CopyBuffer::new_with_capacity(4096);
    assert_eq!(cb.buffer_capacity(), 4096);
    let cb2 = CopyBuffer::new();
    assert_eq!(cb2.buffer_capacity(), 2048);
}

/// Pumps one chunk through a running direction of the relay until its
/// buffer drains, returning the bytes the writer accepted.
fn pump(relay: &mut CopyBidirectional, d: Direction, chunk: &[u8]) -> Vec<u8> {
    let mut written = Vec::new();
    let buf = relay.buffer_mut(d);
    buf.on_read(chunk);
    while let CopyStep::Write = buf.next_step() {
        let bytes = buf.write_chunk();
        written.extend_from_slice(&bytes);
        buf.on_write(bytes.len()).unwrap();
    }
    written
}

#[test]
fn relay_half_close_arms_peer_timer() {
    let mut relay = CopyBidirectional::new(2048, 2, 4);
    assert!(!relay.delay_is_armed(Direction::AToB));
    assert!(!relay.delay_is_armed(Direction::BToA));

    // Uplink carries five bytes, then sees end of input.
    let up = pump(&mut relay, Direction::AToB, b"hello");
    assert_eq!(up, b"hello".to_vec());
    relay.buffer_mut(Direction::AToB).on_read(&[]);
    let n = relay.on_copy_eof(Direction::AToB);
    assert_eq!(n, 5);
    assert!(matches!(relay.phase(Direction::AToB), TransferPhase::ShuttingDown));

    // Its shutdown resolves: the downlink's idle timer is armed with the
    // downlink grace timeout.
    relay.on_shutdown_ok(Direction::AToB);
    assert!(matches!(relay.phase(Direction::AToB), TransferPhase::Done));
    assert!(relay.delay_is_armed(Direction::BToA));
    assert_eq!(relay.timeout_secs(Direction::BToA), 4);
    assert_eq!(relay.timeout_secs(Direction::AToB), 2);
    assert!(!relay.both_done());

    // The downlink keeps producing; its timer fires and forces shutdown
    // with whatever it transferred so far.
    let down = pump(&mut relay, Direction::BToA, b"abc");
    assert_eq!(down, b"abc".to_vec());
    relay.on_timeout(Direction::BToA);
    assert!(matches!(relay.phase(Direction::BToA), TransferPhase::ShuttingDown));
    relay.on_shutdown_ok(Direction::BToA);

    assert!(relay.both_done());
    assert_eq!(relay.totals(), (5, 3));
}

#[test]
fn relay_both_directions_complete_normally() {
    let mut relay = CopyBidirectional::new(2048, 2, 4);
    let up = pump(&mut relay, Direction::AToB, b"ping");
    let down = pump(&mut relay, Direction::BToA, b"pong!");
    assert_eq!(up, b"ping".to_vec());
    assert_eq!(down, b"pong!".to_vec());
    relay.buffer_mut(Direction::AToB).on_read(&[]);
    relay.on_copy_eof(Direction::AToB);
    relay.on_shutdown_ok(Direction::AToB);
    relay.buffer_mut(Direction::BToA).on_read(&[]);
    relay.on_copy_eof(Direction::BToA);
    relay.on_shutdown_ok(Direction::BToA);
    assert!(relay.both_done());
    assert_eq!(relay.totals(), (4, 5));
    // Each completed shutdown armed the opposite timer.
    assert!(relay.delay_is_armed(Direction::AToB));
    assert!(relay.delay_is_armed(Direction::BToA));
}

#[test]
fn direction_opposite_swaps() {
    assert_eq!(Direction::AToB.opposite(), Direction::BToA);
    assert_eq!(Direction::BToA.opposite(), Direction::AToB);
}
