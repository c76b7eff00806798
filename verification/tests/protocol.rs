use bytes::{Buf, BufMut, BytesMut};
use echo_supervisor::buffer::{append, new_buffer, BUFFER_SIZE};
use echo_supervisor::protocol::{Connection, Outcome, Request, Stage};
use echo_supervisor::suffix::suffix;

/// Stands in for the peer and the socket: delivers `chunk` as one read and
/// collects everything the handler then asks to have written, `step` bytes at
/// a time.
fn exchange(
    conn: &mut Connection,
    buf: &mut BytesMut,
    suffix: &[u8],
    chunk: &[u8],
    step: usize,
) -> Vec<u8> {
    assert_eq!(conn.pending(), Request::Read);
    buf.put_slice(chunk);
    let mut sent = Vec::new();
    let mut request = conn.step(Outcome::Read(chunk.len()), buf, suffix);
    while request == Request::Write {
        let n = step.min(buf.len());
        sent.extend_from_slice(&buf[..n]);
        buf.advance(n);
        request = conn.step(Outcome::Written, buf, suffix);
    }
    sent
}

#[test]
fn echo_of_hi_is_hi_and_suffix() {
    let suffix = suffix(4242);
    let mut buf = new_buffer();
    let mut conn = Connection::new();
    let sent = exchange(&mut conn, &mut buf, &suffix, b"hi", usize::MAX);
    assert_eq!(sent, b"hi: from 4242\n".to_vec());
    assert_eq!(conn.stage(), Stage::Reading);
    assert!(buf.is_empty());
}

#[test]
fn every_cycle_echoes_its_own_chunk() {
    let suffix = suffix(7);
    let mut buf = new_buffer();
    let mut conn = Connection::new();
    assert_eq!(exchange(&mut conn, &mut buf, &suffix, b"one", usize::MAX), b"one: from 7\n".to_vec());
    assert_eq!(exchange(&mut conn, &mut buf, &suffix, b"two\n", usize::MAX), b"two\n: from 7\n".to_vec());
    assert_eq!(exchange(&mut conn, &mut buf, &suffix, &[0u8, 255, 10], usize::MAX), {
        let mut want = vec![0u8, 255, 10];
        want.extend_from_slice(b": from 7\n");
        want
    });
    assert_eq!(conn.pending(), Request::Read);
}

#[test]
fn reply_is_written_in_full_before_the_next_read() {
    let suffix = suffix(31);
    let mut buf = new_buffer();
    let mut conn = Connection::new();
    buf.put_slice(b"abcdef");
    assert_eq!(conn.step(Outcome::Read(6), &mut buf, &suffix), Request::Write);
    assert_eq!(&buf[..], b"abcdef: from 31\n");
    buf.advance(4);
    assert_eq!(conn.step(Outcome::Written, &mut buf, &suffix), Request::Write);
    assert_eq!(conn.stage(), Stage::Writing);
    assert_eq!(&buf[..], b"ef: from 31\n");
    buf.advance(buf.len());
    assert_eq!(conn.step(Outcome::Written, &mut buf, &suffix), Request::Read);
    assert_eq!(conn.stage(), Stage::Reading);
}

#[test]
fn echo_survives_writes_of_one_byte() {
    let suffix = suffix(123456);
    let mut buf = new_buffer();
    let mut conn = Connection::new();
    let sent = exchange(&mut conn, &mut buf, &suffix, b"slow peer", 1);
    assert_eq!(sent, b"slow peer: from 123456\n".to_vec());
}

#[test]
fn chunk_larger_than_the_initial_buffer_is_echoed() {
    let suffix = suffix(1);
    let mut buf = new_buffer();
    let mut conn = Connection::new();
    let chunk = vec![b'x'; 3 * BUFFER_SIZE + 5];
    let sent = exchange(&mut conn, &mut buf, &suffix, &chunk, 1000);
    let mut want = chunk.clone();
    want.extend_from_slice(b": from 1\n");
    assert_eq!(sent, want);
}

#[test]
fn empty_read_closes_without_output() {
    let suffix = suffix(4242);
    let mut buf = new_buffer();
    let mut conn = Connection::new();
    assert_eq!(conn.step(Outcome::Read(0), &mut buf, &suffix), Request::Finish);
    assert_eq!(conn.stage(), Stage::Closed);
    assert!(conn.is_finished());
    assert!(buf.is_empty());
}

#[test]
fn close_after_an_exchange_sends_nothing_more() {
    let suffix = suffix(4242);
    let mut buf = new_buffer();
    let mut conn = Connection::new();
    exchange(&mut conn, &mut buf, &suffix, b"bye", usize::MAX);
    assert_eq!(conn.step(Outcome::Read(0), &mut buf, &suffix), Request::Finish);
    assert!(buf.is_empty());
    for outcome in [Outcome::Read(5), Outcome::Read(0), Outcome::Written, Outcome::Failed] {
        assert_eq!(conn.step(outcome, &mut buf, &suffix), Request::Finish);
        assert_eq!(conn.stage(), Stage::Closed);
        assert!(buf.is_empty());
    }
}

#[test]
fn failed_read_aborts_the_connection() {
    let suffix = suffix(4242);
    let mut buf = new_buffer();
    let mut conn = Connection::new();
    assert_eq!(conn.step(Outcome::Failed, &mut buf, &suffix), Request::Abort);
    assert_eq!(conn.stage(), Stage::Failed);
    assert!(conn.is_finished());
}

#[test]
fn failed_write_aborts_and_stays_aborted() {
    let suffix = suffix(4242);
    let mut buf = new_buffer();
    let mut conn = Connection::new();
    buf.put_slice(b"lost");
    assert_eq!(conn.step(Outcome::Read(4), &mut buf, &suffix), Request::Write);
    assert_eq!(conn.step(Outcome::Failed, &mut buf, &suffix), Request::Abort);
    let held = buf.to_vec();
    for outcome in [Outcome::Read(1), Outcome::Written, Outcome::Failed] {
        assert_eq!(conn.step(outcome, &mut buf, &suffix), Request::Abort);
        assert_eq!(buf.to_vec(), held);
    }
}

#[test]
fn outcome_of_another_operation_is_ignored() {
    let suffix = suffix(4242);
    let mut buf = new_buffer();
    let mut conn = Connection::new();
    assert_eq!(conn.step(Outcome::Written, &mut buf, &suffix), Request::Read);
    assert_eq!(conn.stage(), Stage::Reading);
    buf.put_slice(b"x");
    assert_eq!(conn.step(Outcome::Read(1), &mut buf, &suffix), Request::Write);
    assert_eq!(conn.step(Outcome::Read(1), &mut buf, &suffix), Request::Write);
    assert_eq!(&buf[..], b"x: from 4242\n");
}

#[test]
fn two_connections_do_not_see_each_other() {
    let suffix = suffix(9000);
    let mut left_buf = new_buffer();
    let mut right_buf = new_buffer();
    let mut left = Connection::new();
    let mut right = Connection::new();

    left_buf.put_slice(b"left-1");
    right_buf.put_slice(b"right-1");
    assert_eq!(left.step(Outcome::Read(6), &mut left_buf, &suffix), Request::Write);
    assert_eq!(right.step(Outcome::Read(7), &mut right_buf, &suffix), Request::Write);
    assert_eq!(&right_buf[..], b"right-1: from 9000\n");
    assert_eq!(&left_buf[..], b"left-1: from 9000\n");
    right_buf.advance(right_buf.len());
    assert_eq!(right.step(Outcome::Written, &mut right_buf, &suffix), Request::Read);
    assert_eq!(left.stage(), Stage::Writing);
    left_buf.advance(left_buf.len());
    assert_eq!(left.step(Outcome::Written, &mut left_buf, &suffix), Request::Read);

    let from_right = exchange(&mut right, &mut right_buf, &suffix, b"right-2", 3);
    let from_left = exchange(&mut left, &mut left_buf, &suffix, b"left-2", 2);
    assert_eq!(from_right, b"right-2: from 9000\n".to_vec());
    assert_eq!(from_left, b"left-2: from 9000\n".to_vec());

    assert_eq!(left.step(Outcome::Read(0), &mut left_buf, &suffix), Request::Finish);
    assert_eq!(right.pending(), Request::Read);
    assert_eq!(exchange(&mut right, &mut right_buf, &suffix, b"still here", 64), b"still here: from 9000\n".to_vec());
}

#[test]
fn new_buffer_is_empty_with_room() {
    let buf = new_buffer();
    assert_eq!(buf.len(), 0);
    assert!(buf.capacity() >= BUFFER_SIZE);
    assert_eq!(BUFFER_SIZE, 1024);
}

#[test]
fn append_puts_bytes_behind_what_is_held() {
    let mut buf = new_buffer();
    assert!(append(&mut buf, b"abc"));
    assert_eq!(&buf[..], b"abc");
    assert!(append(&mut buf, b""));
    assert_eq!(&buf[..], b"abc");
    assert!(append(&mut buf, b"de"));
    assert_eq!(&buf[..], b"abcde");
}

#[test]
fn append_works_on_a_buffer_made_elsewhere() {
    let mut buf = BytesMut::new();
    assert!(append(&mut buf, b": from 1\n"));
    assert_eq!(&buf[..], b": from 1\n");
}
