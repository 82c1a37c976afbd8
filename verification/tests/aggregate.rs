use bytes::Bytes;
use http_ext::aggregate::Aggregate;
use std::io::IoSlice;

fn filled(chunks: &[&'static [u8]]) -> Aggregate {
    let mut buf = Aggregate::new();
    for c in chunks {
        buf.push(Bytes::from_static(c));
    }
    buf
}

fn drain(buf: &mut Aggregate) -> Vec<u8> {
    let mut out = Vec::new();
    loop {
        let seen = buf.chunk().to_vec();
        if seen.is_empty() {
            break;
        }
        buf.advance(seen.len());
        out.extend_from_slice(&seen);
    }
    out
}

#[test]
fn new_buffer_is_empty() {
    let buf = Aggregate::new();
    assert_eq!(buf.bufs_cnt(), 0);
    assert_eq!(buf.remaining(), 0);
    assert_eq!(buf.chunk(), b"");
}

#[test]
fn push_keeps_arrival_order() {
    let mut buf = filled(&[b"abc", b"de", b"fghi"]);
    assert_eq!(buf.bufs_cnt(), 3);
    assert_eq!(buf.remaining(), 9);
    assert_eq!(buf.chunk(), b"abc");
    assert_eq!(drain(&mut buf), b"abcdefghi".to_vec());
    assert_eq!(buf.bufs_cnt(), 0);
    assert_eq!(buf.remaining(), 0);
}

#[test]
fn advance_zero_changes_nothing() {
    let mut buf = filled(&[b"abc", b"de"]);
    buf.advance(0);
    assert_eq!(buf.remaining(), 5);
    assert_eq!(buf.bufs_cnt(), 2);
    assert_eq!(buf.chunk(), b"abc");
    let mut empty = Aggregate::new();
    empty.advance(0);
    assert_eq!(empty.remaining(), 0);
    assert_eq!(empty.bufs_cnt(), 0);
}

#[test]
fn advance_inside_front_chunk() {
    let mut buf = filled(&[b"abc", b"de"]);
    buf.advance(2);
    assert_eq!(buf.bufs_cnt(), 2);
    assert_eq!(buf.remaining(), 3);
    assert_eq!(buf.chunk(), b"c");
}

#[test]
fn advance_to_chunk_boundary_pops_the_chunk() {
    let mut buf = filled(&[b"abc", b"de"]);
    buf.advance(3);
    assert_eq!(buf.bufs_cnt(), 1);
    assert_eq!(buf.remaining(), 2);
    assert_eq!(buf.chunk(), b"de");
}

#[test]
fn advance_across_chunks() {
    let mut buf = filled(&[b"abc", b"de", b"fghi"]);
    buf.advance(6);
    assert_eq!(buf.bufs_cnt(), 1);
    assert_eq!(buf.remaining(), 3);
    assert_eq!(buf.chunk(), b"ghi");
    buf.advance(3);
    assert_eq!(buf.bufs_cnt(), 0);
    assert_eq!(buf.chunk(), b"");
}

#[test]
fn copy_of_exact_front_chunk_pops_it() {
    let mut buf = filled(&[b"abc", b"de"]);
    let out = buf.copy_to_bytes(3);
    assert_eq!(&out[..], b"abc");
    assert_eq!(buf.bufs_cnt(), 1);
    assert_eq!(buf.remaining(), 2);
    assert_eq!(buf.chunk(), b"de");
}

#[test]
fn copy_of_exact_front_chunk_shares_its_storage() {
    let first = Bytes::from(b"abc".to_vec());
    let at = first.as_ptr();
    let mut buf = Aggregate::new();
    buf.push(first);
    buf.push(Bytes::from_static(b"de"));
    let out = buf.copy_to_bytes(3);
    assert_eq!(out.as_ptr(), at);
}

#[test]
fn copy_inside_front_chunk_keeps_the_tail() {
    let mut buf = filled(&[b"abcdef", b"gh"]);
    let out = buf.copy_to_bytes(4);
    assert_eq!(&out[..], b"abcd");
    assert_eq!(buf.bufs_cnt(), 2);
    assert_eq!(buf.remaining(), 4);
    assert_eq!(buf.chunk(), b"ef");
}

#[test]
fn copy_across_chunks_joins_them() {
    let mut buf = filled(&[b"abc", b"de", b"fghi"]);
    let out = buf.copy_to_bytes(7);
    assert_eq!(&out[..], b"abcdefg");
    assert_eq!(buf.remaining(), 2);
    assert_eq!(buf.bufs_cnt(), 1);
    assert_eq!(buf.chunk(), b"hi");
}

#[test]
fn copy_across_chunks_to_the_end() {
    let mut buf = filled(&[b"abc", b"de"]);
    let out = buf.copy_to_bytes(5);
    assert_eq!(&out[..], b"abcde");
    assert_eq!(buf.remaining(), 0);
    assert_eq!(buf.bufs_cnt(), 0);
}

#[test]
fn copy_of_nothing() {
    let mut buf = filled(&[b"abc"]);
    let out = buf.copy_to_bytes(0);
    assert!(out.is_empty());
    assert_eq!(buf.remaining(), 3);
    assert_eq!(buf.bufs_cnt(), 1);
    let mut empty = Aggregate::new();
    let out = empty.copy_to_bytes(0);
    assert!(out.is_empty());
    assert_eq!(empty.bufs_cnt(), 0);
}

#[test]
fn vectored_read_fills_two_of_three() {
    let buf = filled(&[b"abc", b"defgh", b"ij"]);
    let mut dst = [IoSlice::new(b"?"), IoSlice::new(b"?")];
    let n = buf.chunks_vectored(&mut dst);
    assert_eq!(n, 2);
    assert_eq!(&*dst[0], b"abc");
    assert_eq!(&*dst[1], b"defgh");
}

#[test]
fn vectored_read_stops_when_chunks_run_out() {
    let buf = filled(&[b"abc", b"de"]);
    let mut dst = [IoSlice::new(b"?"), IoSlice::new(b"?"), IoSlice::new(b"?")];
    let n = buf.chunks_vectored(&mut dst);
    assert_eq!(n, 2);
    assert_eq!(&*dst[0], b"abc");
    assert_eq!(&*dst[1], b"de");
    assert_eq!(&*dst[2], b"?");
}

#[test]
fn vectored_read_without_slots() {
    let buf = filled(&[b"abc"]);
    let mut dst: [IoSlice; 0] = [];
    assert_eq!(buf.chunks_vectored(&mut dst), 0);
    let empty = Aggregate::new();
    assert_eq!(empty.chunks_vectored(&mut dst), 0);
    assert_eq!(empty.remaining(), 0);
}

#[test]
fn checked_remaining_is_the_sum() {
    let buf = filled(&[b"abc", b"defgh", b"ij"]);
    assert_eq!(buf.checked_remaining(), Some(10));
    assert_eq!(Aggregate::new().checked_remaining(), Some(0));
}

#[test]
fn short_chunks_fit_their_slots() {
    let buf = filled(&[b"abc", b"defgh", b"ij"]);
    assert!(buf.fits_slots(0));
    assert!(buf.fits_slots(2));
    assert!(buf.fits_slots(8));
    assert!(Aggregate::new().fits_slots(4));
}

#[test]
fn advancing_in_steps_is_advancing_at_once() {
    let mut stepped = filled(&[b"abc", b"defgh", b"ij"]);
    stepped.advance(2);
    stepped.advance(4);
    let mut at_once = filled(&[b"abc", b"defgh", b"ij"]);
    at_once.advance(6);
    assert_eq!(stepped.bufs_cnt(), at_once.bufs_cnt());
    assert_eq!(stepped.bufs_cnt(), 2);
    assert_eq!(stepped.chunk(), at_once.chunk());
    assert_eq!(stepped.chunk(), b"gh");
    assert_eq!(drain(&mut stepped), drain(&mut at_once));
}

#[test]
fn front_chunk_begins_the_unread_bytes() {
    let mut buf = filled(&[b"abc", b"defgh", b"ij"]);
    let all = b"abcdefghij";
    let mut read = 0;
    while buf.remaining() > 0 {
        let seen = buf.chunk().len();
        assert!(seen > 0);
        assert_eq!(buf.chunk(), &all[read..read + seen]);
        buf.advance(1);
        read += 1;
    }
    assert_eq!(read, 10);
}
