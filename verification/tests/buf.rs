use aio::buf::RingBuf;

fn fill(buf: &mut RingBuf, bytes: &[u8]) -> usize {
    let region = buf.mut_bytes();
    let n = std::cmp::min(region.len(), bytes.len());
    region[..n].copy_from_slice(&bytes[..n]);
    buf.advance_writer(n);
    n
}

fn drain(buf: &mut RingBuf, max: usize) -> Vec<u8> {
    let region = buf.bytes();
    let n = std::cmp::min(region.len(), max);
    let out = region[..n].to_vec();
    buf.advance_reader(n);
    out
}

fn balanced(buf: &RingBuf) -> bool {
    buf.remaining_to_read() + buf.remaining_to_write() == buf.capacity()
}

#[test]
fn a_new_buffer_is_empty_and_zeroed() {
    let mut buf = RingBuf::new(8);
    assert_eq!(buf.capacity(), 8);
    assert_eq!(buf.remaining_to_read(), 0);
    assert_eq!(buf.remaining_to_write(), 8);
    assert!(buf.is_empty());
    assert!(!buf.is_full());
    assert!(!buf.has_remaining_to_read());
    assert!(buf.has_remaining_to_write());
    assert_eq!(buf.bytes(), b"");
    assert_eq!(buf.mut_bytes(), &[0u8; 8][..]);
}

#[test]
fn bytes_come_out_in_the_order_in_which_they_went_in() {
    let mut buf = RingBuf::new(8);
    assert_eq!(fill(&mut buf, b"abc"), 3);
    assert_eq!(fill(&mut buf, b"de"), 2);
    assert_eq!(buf.remaining_to_read(), 5);
    assert_eq!(buf.remaining_to_write(), 3);
    assert_eq!(buf.bytes(), b"abcde");
    assert_eq!(drain(&mut buf, 2), b"ab".to_vec());
    assert_eq!(buf.bytes(), b"cde");
    assert_eq!(drain(&mut buf, 100), b"cde".to_vec());
    assert!(buf.is_empty());
}

#[test]
fn the_regions_wrap_around_the_end_of_the_storage() {
    let mut buf = RingBuf::new(4);
    assert_eq!(fill(&mut buf, b"abcd"), 4);
    assert!(buf.is_full());
    assert_eq!(buf.write_room(), 0);
    assert_eq!(buf.mut_bytes().len(), 0);
    assert_eq!(drain(&mut buf, 3), b"abc".to_vec());
    // three bytes are free, at the front of the storage
    assert_eq!(buf.remaining_to_write(), 3);
    assert_eq!(buf.write_room(), 3);
    assert_eq!(fill(&mut buf, b"ef"), 2);
    // three bytes are held, one at the end of the storage and two at the front
    assert_eq!(buf.remaining_to_read(), 3);
    assert_eq!(buf.read_room(), 1);
    assert_eq!(buf.bytes(), b"d");
    assert_eq!(drain(&mut buf, 8), b"d".to_vec());
    assert_eq!(buf.bytes(), b"ef");
    assert_eq!(drain(&mut buf, 8), b"ef".to_vec());
    assert!(buf.is_empty());
    assert!(balanced(&buf));
}

#[test]
fn the_free_region_ends_at_the_end_of_the_storage() {
    let mut buf = RingBuf::new(4);
    fill(&mut buf, b"ab");
    drain(&mut buf, 2);
    // empty, with both cursors in the middle: the free region is the tail
    assert_eq!(buf.remaining_to_write(), 4);
    assert_eq!(buf.write_room(), 2);
    assert_eq!(fill(&mut buf, b"wxyz"), 2);
    assert_eq!(buf.write_room(), 2);
    assert_eq!(fill(&mut buf, b"yz"), 2);
    assert!(buf.is_full());
    assert_eq!(drain(&mut buf, 2), b"wx".to_vec());
    assert_eq!(drain(&mut buf, 2), b"yz".to_vec());
}

#[test]
fn advancing_the_writer_too_far_is_clamped() {
    let mut buf = RingBuf::new(4);
    buf.mut_bytes().copy_from_slice(b"abcd");
    buf.advance_writer(100);
    assert_eq!(buf.remaining_to_read(), 4);
    assert_eq!(buf.remaining_to_write(), 0);
    assert_eq!(buf.bytes(), b"abcd");
    buf.advance_writer(1);
    assert_eq!(buf.remaining_to_read(), 4);
    assert!(balanced(&buf));
}

#[test]
fn advancing_the_reader_too_far_is_clamped() {
    let mut buf = RingBuf::new(4);
    fill(&mut buf, b"ab");
    buf.advance_reader(usize::MAX);
    assert_eq!(buf.remaining_to_read(), 0);
    assert_eq!(buf.remaining_to_write(), 4);
    buf.advance_reader(1);
    assert_eq!(buf.remaining_to_read(), 0);
    assert!(balanced(&buf));
    // a clamped commit is to the exposed region, not to all that is held
    let mut buf = RingBuf::new(4);
    fill(&mut buf, b"abcd");
    drain(&mut buf, 3);
    fill(&mut buf, b"ef");
    buf.advance_reader(100);
    assert_eq!(buf.remaining_to_read(), 2);
    assert_eq!(buf.bytes(), b"ef");
}

#[test]
fn what_is_left_to_read_and_to_write_adds_up_to_the_capacity() {
    let mut buf = RingBuf::new(5);
    let writes = [3usize, 9, 0, 1, 4, 2, 7];
    let reads = [1usize, 0, 6, 2, 2, 9, 1];
    for (w, r) in writes.iter().zip(reads.iter()) {
        buf.advance_writer(*w);
        assert!(balanced(&buf));
        buf.advance_reader(*r);
        assert!(balanced(&buf));
        assert!(buf.remaining_to_read() <= 5);
    }
}

#[test]
fn a_buffer_of_no_capacity_is_full_and_empty() {
    let mut buf = RingBuf::new(0);
    assert!(buf.is_empty());
    assert!(buf.is_full());
    assert_eq!(buf.mut_bytes().len(), 0);
    buf.advance_writer(3);
    buf.advance_reader(3);
    assert_eq!(buf.remaining_to_read(), 0);
    assert_eq!(buf.remaining_to_write(), 0);
}

#[test]
fn the_views_commit_to_the_buffer() {
    let mut buf = RingBuf::new(4);
    {
        let mut writer = buf.writer();
        assert!(writer.has_remaining());
        assert_eq!(writer.remaining(), 4);
        writer.mut_bytes()[..3].copy_from_slice(b"xyz");
        writer.advance(3);
        assert_eq!(writer.remaining(), 1);
    }
    {
        let mut reader = buf.reader();
        assert!(reader.has_remaining());
        assert_eq!(reader.remaining(), 3);
        assert_eq!(reader.bytes(), b"xyz");
        reader.advance(2);
        assert_eq!(reader.bytes(), b"z");
    }
    assert_eq!(buf.remaining_to_read(), 1);
}
