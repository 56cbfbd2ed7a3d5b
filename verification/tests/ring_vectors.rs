use freewheeling::jack_ringbuffer::RingBuffer;

#[test]
fn vectors_advance_reset_and_empty_sizes() {
    let mut rb = RingBuffer::create(4);
    assert_eq!(rb.write_vector()[0].len, 3);
    rb.advance_write(2);
    assert_eq!(rb.read_vector()[0].buf, b"\0\0");
    rb.reset();
    assert_eq!(rb.read_space(), 0);
    for size in [0, 1] {
        let mut x = RingBuffer::create(size);
        assert_eq!(x.write(b"x", 1), 0);
    }
}
