use petri::log_buf::LogBuffer;

fn assert_buf_eq(left: &LogBuffer, right: &[u8]) {
    let mut concat_buf: Vec<u8> = vec![];
    let (first, second) = left.with_buffers();
    concat_buf.extend(first);
    concat_buf.extend(second);
    assert_eq!(&concat_buf, right);
}

#[test]
fn test_append_and_read() {
    let mut buf = LogBuffer::default();
    buf.append(b"hello,");
    buf.append(b"world");
    assert_buf_eq(&buf, b"hello,world");
}

#[test]
fn test_overwrite() {
    let mut buf = LogBuffer::with_capacity(8);
    buf.append(b"hello");
    buf.append(b"!");
    assert_buf_eq(&buf, b"hello!");

    buf.append(b"abcdefghijklmn");
    assert_buf_eq(&buf, b"ghijklmn");
}

#[test]
fn test_trim_lines() {
    let mut buf = LogBuffer::with_capacity(16);
    buf.append(b"hello\nworld\n");
    buf.append(b"goodbye");
    assert_buf_eq(&buf, b"world\ngoodbye");

    buf = LogBuffer::with_capacity(16);
    buf.append(b"hello, world");
    buf.append(b"farewell!");
    assert_buf_eq(&buf, b"farewell!");
}

#[test]
fn ring_eviction_keeps_second_line() {
    let mut buf = LogBuffer::with_capacity(16);
    buf.append(b"line1\nline2\n");
    assert_eq!(buf.len(), 12);
    buf.append(b"goodbye");
    assert_buf_eq(&buf, b"line2\ngoodbye");
    assert_eq!(buf.len(), 13);
}

#[test]
fn ring_never_exceeds_capacity() {
    let mut buf = LogBuffer::with_capacity(10);
    let inputs: [&[u8]; 6] = [b"abc", b"de\nfg", b"hij\nk", b"", b"0123456789abc", b"x\ny\nz"];
    for input in inputs.iter() {
        buf.append(input);
        assert!(buf.len() <= 10);
    }
}

#[test]
fn ring_long_input_keeps_suffix() {
    let mut buf = LogBuffer::with_capacity(4);
    buf.append(b"ab");
    buf.append(b"0123456789");
    assert_buf_eq(&buf, b"6789");
    buf.append(b"wxyz");
    assert_buf_eq(&buf, b"wxyz");
}

#[test]
fn ring_wraps_around_storage() {
    let mut buf = LogBuffer::with_capacity(8);
    buf.append(b"ab\ncd\n");
    buf.append(b"efgh");
    assert_buf_eq(&buf, b"cd\nefgh");
    buf.append(b"\n");
    buf.append(b"ij");
    assert_buf_eq(&buf, b"efgh\nij");
}

#[test]
fn ring_without_newline_evicts_everything() {
    let mut buf = LogBuffer::with_capacity(6);
    buf.append(b"abcd");
    buf.append(b"xyz");
    assert_buf_eq(&buf, b"xyz");
}

#[test]
fn ring_empty_and_zero_capacity() {
    let mut buf = LogBuffer::with_capacity(0);
    assert!(buf.is_empty());
    buf.append(b"abc");
    assert!(buf.is_empty());
    assert_eq!(buf.len(), 0);
}
