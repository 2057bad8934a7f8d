use axplat_riscv64_common::console::{read_bytes, write_bytes, CR, LF};

#[test]
fn line_feed_constants() {
    assert_eq!(LF, b'\n');
    assert_eq!(CR, b'\r');
}

#[test]
fn plain_bytes_go_out_unchanged() {
    assert_eq!(write_bytes(b"hello"), b"hello".to_vec());
    assert_eq!(write_bytes(b""), Vec::<u8>::new());
    assert_eq!(write_bytes(&[0, 255, 13]), vec![0, 255, 13]);
}

#[test]
fn line_feed_gets_a_carriage_return() {
    assert_eq!(write_bytes(b"a\nb"), b"a\r\nb".to_vec());
    assert_eq!(write_bytes(b"\n"), b"\r\n".to_vec());
    assert_eq!(write_bytes(b"\n\n"), b"\r\n\r\n".to_vec());
    assert_eq!(write_bytes(b"one\ntwo\n"), b"one\r\ntwo\r\n".to_vec());
}

#[test]
fn carriage_return_in_the_input_is_kept() {
    assert_eq!(write_bytes(b"a\r\nb"), b"a\r\r\nb".to_vec());
}

#[test]
fn split_write_sends_the_same_bytes() {
    let mut parts = write_bytes(b"ab\n");
    parts.extend(write_bytes(b"\ncd"));
    assert_eq!(parts, write_bytes(b"ab\n\ncd"));
}

#[test]
fn read_takes_what_has_arrived() {
    let mut buffer = [0xeeu8; 8];
    let count = read_bytes(&mut buffer, b"abc");
    assert_eq!(count, 3);
    assert_eq!(buffer, [b'a', b'b', b'c', 0xee, 0xee, 0xee, 0xee, 0xee]);
}

#[test]
fn read_stops_when_the_buffer_is_full() {
    let mut buffer = [0u8; 4];
    let count = read_bytes(&mut buffer, b"abcdefgh");
    assert_eq!(count, 4);
    assert_eq!(buffer, [b'a', b'b', b'c', b'd']);
}

#[test]
fn read_of_nothing_takes_nothing() {
    let mut buffer = [7u8; 3];
    assert_eq!(read_bytes(&mut buffer, b""), 0);
    assert_eq!(buffer, [7, 7, 7]);
    let mut empty: [u8; 0] = [];
    assert_eq!(read_bytes(&mut empty, b"abc"), 0);
}

#[test]
fn read_keeps_bytes_as_they_came() {
    let mut buffer = [0u8; 3];
    assert_eq!(read_bytes(&mut buffer, b"\r\n\n"), 3);
    assert_eq!(buffer, [b'\r', b'\n', b'\n']);
}
