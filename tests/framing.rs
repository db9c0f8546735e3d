use virtio_devices::framing::{be_u32_bytes, frame_length, read_frame, write_frame};
use virtio_devices::terminal::select_term_fd;

#[test]
fn frame_written_with_length_prefix() {
    let mut msg = vec![0xffu8; 10];
    msg.extend_from_slice(b"Hello world!");
    assert_eq!(write_frame(10, &msg), b"\x00\x00\x00\x0cHello world!".to_vec());
}

#[test]
fn frame_with_four_byte_header_round_trips() {
    let body = b"some ethernet frame".to_vec();
    let mut buf = vec![0xabu8; 4];
    buf.extend_from_slice(&body);
    let wire = write_frame(4, &buf);
    assert_eq!(&wire[..4], &be_u32_bytes(body.len() as u32));
    assert_eq!(&wire[4..], &body[..]);
    assert_eq!(read_frame(&wire), Some(body));
}

#[test]
fn frame_read_back() {
    let wire = b"\x00\x00\x00\x0cHello world!trailing";
    assert_eq!(read_frame(wire), Some(b"Hello world!".to_vec()));
    assert_eq!(read_frame(b"\x00\x00\x00\x0cHello"), None);
    assert_eq!(read_frame(b"\x00\x00"), None);
    assert_eq!(read_frame(b"\x00\x00\x00\x00"), Some(vec![]));
}

#[test]
fn big_endian_length() {
    assert_eq!(be_u32_bytes(0x0102_0304), [1, 2, 3, 4]);
    assert_eq!(frame_length([0, 0, 1, 0]), 256);
    assert_eq!(frame_length([0xff, 0xff, 0xff, 0xff]), u32::MAX);
}

#[test]
fn terminal_fd_choice() {
    assert_eq!(select_term_fd(true, true, true), Some(0));
    assert_eq!(select_term_fd(false, true, true), Some(1));
    assert_eq!(select_term_fd(false, false, true), Some(2));
    assert_eq!(select_term_fd(false, false, false), None);
}
