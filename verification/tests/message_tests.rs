use crisola::message::Message;

#[test]
fn pack_header_only() {
    let m = Message::new(0);
    let bytes = m.pack(0x0403, 0x0102030405060708);
    assert_eq!(
        bytes,
        vec![0x03, 0x04, 0x08, 0x07, 0x06, 0x05, 0x04, 0x03, 0x02, 0x01]
    );
}

#[test]
fn pack_writes_channel_id_little_endian() {
    let mut m = Message::new(5);
    let n = m.write(b"hello");
    assert_eq!(n, 5);
    let bytes = m.pack(1212, 1);
    // 1212 == 0x04BC, little-endian
    assert_eq!(&bytes[0..2], &[0xBC, 0x04]);
    assert_eq!(&bytes[2..10], &[1, 0, 0, 0, 0, 0, 0, 0]);
    assert_eq!(&bytes[10..], b"hello");
    assert_eq!(bytes.len(), 15);
}

#[test]
fn pack_length_is_payload_plus_header() {
    let mut m = Message::new(3);
    m.write(b"abc");
    let bytes = m.pack(7, 9);
    assert_eq!(bytes.len(), 3 + 10);
}

#[test]
fn writes_accumulate_beyond_declared_length() {
    let mut m = Message::new(2);
    m.write(b"ab");
    m.write(b"cd");
    let bytes = m.pack(1, 1);
    assert_eq!(&bytes[10..], b"abcd");
    assert_eq!(bytes.len(), 14);
}

#[test]
fn largest_payload_packs() {
    let mut m = Message::new(65399);
    let payload = vec![0xAAu8; 65399];
    let n = m.write(&payload);
    assert_eq!(n, 65399);
    let bytes = m.pack(1, 2);
    assert_eq!(bytes.len(), 65409);
    assert_eq!(bytes[10], 0xAA);
    assert_eq!(bytes[65408], 0xAA);
}

#[test]
fn flush_changes_nothing() {
    let mut m = Message::new(4);
    m.write(b"data");
    m.flush();
    let bytes = m.pack(2, 3);
    assert_eq!(&bytes[10..], b"data");
}

#[test]
fn empty_payload_frame_is_header_sized() {
    let m = Message::new(100);
    let bytes = m.pack(0, 0);
    assert_eq!(bytes, vec![0u8; 10]);
}
