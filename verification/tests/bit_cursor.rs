use a52::bitstream::{swab32, BitCursor};
use a52::A52Error;

#[test]
fn reads_msb_first() {
    let buf: Vec<u8> = vec![0b1011_0001, 0b1000_0000];
    let mut cur = BitCursor::attach(&buf);
    assert_eq!(cur.read(4).unwrap(), 0b1011);
    assert_eq!(cur.read(4).unwrap(), 0b0001);
    assert_eq!(cur.read(1).unwrap(), 1);
    assert_eq!(cur.offset(), 9);
}

#[test]
fn reads_across_byte_boundaries() {
    let buf: Vec<u8> = vec![0xab, 0xcd];
    let mut cur = BitCursor::attach(&buf);
    assert_eq!(cur.read(12).unwrap(), 0xabc);
    assert_eq!(cur.read(4).unwrap(), 0xd);
    let buf2: Vec<u8> = vec![0xa5, 0x5a, 0x00, 0x01];
    let mut cur2 = BitCursor::attach(&buf2);
    assert_eq!(cur2.read(32).unwrap(), 0xa55a_0001);
}

#[test]
fn read_bool_and_skip() {
    let buf: Vec<u8> = vec![0b0100_0000];
    let mut cur = BitCursor::attach(&buf);
    assert_eq!(cur.read_bool().unwrap(), false);
    assert_eq!(cur.read_bool().unwrap(), true);
    assert!(cur.skip(6).is_ok());
    assert_eq!(cur.offset(), 8);
}

#[test]
fn read_signed_sign_extends() {
    let buf: Vec<u8> = vec![0b1111_1100];
    let mut cur = BitCursor::attach(&buf);
    assert_eq!(cur.read_signed(6).unwrap(), -1);
    let buf2: Vec<u8> = vec![0b0111_1100];
    let mut cur2 = BitCursor::attach(&buf2);
    assert_eq!(cur2.read_signed(6).unwrap(), 31);
    let buf3: Vec<u8> = vec![0x80, 0x00];
    let mut cur3 = BitCursor::attach(&buf3);
    assert_eq!(cur3.read_signed(16).unwrap(), -32768);
    let buf4: Vec<u8> = vec![0x80, 0x00, 0x00, 0x00];
    let mut cur4 = BitCursor::attach(&buf4);
    assert_eq!(cur4.read_signed(32).unwrap(), i32::MIN);
}

#[test]
fn out_of_bits_leaves_cursor_in_place() {
    let buf: Vec<u8> = vec![0xff];
    let mut cur = BitCursor::attach(&buf);
    assert_eq!(cur.read(5).unwrap(), 0b11111);
    assert_eq!(cur.read(4), Err(A52Error::OutOfBits));
    assert_eq!(cur.offset(), 5);
    assert_eq!(cur.skip(4), Err(A52Error::OutOfBits));
    assert_eq!(cur.offset(), 5);
    assert_eq!(cur.read(3).unwrap(), 0b111);
}

#[test]
fn attach_resets_position() {
    let a: Vec<u8> = vec![0xf0];
    let mut cur = BitCursor::attach(&a);
    assert_eq!(cur.read(4).unwrap(), 0xf);
    let cur2 = BitCursor::attach(&a);
    assert_eq!(cur2.offset(), 0);
}

#[test]
fn swab32_reverses_bytes() {
    assert_eq!(swab32(0x0102_0304), 0x0403_0201);
    assert_eq!(swab32(0x0b77_0000), 0x0000_770b);
    assert_eq!(swab32(0xffff_ffff), 0xffff_ffff);
    assert_eq!(swab32(0), 0);
}
