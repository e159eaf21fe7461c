use raw2wav::decode::{decode, decode_int16, decode_int24, decode_int32, decode_int8};
use raw2wav::format::{Endianness, SampleFormat};

#[test]
fn int8_is_centred() {
    assert_eq!(decode_int8(&[0, 128, 255, 127]), vec![-128, 0, 127, -1]);
}

#[test]
fn int16_both_byte_orders() {
    assert_eq!(decode_int16(&[0x34, 0x12], Endianness::Little), vec![0x1234]);
    assert_eq!(decode_int16(&[0x12, 0x34], Endianness::Big), vec![0x1234]);
    assert_eq!(decode_int16(&[0xff, 0xff, 0x00, 0x80], Endianness::Little), vec![-1, -32768]);
    assert_eq!(decode_int16(&[0x80, 0x00, 0x7f, 0xff], Endianness::Big), vec![-32768, 32767]);
}

#[test]
fn int16_drops_trailing_byte() {
    let r = decode_int16(&[1, 0, 2, 0, 9], Endianness::Little);
    assert_eq!(r.len(), 2);
    assert_eq!(r, vec![1, 2]);
}

#[test]
fn int24_little_endian_vector() {
    assert_eq!(decode_int24(&[0x00, 0x00, 0x10], Endianness::Little), vec![4096]);
    let expected = i32::from_le_bytes([0x00, 0x00, 0x10, 0x00]) >> 8;
    assert_eq!(decode_int24(&[0x00, 0x00, 0x10], Endianness::Little), vec![expected]);
}

#[test]
fn int24_both_byte_orders() {
    assert_eq!(decode_int24(&[0x56, 0x34, 0x12], Endianness::Little), vec![0x1234]);
    assert_eq!(decode_int24(&[0x12, 0x34, 0x56], Endianness::Big), vec![0x1234]);
    assert_eq!(decode_int24(&[0x10, 0x00, 0x00], Endianness::Big), vec![4096]);
    assert_eq!(decode_int24(&[0xff, 0xff, 0xff], Endianness::Little), vec![0xffff]);
}

#[test]
fn int24_drops_trailing_bytes() {
    let r = decode_int24(&[0, 1, 0, 0, 2, 0, 7], Endianness::Little);
    assert_eq!(r, vec![1, 2]);
}

#[test]
fn int32_both_byte_orders() {
    assert_eq!(decode_int32(&[0x78, 0x56, 0x34, 0x12], Endianness::Little), vec![0x12345678]);
    assert_eq!(decode_int32(&[0x12, 0x34, 0x56, 0x78], Endianness::Big), vec![0x12345678]);
    assert_eq!(decode_int32(&[0, 0, 0, 0x80], Endianness::Little), vec![i32::MIN]);
    assert_eq!(decode_int32(&[0xff, 0xff, 0xff, 0xff], Endianness::Big), vec![-1]);
}

#[test]
fn int32_drops_trailing_bytes() {
    assert_eq!(decode_int32(&[1, 0, 0, 0, 5, 6, 7], Endianness::Little), vec![1]);
    assert!(decode_int32(&[1, 2, 3], Endianness::Big).is_empty());
}

#[test]
fn decode_five_bytes_as_int16_gives_two_samples() {
    let r = decode(&[0x01, 0x00, 0xff, 0xff, 0x07], SampleFormat::Int16, Endianness::Little);
    assert_eq!(r, vec![1, -1]);
}

#[test]
fn decode_dispatches_on_format() {
    let bytes: [u8; 12] = [0x7F, 0x10, 0x00, 0x80, 1, 2, 3, 4, 5, 6, 7, 8];
    assert_eq!(decode(&bytes, SampleFormat::Int8, Endianness::Big), decode_int8(&bytes));
    assert_eq!(decode(&bytes, SampleFormat::Int16, Endianness::Big), decode_int16(&bytes, Endianness::Big));
    assert_eq!(decode(&bytes, SampleFormat::Int24, Endianness::Little), decode_int24(&bytes, Endianness::Little));
    assert_eq!(decode(&bytes, SampleFormat::Int32, Endianness::Little), decode_int32(&bytes, Endianness::Little));
    assert_eq!(decode(&[0x7F], SampleFormat::Vox, Endianness::Big), vec![480, -528]);
}

#[test]
fn vox_ignores_byte_order() {
    let bytes: [u8; 3] = [0x12, 0x9A, 0xF0];
    assert_eq!(
        decode(&bytes, SampleFormat::Vox, Endianness::Little),
        decode(&bytes, SampleFormat::Vox, Endianness::Big)
    );
}

#[test]
fn empty_buffer_in_every_format() {
    let formats = [SampleFormat::Int8, SampleFormat::Int16, SampleFormat::Int24, SampleFormat::Int32, SampleFormat::Vox];
    for f in formats.iter() {
        assert!(decode(&[], *f, Endianness::Little).is_empty());
    }
}
