use aws_mls::codec::Error;
use aws_mls::varint::{read_byte_vec, read_varint, write_byte_vec, write_varint, VarInt};
use aws_mls::{MlsDecode, MlsEncode, MlsSize};

#[test]
fn u16_decode_short_input_is_eof_and_keeps_reader() {
    let data = [7u8];
    let mut reader: &[u8] = &data;
    assert_eq!(u16::mls_decode(&mut reader), Err(Error::UnexpectedEOF));
    assert_eq!(reader, &[7u8][..]);
}

#[test]
fn u32_decode_advances_reader_past_value() {
    let data = [0u8, 0, 1, 2, 9, 9];
    let mut reader: &[u8] = &data;
    assert_eq!(u32::mls_decode(&mut reader), Ok(258));
    assert_eq!(reader, &[9u8, 9][..]);
}

#[test]
fn encoded_len_of_integers() {
    assert_eq!(5u8.mls_encoded_len(), 1);
    assert_eq!(5u16.mls_encoded_len(), 2);
    assert_eq!(5u32.mls_encoded_len(), 4);
    assert_eq!(5u64.mls_encoded_len(), 8);
}

#[test]
fn u64_max_round_trip() {
    let bytes = u64::MAX.mls_encode_to_vec().unwrap();
    assert_eq!(bytes, vec![0xff; 8]);
    assert_eq!(u64::mls_decode(&mut &*bytes), Ok(u64::MAX));
}

#[test]
fn encode_appends_to_writer() {
    let mut out = vec![1u8, 2];
    0x0a0bu16.mls_encode(&mut out).unwrap();
    assert_eq!(out, vec![1, 2, 0x0a, 0x0b]);
}

#[test]
fn varint_encodings_use_shortest_form() {
    let mut out = Vec::new();
    write_varint(37, &mut out).unwrap();
    assert_eq!(out, vec![0x25]);
    let mut out = Vec::new();
    write_varint(15293, &mut out).unwrap();
    assert_eq!(out, vec![0x7b, 0xbd]);
    let mut out = Vec::new();
    write_varint(494878333, &mut out).unwrap();
    assert_eq!(out, vec![0x9d, 0x7f, 0x3e, 0x7d]);
}

#[test]
fn varint_out_of_range() {
    let mut out = vec![1u8];
    assert_eq!(write_varint(1 << 30, &mut out), Err(Error::VarIntOutOfRange));
    assert_eq!(out, vec![1u8]);
    assert_eq!(VarInt(1 << 30).mls_encode_to_vec(), Err(Error::VarIntOutOfRange));
}

#[test]
fn varint_decode_examples() {
    assert_eq!(read_varint(&[0x25, 0xff]), Ok((37, 1)));
    assert_eq!(read_varint(&[0x7b, 0xbd]), Ok((15293, 2)));
    assert_eq!(read_varint(&[0x9d, 0x7f, 0x3e, 0x7d]), Ok((494878333, 4)));
}

#[test]
fn varint_decode_errors() {
    assert_eq!(read_varint(&[]), Err(Error::UnexpectedEOF));
    assert_eq!(read_varint(&[0xc0, 0, 0, 0, 0, 0, 0, 0]), Err(Error::InvalidVarIntPrefix(3)));
    assert_eq!(read_varint(&[0x40]), Err(Error::UnexpectedEOF));
    assert_eq!(read_varint(&[0x40, 0x25]), Err(Error::VarIntMinimumLengthEncoding));
    assert_eq!(read_varint(&[0x80, 0x00, 0x3b, 0xbd]), Err(Error::VarIntMinimumLengthEncoding));
}

#[test]
fn varint_round_trip_through_traits() {
    for v in [0u32, 63, 64, 16383, 16384, (1 << 30) - 1] {
        let bytes = VarInt(v).mls_encode_to_vec().unwrap();
        assert_eq!(bytes.len(), VarInt(v).mls_encoded_len());
        let mut reader: &[u8] = &bytes;
        assert_eq!(VarInt::mls_decode(&mut reader), Ok(VarInt(v)));
        assert!(reader.is_empty());
    }
}

#[test]
fn byte_vec_round_trip() {
    let data: Vec<u8> = (0..100u8).collect();
    let mut out = Vec::new();
    write_byte_vec(&data, &mut out).unwrap();
    assert_eq!(&out[..2], &[0x40, 100]);
    assert_eq!(out.len(), 102);
    out.push(0xee);
    let (decoded, used) = read_byte_vec(&out).unwrap();
    assert_eq!(decoded, data);
    assert_eq!(used, 102);
}

#[test]
fn byte_vec_short_contents_is_eof() {
    assert_eq!(read_byte_vec(&[3, 1, 2]), Err(Error::UnexpectedEOF));
}
