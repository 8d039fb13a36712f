use registry::codec::{
    bool_as_bytes, option_as_bytes, pubkey_as_bytes, slice_u16_as_bytes, slice_u32_as_bytes,
    slice_u64_as_bytes, slice_u128_as_bytes, string_as_bytes, to_array, to_bool, to_option,
    to_pubkey, to_string, to_u128, to_u16, to_u32, to_u64, to_u8, to_vec_fixed, u128_as_bytes,
    u16_as_bytes, u32_as_bytes, u64_as_bytes, u8_as_bytes, ByteReader, ByteWriter,
    ByteWriterVecExt,
};
use registry::error::ProgramError;
use registry::state::{AssetItem, Range};
use registry::types::{Uint32, Uint64};

#[test]
fn primitive_parsers_read_little_endian() {
    let data = [1u8, 0x34, 0x12, 0x78, 0x56, 0x34, 0x12];
    assert_eq!(to_bool(&data, 0), Ok((true, 1)));
    assert_eq!(to_u8(&data, 1), Ok((0x34, 2)));
    assert_eq!(to_u16(&data, 1), Ok((0x1234, 3)));
    assert_eq!(to_u32(&data, 3), Ok((0x12345678, 7)));
    let eight = [1u8, 2, 3, 4, 5, 6, 7, 8];
    assert_eq!(to_u64(&eight, 0), Ok((0x0807060504030201, 8)));
    let sixteen = [0xFFu8; 16];
    assert_eq!(to_u128(&sixteen, 0), Ok((u128::MAX, 16)));
    assert_eq!(to_bool(&[0u8], 0), Ok((false, 1)));
}

#[test]
fn pubkey_parser_takes_thirty_two_bytes() {
    let mut data = vec![9u8];
    data.extend((0..32u8).collect::<Vec<u8>>());
    let (k, end) = to_pubkey(&data, 1).unwrap();
    assert_eq!(end, 33);
    assert_eq!(k[0], 0);
    assert_eq!(k[31], 31);
    assert_eq!(pubkey_as_bytes(&k), &data[1..]);
}

#[test]
fn string_parser_reads_length_prefixed_utf8() {
    let data = [3u8, 0, 0, 0, b'a', b'b', b'c', 0xFF];
    assert_eq!(to_string(&data, 0), Ok((String::from("abc"), 7)));
    let bad = [2u8, 0, 0, 0, 0xC3, 0x28];
    assert_eq!(to_string(&bad, 0), Err(ProgramError::InvalidInstructionData));
}

#[test]
fn collection_parsers() {
    let data = [2u8, 0, 0, 0, 7, 9];
    let (v, end) = to_vec_fixed(&data, 0, to_u8).unwrap();
    assert_eq!(v, vec![7, 9]);
    assert_eq!(end, 6);
    assert_eq!(to_option(&[0u8], 0, to_u8), Ok((None, 1)));
    assert_eq!(to_option(&[1u8, 5], 0, to_u8), Ok((Some(5), 2)));
    let arr: ([u16; 2], usize) = to_array(&[1u8, 0, 2, 0], 0, to_u16).unwrap();
    assert_eq!(arr, ([1, 2], 4));
}

#[derive(Default, Debug, PartialEq)]
struct Sample {
    flag: bool,
    small: u8,
    count: u32,
    name: String,
    list: Vec<u8>,
    maybe: Option<u16>,
}

#[test]
fn reader_fills_fields_in_order_and_writer_reproduces_the_bytes() {
    let mut buffer = vec![];
    let mut writer = ByteWriter::from_vec(&mut buffer);
    writer = writer.write_bool(true).unwrap();
    writer = writer.write_u8(42).unwrap();
    writer = writer.write_u32(0xA1B2C3D4).unwrap();
    writer = writer.write_string("hey").unwrap();
    writer = writer.write_u32(2).unwrap();
    writer = writer.write_u8(1).unwrap();
    writer = writer.write_u8(2).unwrap();
    writer = writer.write_option(&Some(7u16), |v| v.to_le_bytes().to_vec().leak()).unwrap();
    let position = writer.position();
    buffer.truncate(position);
    let bytes = buffer;
    assert_eq!(
        bytes,
        vec![1, 42, 0xD4, 0xC3, 0xB2, 0xA1, 3, 0, 0, 0, b'h', b'e', b'y', 2, 0, 0, 0, 1, 2, 1, 7, 0]
    );

    let reader = ByteReader::new::<Sample>(&bytes, 0);
    let reader = reader.read_bool(|mut s, v| { s.flag = v; s }).unwrap();
    let reader = reader.read_u8(|mut s, v| { s.small = v; s }).unwrap();
    let reader = reader.read_u32(|mut s, v| { s.count = v; s }).unwrap();
    let reader = reader.read_string(|mut s, v| { s.name = v; s }).unwrap();
    let reader = reader.read_vec_fixed(|mut s, v| { s.list = v; s }, to_u8).unwrap();
    let reader = reader.read_option(|mut s, v| { s.maybe = v; s }, to_u16).unwrap();
    assert_eq!(reader.position(), bytes.len());
    let (sample, end) = reader.complete().unwrap();
    assert_eq!(end, bytes.len());
    assert_eq!(
        sample,
        Sample {
            flag: true,
            small: 42,
            count: 0xA1B2C3D4,
            name: "hey".to_string(),
            list: vec![1, 2],
            maybe: Some(7)
        }
    );
}

#[test]
fn reader_completes_unless_it_starts_past_the_data() {
    let bytes = [5u8, 6];
    let reader = ByteReader::new::<u8>(&bytes, 0).read_u8(|_, v| v).unwrap();
    assert_eq!(reader.complete(), Ok((5, 1)));
    let beyond = ByteReader::new::<u8>(&bytes, 3);
    assert_eq!(beyond.complete(), Err(ProgramError::InvalidInstructionData));
}

#[test]
fn writer_refuses_to_run_past_its_buffer() {
    let mut buffer = vec![0u8; 3];
    let writer = ByteWriter::new(&mut buffer);
    let writer = writer.write_u16(0xBEEF).unwrap();
    assert_eq!(writer.position(), 2);
    assert_eq!(writer.remaining(), 1);
    assert_eq!(writer.as_bytes(), &[0xEF, 0xBE]);
    assert!(matches!(writer.write_u32(1), Err(ProgramError::InvalidInstructionData)));
    // the refused write leaves the buffer, with what was written before it
    assert_eq!(buffer, vec![0xEF, 0xBE, 0]);
}

#[test]
fn refused_writes_keep_what_was_written() {
    // a string whose length fits but whose bytes do not: the length stays
    let mut buffer = vec![0xAAu8; 6];
    let writer = ByteWriter::new(&mut buffer).write_u8(9).unwrap();
    assert!(writer.write_string("abc").is_err());
    assert_eq!(buffer, vec![9, 3, 0, 0, 0, 0xAA]);
    // an option whose flag fits but whose value does not: the flag stays
    let mut buffer = vec![0xAAu8; 2];
    let writer = ByteWriter::new(&mut buffer);
    assert!(writer.write_option(&Some(0x0102u16), |v| v.to_le_bytes().to_vec().leak()).is_err());
    assert_eq!(buffer, vec![1, 0xAA]);
    // a number that does not fit changes nothing
    let mut buffer = vec![5u8; 3];
    assert!(ByteWriter::new(&mut buffer).write_u32(7).is_err());
    assert_eq!(buffer, vec![5, 5, 5]);
}

#[test]
fn from_vec_keeps_existing_bytes_and_makes_room() {
    let mut buffer = vec![9, 8];
    let writer = ByteWriter::from_vec(&mut buffer);
    assert_eq!(writer.position(), 0);
    assert!(writer.remaining() >= 256);
    assert!(writer.as_bytes().is_empty());
    assert_eq!(&buffer[..2], &[9, 8]);
    assert!(buffer[2..].iter().all(|&b| b == 0));
    let mut buffer = vec![];
    let position = ByteWriter::from_vec(&mut buffer).write_pubkey(&[3u8; 32]).unwrap().position();
    buffer.truncate(position);
    assert_eq!(buffer, vec![3u8; 32]);
}

#[test]
fn value_to_bytes_helpers() {
    assert_eq!(u8_as_bytes(&7), &[7]);
    assert_eq!(string_as_bytes("ok"), b"ok");
    assert_eq!(bool_as_bytes(&true), vec![1]);
    assert_eq!(bool_as_bytes(&false), vec![0]);
    assert_eq!(u16_as_bytes(&0x0102), vec![2, 1]);
    assert_eq!(u32_as_bytes(&1), vec![1, 0, 0, 0]);
    assert_eq!(u64_as_bytes(&0x0100), vec![0, 1, 0, 0, 0, 0, 0, 0]);
    assert_eq!(u128_as_bytes(&1)[0], 1);
    assert_eq!(u128_as_bytes(&1).len(), 16);
    assert_eq!(slice_u16_as_bytes(&[1, 0x0203]), vec![1, 0, 3, 2]);
    assert_eq!(slice_u32_as_bytes(&[1]), vec![1, 0, 0, 0]);
    assert_eq!(slice_u64_as_bytes(&[]), Vec::<u8>::new());
    assert_eq!(slice_u128_as_bytes(&[2]).len(), 16);
    assert_eq!(option_as_bytes(&Some(5u8), u8_as_bytes), vec![1, 5]);
    assert_eq!(option_as_bytes(&None::<u8>, u8_as_bytes), vec![0]);
}

#[test]
fn custom_fields_write_and_read_themselves() {
    let range = Range { min: Uint32::from(1u32), max: Uint32::from(2u32) };
    let mut bytes = vec![0u8; 10];
    let writer = ByteWriter::new(&mut bytes).write_custom(&range).unwrap();
    assert_eq!(writer.position(), 8);
    assert_eq!(bytes, vec![1, 0, 0, 0, 2, 0, 0, 0, 0, 0]);
    let reader = ByteReader::new::<Option<Range>>(&bytes, 0)
        .read_custom(|_, v: Range| Some(v))
        .unwrap();
    assert_eq!(reader.complete(), Ok((Some(range), 8)));
    let item = AssetItem { amount: Uint64::from(5u64), asset: [1u8; 32] };
    let mut small = vec![0u8; 39];
    let too_small = ByteWriter::new(&mut small).write_custom(&item);
    assert!(too_small.is_err());
    let mut written = vec![0u8; 41];
    let position = ByteWriter::new(&mut written).write_option_custom(&Some(item)).unwrap().position();
    written.truncate(position);
    assert_eq!(written[0], 1);
    assert_eq!(written[1], 5);
    assert_eq!(written.len(), 41);
}

#[test]
fn writes_in_a_chain_lay_their_bytes_end_to_end() {
    let mut buffer = vec![0xAA; 16];
    let writer = ByteWriter::new(&mut buffer);
    let writer = writer
        .write_u8(1)
        .unwrap()
        .write_u16(0x0302)
        .unwrap()
        .write_bool(true)
        .unwrap()
        .write_string("ab")
        .unwrap();
    assert_eq!(writer.as_bytes(), &[1, 2, 3, 1, 2, 0, 0, 0, b'a', b'b']);
    assert_eq!(writer.position(), 10);
    assert_eq!(writer.remaining(), 6);
    // the bytes past the position are as they were
    assert_eq!(&buffer[10..], &[0xAA; 6]);
    // a write fits exactly when it is no longer than the room left
    let mut small = vec![0u8; 3];
    let w = ByteWriter::new(&mut small);
    let w = w.write_u16(7).unwrap();
    assert_eq!(w.remaining(), 1);
    assert!(w.write_u16(7).is_err());
}

#[test]
fn from_vec_always_gives_room() {
    let mut buffer = Vec::with_capacity(300);
    assert!(ByteWriter::from_vec(&mut buffer).remaining() >= 256);
    let mut buffer = vec![1u8; 10];
    assert!(ByteWriter::from_vec(&mut buffer).remaining() >= 256);
}

fn one_byte(x: &u8) -> &[u8] {
    std::slice::from_ref(x)
}

#[test]
fn option_encoder_agrees_with_the_writer() {
    let value: Option<u8> = Some(7);
    let encoded = option_as_bytes(&value, one_byte);
    let mut buffer = vec![0u8; 4];
    let writer = ByteWriter::new(&mut buffer).write_option(&value, one_byte).unwrap();
    assert_eq!(writer.as_bytes(), encoded.as_slice());
    let none: Option<u8> = None;
    let encoded = option_as_bytes(&none, one_byte);
    let mut buffer = vec![0u8; 4];
    let writer = ByteWriter::new(&mut buffer).write_option(&none, one_byte).unwrap();
    assert_eq!(writer.as_bytes(), encoded.as_slice());
    assert_eq!(encoded, vec![0]);
}
