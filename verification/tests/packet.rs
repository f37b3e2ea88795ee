use bytes::BytesMut;
use mc_networking::error::CodecError;
use mc_networking::packet::{Packet, PacketReaderWriter};

const TEST_OUTPUTS: [i32; 11] = [
    0,
    1,
    2,
    127,
    128,
    255,
    25565,
    2097151,
    2147483647,
    -1,
    -2147483648,
];

const TEST_INPUTS: [[u8; 5]; 11] = [
    [0x00, 0x00, 0x00, 0x00, 0x00],
    [0x01, 0x00, 0x00, 0x00, 0x00],
    [0x02, 0x00, 0x00, 0x00, 0x00],
    [0x7F, 0x00, 0x00, 0x00, 0x00],
    [0x80, 0x01, 0x00, 0x00, 0x00],
    [0xFF, 0x01, 0x00, 0x00, 0x00],
    [0xdd, 0xC7, 0x01, 0x00, 0x00],
    [0xff, 0xFF, 0x7f, 0x00, 0x00],
    [0xff, 0xFF, 0xff, 0xff, 0x07],
    [0xff, 0xFF, 0xff, 0xff, 0x0f],
    [0x80, 0x80, 0x80, 0x80, 0x08],
];

#[test]
fn read() -> Result<(), CodecError> {
    let mut packet = Packet::new();
    packet
        .data_mut()
        .extend_from_slice(&[0x01, 0x02, 0x03, 0x04, 0x05, 0x06]);

    assert_eq!(packet.read_varint()?, 0x01);
    assert_eq!(packet.read_varint()?, 0x02);
    assert_eq!(packet.read_varint()?, 0x03);
    assert_eq!(packet.read_varint()?, 0x04);
    assert_eq!(packet.read_varint()?, 0x05);
    assert_eq!(packet.read_varint()?, 0x06);
    assert!(packet.read_varint().is_err());

    for (input, output) in TEST_INPUTS.iter().zip(TEST_OUTPUTS.iter()) {
        let mut packet = Packet::new();
        packet.data_mut().extend_from_slice(input);
        assert_eq!(packet.read_varint()?, *output);
    }

    Ok(())
}

#[test]
fn write() -> Result<(), CodecError> {
    let mut packet = Packet::new();
    packet.write_varint(0x01);
    packet.write_varint(0x02);
    packet.write_varint(0x03);
    packet.write_varint(0x04);
    packet.write_varint(0x05);
    packet.write_varint(0x06);
    assert_eq!(
        packet.data().to_vec(),
        &[0x01, 0x02, 0x03, 0x04, 0x05, 0x06]
    );

    for (input, output) in TEST_INPUTS.iter().zip(TEST_OUTPUTS.iter()) {
        let mut packet = Packet::new();
        packet.write_varint(*output);
        let packet_data = packet.data().to_vec();
        packet_data.iter().zip(input.iter()).for_each(|(a, b)| {
            assert_eq!(a, b);
        });
    }

    Ok(())
}

#[test]
fn fixed_width_values_read_back() {
    let mut packet = Packet::new();
    packet.write_boolean(true);
    packet.write_byte(-3);
    packet.write_unsigned_byte(250);
    packet.write_short(-2);
    packet.write_unsigned_short(0xbeef);
    packet.write_int(-123456);
    packet.write_long(0x0102030405060708);
    packet.write_varlong(-1);
    assert_eq!(&packet.data()[..6], &[1, 0xfd, 250, 0xff, 0xfe, 0xbe]);
    assert_eq!(packet.read_boolean(), Ok(true));
    assert_eq!(packet.read_byte(), Ok(-3));
    assert_eq!(packet.read_unsigned_byte(), Ok(250));
    assert_eq!(packet.read_short(), Ok(-2));
    assert_eq!(packet.read_unsigned_short(), Ok(0xbeef));
    assert_eq!(packet.read_int(), Ok(-123456));
    assert_eq!(packet.read_long(), Ok(0x0102030405060708));
    assert_eq!(packet.read_varlong(), Ok(-1));
    assert!(packet.data().is_empty());
}

#[test]
fn short_reads_fail_and_take_nothing() {
    let mut packet = Packet::new();
    packet.data_mut().extend_from_slice(&[1, 2, 3]);
    assert_eq!(packet.read_int(), Err(CodecError::UnexpectedEof));
    assert_eq!(packet.data().len(), 3);
    assert_eq!(packet.read_long(), Err(CodecError::UnexpectedEof));
    assert_eq!(packet.read_short(), Ok(0x0102));
    assert_eq!(packet.read_unsigned_short(), Err(CodecError::UnexpectedEof));
    assert_eq!(packet.read_boolean(), Ok(true));
    assert_eq!(packet.read_byte(), Err(CodecError::UnexpectedEof));
    assert_eq!(packet.read_unsigned_byte(), Err(CodecError::UnexpectedEof));
}

#[test]
fn string_write_then_read() {
    let mut packet = Packet::new();
    packet.write_string(String::from("hé"));
    assert_eq!(packet.data().to_vec(), vec![3, b'h', 0xc3, 0xa9]);
    assert_eq!(packet.read_string(), Ok(String::from("hé")));
    // the read takes only the length prefix off the buffer
    assert_eq!(packet.data().to_vec(), vec![b'h', 0xc3, 0xa9]);
}

#[test]
fn string_read_errors() {
    let mut packet = Packet::new();
    packet.data_mut().extend_from_slice(&[5, b'a']);
    assert_eq!(packet.read_string(), Err(CodecError::UnexpectedEof));
    let mut packet = Packet::new();
    packet.data_mut().extend_from_slice(&[2, 0xc3, 0x28]);
    assert_eq!(packet.read_string(), Err(CodecError::InvalidUtf8));
}

#[test]
fn varint_too_big_in_buffer() {
    let mut buf = BytesMut::new();
    buf.extend_from_slice(&[0xff, 0xff, 0xff, 0xff, 0xff, 0x01]);
    assert_eq!(buf.read_varint(), Err(CodecError::VarIntTooBig));
    let mut buf = BytesMut::new();
    buf.extend_from_slice(&[0xff; 11]);
    assert_eq!(buf.read_varlong(), Err(CodecError::VarLongTooBig));
}

#[test]
fn bytes_mut_reader_writer() {
    let mut buf = BytesMut::new();
    buf.write_varint(300);
    buf.write_int(7);
    assert_eq!(buf.to_vec(), vec![0xac, 0x02, 0, 0, 0, 7]);
    assert_eq!(buf.read_varint(), Ok(300));
    assert_eq!(buf.read_int(), Ok(7));
    assert_eq!(buf.read_int(), Err(CodecError::UnexpectedEof));
}

#[test]
fn packet_bytes_frame_the_body() {
    let mut packet = Packet::with_capacity(8);
    packet.set_packet_id(0x10);
    let mut body = BytesMut::new();
    body.extend_from_slice(&[1, 2, 3]);
    packet.write_bytes(body);
    let frame = packet.get_packet_bytes(0).unwrap();
    assert_eq!(frame.to_vec(), vec![4, 0x10, 1, 2, 3]);
}

#[test]
fn packet_bytes_errors() {
    let packet = Packet::new();
    assert_eq!(packet.get_packet_bytes(0).unwrap_err(), CodecError::PacketIdNotSet);
    let mut packet = Packet::new();
    packet.set_packet_id(-5);
    assert_eq!(packet.get_packet_bytes(-1).unwrap_err(), CodecError::NegativeVarint);
}

#[test]
fn read_from_bytes_gives_body_and_id() {
    let mut bytes = BytesMut::new();
    bytes.extend_from_slice(&[4, 0x10, 1, 2, 3]);
    let mut packet = Packet::read_from_bytes(&mut bytes).unwrap();
    assert!(bytes.is_empty());
    assert_eq!(packet.data().to_vec(), vec![1, 2, 3]);
    assert_eq!(packet.read_unsigned_byte(), Ok(1));
}

#[test]
fn frame_written_then_read_back() {
    let mut packet = Packet::new();
    packet.set_packet_id(300);
    packet.write_string(String::from("abc"));
    let frame = packet.get_packet_bytes(0).unwrap();
    let mut bytes = BytesMut::new();
    bytes.extend_from_slice(&frame);
    let mut back = Packet::read_from_bytes(&mut bytes).unwrap();
    assert_eq!(back.read_string(), Ok(String::from("abc")));
}

#[test]
fn read_from_bytes_errors() {
    let mut bytes = BytesMut::new();
    assert_eq!(Packet::read_from_bytes(&mut bytes).unwrap_err(), CodecError::UnexpectedEof);
    let mut bytes = BytesMut::new();
    bytes.extend_from_slice(&[1]);
    assert_eq!(Packet::read_from_bytes(&mut bytes).unwrap_err(), CodecError::UnexpectedEof);
}
