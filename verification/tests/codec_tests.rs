use cfa635::codec::{ByteStream, Packet, PacketCodec, ReadPacketError};
use cfa635::crc::crc16_table_driven;

/// Alternative CRC implementation: the bit-by-bit reference with register
/// seeded `0xffff`, reflected polynomial `0x8408`, complemented output.
fn alternate_crc(bytes: impl IntoIterator<Item = u8>) -> u16 {
    let mut crc: u16 = 0xffff;
    for b in bytes.into_iter() {
        let mut sr = b as u16;
        for _ in 0..8 {
            if ((crc ^ sr) & 0x01) != 0 {
                crc >>= 1;
                crc ^= 0x8408;
            } else {
                crc >>= 1;
            }
            sr >>= 1;
        }
    }
    !crc
}

/// The wire encoding of a freshly built packet.
fn encode_frame(packet_type: u8, payload: &[u8]) -> Vec<u8> {
    let mut codec = PacketCodec::new(ByteStream::new());
    codec
        .write_packet(&Packet::new(packet_type, payload))
        .expect("encode failed");
    codec.take_output()
}

#[test]
fn cross_check_crc() {
    let test_packets = [
        Packet::new(10, &[1, 2, 3, 4, 5, 6, 7, 8, 9, 10]),
        Packet::new(28, &[1, 4, 2, 8, 5, 3, 8, 4, 7, 9, 2, 3]),
    ];
    for (i, packet) in test_packets.iter().enumerate() {
        println!("Test {}...", i);
        assert_eq!(packet.calculate_crc(), alternate_crc(packet.crc_bytes()));
    }
}

#[test]
fn packet_roundtrip() {
    let test_packet = Packet::new(0x00, b"Hello World");
    let mut writer = PacketCodec::new(ByteStream::new());
    writer.write_packet(&test_packet).expect("write failed");
    let buffer = writer.take_output();

    let mut reader = PacketCodec::new(ByteStream::new());
    reader.feed(&buffer);
    let read_packet = reader.read_packet().expect("read failed");
    assert!(read_packet.check_crc());
    assert_eq!(read_packet, test_packet);
}

#[test]
fn crc_known_value() {
    assert_eq!(crc16_table_driven(b"123456789"), 0x906e);
    assert_eq!(crc16_table_driven(b""), !0xffffu16);
}

#[test]
fn roundtrip_empty_and_max_payload() {
    for payload in [&[][..], &[0xab; 22][..]] {
        let packet = Packet::new(0x07, payload);
        let bytes = encode_frame(0x07, payload);
        assert_eq!(bytes.len(), 4 + payload.len());
        assert_eq!(bytes[1] as usize, payload.len());
        let mut reader = PacketCodec::new(ByteStream::new());
        reader.feed(&bytes);
        let back = reader.read_packet().expect("read failed");
        assert!(back.check_crc());
        assert_eq!(back, packet);
    }
}

#[test]
fn oversized_length_rejected() {
    // declared length 23: refused as soon as the length byte is seen,
    // with exactly the two header bytes consumed
    let mut reader = PacketCodec::new(ByteStream::new());
    reader.feed(&[0x40, 23]);
    assert!(matches!(
        reader.read_packet(),
        Err(ReadPacketError::InvalidPacket)
    ));
    assert_eq!(reader.bytes_to_read(), 0);

    // ... and none of the claimed payload or CRC is read, however many
    // bytes follow the bogus length
    let mut reader = PacketCodec::new(ByteStream::new());
    reader.feed(&[0x40, 0xff]);
    reader.feed(&[0u8; 64]);
    assert!(matches!(
        reader.read_packet(),
        Err(ReadPacketError::InvalidPacket)
    ));
    assert_eq!(reader.bytes_to_read(), 64);

    // a legal length on a truncated stream is an io error instead, and
    // consumes nothing
    let mut reader = PacketCodec::new(ByteStream::new());
    reader.feed(&[0x40, 22, 1, 2, 3]);
    assert!(matches!(reader.read_packet(), Err(ReadPacketError::Io)));
    assert_eq!(reader.bytes_to_read(), 5);
}

#[test]
fn crc_mismatch_detected_for_every_payload_bit() {
    let payload = b"report me";
    let bytes = encode_frame(0x1f, payload);
    for i in 0..payload.len() {
        for k in 0..8 {
            let mut corrupted = bytes.clone();
            corrupted[2 + i] ^= 1 << k;
            let mut reader = PacketCodec::new(ByteStream::new());
            reader.feed(&corrupted);
            let packet = reader.read_packet().expect("frame still parses");
            assert!(!packet.check_crc());
        }
    }
}

#[test]
fn packet_clone_is_equal() {
    let packet = Packet::new(0x1f, &[9, 8, 7]);
    let copy = packet.clone();
    assert_eq!(copy, packet);
    assert_eq!(copy.packet_type(), packet.packet_type());
    assert_eq!(copy.calculate_crc(), packet.calculate_crc());
}

#[test]
fn packet_equality_ignores_crc() {
    // a decoded packet carries the received crc, a fresh one its own:
    // identity is (type, payload) alone
    let sent = Packet::new(0x09, &[1, 2, 3]);
    let mut codec = PacketCodec::new(ByteStream::new());
    codec.write_packet(&sent).expect("write failed");
    let bytes = codec.take_output();
    let mut reader = PacketCodec::new(ByteStream::new());
    reader.feed(&bytes);
    let received = reader.read_packet().expect("read failed");
    assert_eq!(received, sent);
    assert_ne!(Packet::new(0x09, &[1, 2, 4]), sent);
    assert_ne!(Packet::new(0x0a, &[1, 2, 3]), sent);
}
