use cfa635::codec::{ByteStream, Packet, PacketCodec};
use cfa635::device::classify;
use cfa635::{CursorStyle, Device, Error, FrameKind, Key, Report};

/// The wire encoding of a frame as the device would send it.
fn frame(packet_type: u8, payload: &[u8]) -> Vec<u8> {
    let mut codec = PacketCodec::new(ByteStream::new());
    codec
        .write_packet(&Packet::new(packet_type, payload))
        .expect("encode failed");
    codec.take_output()
}

#[test]
fn classify_rule() {
    assert_eq!(classify(0x06, 0b0100_0110), FrameKind::Normal);
    assert_eq!(classify(0x06, 0b1100_0110), FrameKind::Error);
    assert_eq!(classify(0x06, 0b1000_0000), FrameKind::Report);
    assert_eq!(classify(0x06, 0b1011_1111), FrameKind::Report);
    assert_eq!(classify(0x06, 0b0100_0111), FrameKind::Foreign);
    assert_eq!(classify(0x06, 0b1100_0111), FrameKind::Foreign);
    assert_eq!(classify(0x06, 0b0000_0110), FrameKind::Foreign);
}

#[test]
fn transaction_matches_by_code_and_class() {
    // class 0b01 with the sent code is accepted as the response
    let mut dev = Device::new();
    dev.feed(&frame(0b0100_0110, &[7]));
    let resp = dev.transact(&Packet::new(0x06, &[])).expect("accepted");
    assert_eq!(resp.packet_type(), 0b0100_0110);
    assert_eq!(resp.data(), &[7]);

    // a different code is discarded and the loop continues
    let mut dev = Device::new();
    dev.feed(&frame(0b0100_0111, &[]));
    dev.feed(&frame(0b0100_0110, &[]));
    let resp = dev
        .transact(&Packet::new(0x06, &[]))
        .expect("foreign frame skipped");
    assert_eq!(resp.packet_type(), 0b0100_0110);

    // class 0b11 with the sent code is a device-returned error
    let mut dev = Device::new();
    dev.feed(&frame(0b1100_0110, &[]));
    assert!(matches!(
        dev.transact(&Packet::new(0x06, &[])),
        Err(Error::ReturnedError)
    ));
}

#[test]
fn report_interleaving() {
    let mut dev = Device::new();
    dev.feed(&frame(0x80, &[1])); // report: Up pressed
    dev.feed(&frame(0b0100_0001, &[])); // foreign: right class, wrong code
    dev.feed(&frame(0b0101_1111, &[2, 0, b'h', b'i'])); // the response
    let resp = dev
        .transact(&Packet::new(0x1f, &[0, 0, b'h', b'i']))
        .expect("response returned");
    assert_eq!(resp.data(), &[2, 0, b'h', b'i']);
    // exactly one report was enqueued, the foreign frame left no trace
    assert!(matches!(
        dev.poll_report(),
        Ok(Some(Report::KeyActivity { key: Key::Up, pressed: true }))
    ));
    assert!(matches!(dev.poll_report(), Ok(None)));
}

#[test]
fn poll_draining_order() {
    let mut dev = Device::new();
    dev.feed(&frame(0x80, &[1])); // Up pressed
    dev.feed(&frame(0x80, &[8])); // Down released
    dev.feed(&frame(0b0100_0000, &[]));
    dev.transact(&Packet::new(0x00, &[])).expect("response");
    assert!(matches!(
        dev.poll_report(),
        Ok(Some(Report::KeyActivity { key: Key::Up, pressed: true }))
    ));
    assert!(matches!(
        dev.poll_report(),
        Ok(Some(Report::KeyActivity { key: Key::Down, pressed: false }))
    ));
    assert!(matches!(dev.poll_report(), Ok(None)));
}

#[test]
fn transaction_error_kinds() {
    // an exhausted transport, like a read timeout
    let mut dev = Device::new();
    assert!(matches!(
        dev.transact(&Packet::new(0x00, &[])),
        Err(Error::Io)
    ));

    // a corrupted response: desynchronization
    let mut dev = Device::new();
    let mut bytes = frame(0b0100_0000, &[5]);
    let last = bytes.len() - 1;
    bytes[last] ^= 0x01;
    dev.feed(&bytes);
    assert!(matches!(
        dev.transact(&Packet::new(0x00, &[])),
        Err(Error::InvalidRead)
    ));

    // a malformed declared length: the same desynchronization condition
    let mut dev = Device::new();
    dev.feed(&[0x40, 23, 0, 0]);
    assert!(matches!(
        dev.transact(&Packet::new(0x00, &[])),
        Err(Error::InvalidRead)
    ));
}

#[test]
fn command_argument_validation() {
    let mut dev = Device::new();
    assert!(matches!(dev.set_text(4, 0, b"hi"), Err(Error::InvalidArgument)));
    assert!(matches!(dev.set_text(0, 20, b"hi"), Err(Error::InvalidArgument)));
    assert!(matches!(
        dev.set_cursor_position(0, 20),
        Err(Error::InvalidArgument)
    ));
    assert!(matches!(dev.set_led(4, 0, 0), Err(Error::InvalidArgument)));
    // nothing was sent for any of them
    assert_eq!(dev.take_output(), Vec::<u8>::new());
}

#[test]
fn ping_truncates_to_sixteen_bytes() {
    let mut dev = Device::new();
    let long = [0x55u8; 20];
    dev.feed(&frame(0b0100_0000, &long[..16]));
    let pong = dev.ping(&long).expect("pong");
    assert_eq!(pong, vec![0x55u8; 16]);
    assert_eq!(dev.take_output(), frame(0x00, &long[..16]));
}

#[test]
fn set_text_sends_position_then_text() {
    let mut dev = Device::new();
    dev.feed(&frame(0b0101_1111, &[]));
    dev.set_text(1, 2, b"hello").expect("acknowledged");
    assert_eq!(
        dev.take_output(),
        frame(0x1f, &[2, 1, b'h', b'e', b'l', b'l', b'o'])
    );
}

#[test]
fn clamped_commands_and_masks() {
    let mut dev = Device::new();
    dev.feed(&frame(0b0100_1101, &[]));
    dev.feed(&frame(0b0100_1110, &[]));
    dev.feed(&frame(0b0101_0111, &[]));
    dev.set_contrast(255).expect("acknowledged");
    dev.set_backlight(150, 42).expect("acknowledged");
    dev.configure_key_reporting(&[Key::Up, Key::Enter], &[Key::Exit, Key::Left])
        .expect("acknowledged");
    let mut expected = frame(0x0d, &[254]);
    expected.extend_from_slice(&frame(0x0e, &[100, 42]));
    expected.extend_from_slice(&frame(0x17, &[0x03, 0x0c]));
    assert_eq!(dev.take_output(), expected);
}

#[test]
fn cursor_style_codes() {
    let mut dev = Device::new();
    dev.feed(&frame(0b0100_1100, &[]));
    dev.set_cursor_style(CursorStyle::BlinkingUnderscore)
        .expect("acknowledged");
    assert_eq!(dev.take_output(), frame(0x0c, &[3]));
}

#[test]
fn set_led_sends_two_commands() {
    let mut dev = Device::new();
    dev.feed(&frame(0b0110_0010, &[]));
    dev.feed(&frame(0b0110_0010, &[]));
    dev.set_led(1, 30, 40).expect("both acknowledged");
    let mut expected = frame(0x22, &[10, 30]);
    expected.extend_from_slice(&frame(0x22, &[9, 40]));
    assert_eq!(dev.take_output(), expected);
}

#[test]
fn set_gpio_is_a_single_exchange() {
    let mut dev = Device::new();
    dev.feed(&frame(0b0110_0010, &[]));
    dev.set_gpio(12, 55).expect("acknowledged");
    assert_eq!(dev.take_output(), frame(0x22, &[12, 55]));
}

#[test]
fn report_decoding() {
    assert!(matches!(
        Report::from_raw(&Packet::new(0x80, &[3])),
        Some(Report::KeyActivity { key: Key::Left, pressed: true })
    ));
    assert!(matches!(
        Report::from_raw(&Packet::new(0x80, &[12])),
        Some(Report::KeyActivity { key: Key::Exit, pressed: false })
    ));
    // unknown sub-codes, empty payloads and foreign types are dropped
    assert!(Report::from_raw(&Packet::new(0x80, &[0])).is_none());
    assert!(Report::from_raw(&Packet::new(0x80, &[13])).is_none());
    assert!(Report::from_raw(&Packet::new(0x80, &[])).is_none());
    assert!(Report::from_raw(&Packet::new(0x81, &[1])).is_none());
}

#[test]
fn poll_report_reads_the_wire() {
    let mut dev = Device::new();
    assert!(matches!(dev.poll_report(), Ok(None)));
    dev.feed(&frame(0b0100_0000, &[])); // a stray response: dropped
    dev.feed(&frame(0x80, &[5]));
    assert!(matches!(
        dev.poll_report(),
        Ok(Some(Report::KeyActivity { key: Key::Enter, pressed: true }))
    ));
    assert!(matches!(dev.poll_report(), Ok(None)));
    // a partial frame: the blocking read behind it would time out
    dev.feed(&[0x80]);
    assert!(matches!(dev.poll_report(), Err(Error::Io)));
}
