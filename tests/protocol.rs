use orgb::packet::parse_packet_header;
use orgb::parse::{read_string, read_zone};
use orgb::protocol::{
    ColorMode, ControllerType, DecodeError, ModeFlags, PacketHeader, Request, Response, Rgb,
    ZoneType,
};
use orgb::unparse;

fn put_u16(out: &mut Vec<u8>, x: u16) {
    out.extend_from_slice(&x.to_le_bytes());
}

fn put_u32(out: &mut Vec<u8>, x: u32) {
    out.extend_from_slice(&x.to_le_bytes());
}

fn put_str(out: &mut Vec<u8>, s: &str) {
    put_u16(out, s.len() as u16 + 1);
    out.extend_from_slice(s.as_bytes());
    out.push(0);
}

fn packet(dev: u32, id: u32, payload: &[u8]) -> Vec<u8> {
    let mut out = b"ORGB".to_vec();
    put_u32(&mut out, dev);
    put_u32(&mut out, id);
    put_u32(&mut out, payload.len() as u32);
    out.extend_from_slice(payload);
    out
}

/// A DRAM controller with no modes or zones, the given LEDs and colors.
fn dram_payload(leds: &[&str], colors: &[(u8, u8, u8)]) -> Vec<u8> {
    let mut p = Vec::new();
    put_u32(&mut p, 0);
    put_u32(&mut p, 1);
    for _ in 0..5 {
        put_str(&mut p, "");
    }
    put_u16(&mut p, 0);
    put_u32(&mut p, 0);
    put_u16(&mut p, 0);
    put_u16(&mut p, leds.len() as u16);
    for l in leds {
        put_str(&mut p, l);
        put_u32(&mut p, 0);
    }
    put_u16(&mut p, colors.len() as u16);
    for c in colors {
        p.extend_from_slice(&[c.0, c.1, c.2, 0]);
    }
    p
}

fn encode(r: &Request) -> Vec<u8> {
    let mut out = Vec::new();
    r.write_to(&mut out);
    out
}

#[test]
fn end_to_end_dram_controller() {
    let bytes = packet(0, 1, &dram_payload(&["L0", "L1"], &[(255, 0, 0), (0, 255, 0)]));
    match Response::decode_packet(&bytes) {
        Ok(Response::ControllerData(c)) => {
            assert_eq!(c.ty, ControllerType::Dram);
            assert_eq!(c.leds.len(), 2);
            assert_eq!(c.leds[0].name, "L0");
            assert_eq!(c.leds[1].name, "L1");
            assert_eq!(c.leds[1].value, 0);
            assert_eq!(c.colors, vec![Rgb(255, 0, 0), Rgb(0, 255, 0)]);
            assert_eq!(c.name, "");
            assert!(c.modes.is_empty());
            assert!(c.zones.is_empty());
        }
        other => panic!("unexpected: {other:?}"),
    }
}

#[test]
fn inconsistent_counts_still_decode() {
    let bytes = packet(0, 1, &dram_payload(&["L0"], &[(1, 2, 3), (4, 5, 6)]));
    match Response::decode_packet(&bytes) {
        Ok(Response::ControllerData(c)) => {
            assert_eq!(c.leds.len(), 1);
            assert_eq!(c.colors.len(), 2);
        }
        other => panic!("unexpected: {other:?}"),
    }
}

#[test]
fn header_and_payload_decoded_separately() {
    let bytes = packet(3, 0, &7u32.to_le_bytes());
    let header = parse_packet_header(&bytes[..16]).unwrap();
    assert_eq!(header, PacketHeader { dev_idx: 3, pkt_id: 0, pkt_size: 4 });
    match Response::read_from(&header, &bytes[16..]) {
        Ok(Response::ControllerCount(7)) => {}
        other => panic!("unexpected: {other:?}"),
    }
}

#[test]
fn protocol_version_and_device_list_updated() {
    match Response::decode_packet(&packet(0, 40, &3u32.to_le_bytes())) {
        Ok(Response::ProtocolVersion(3)) => {}
        other => panic!("unexpected: {other:?}"),
    }
    match Response::decode_packet(&packet(0, 100, &[])) {
        Ok(Response::DeviceListUpdated) => {}
        other => panic!("unexpected: {other:?}"),
    }
}

#[test]
fn mode_is_decoded_in_wire_order() {
    let mut p = Vec::new();
    put_u32(&mut p, 0);
    put_u32(&mut p, 5);
    for _ in 0..5 {
        put_str(&mut p, "x");
    }
    put_u16(&mut p, 1);
    put_u32(&mut p, 0);
    put_str(&mut p, "Breathing");
    for x in [7u32, 0x1_0041, 10, 1, 1, 2, 4, 1] {
        put_u32(&mut p, x);
    }
    put_u32(&mut p, 2);
    put_u16(&mut p, 1);
    p.extend_from_slice(&[9, 8, 7, 0]);
    put_u16(&mut p, 0);
    put_u16(&mut p, 0);
    put_u16(&mut p, 0);
    match Response::decode_packet(&packet(0, 1, &p)) {
        Ok(Response::ControllerData(c)) => {
            assert_eq!(c.ty, ControllerType::Keyboard);
            assert_eq!(c.serial, "x");
            let m = &c.modes[0];
            assert_eq!(m.name, "Breathing");
            assert_eq!(m.value, 7);
            assert_eq!(m.flags, ModeFlags(0x1_0041));
            assert!(m.flags.contains(ModeFlags::SPECIFIC_SETTINGS));
            assert!(!m.flags.contains(ModeFlags::BRIGHTNESS));
            assert_eq!((m.speed_min, m.speed_max), (10, 1));
            assert_eq!((m.colors_min, m.colors_max), (1, 2));
            assert_eq!((m.speed, m.direction), (4, 1));
            assert_eq!(m.color_mode, ColorMode::ModeSpecific);
            assert_eq!(m.colors, vec![Rgb(9, 8, 7)]);
        }
        other => panic!("unexpected: {other:?}"),
    }
}

fn zone_bytes(matrix: Option<(u32, u32, &[u32])>) -> Vec<u8> {
    let mut p = Vec::new();
    put_str(&mut p, "Keys");
    put_u32(&mut p, 2);
    put_u32(&mut p, 1);
    put_u32(&mut p, 4);
    put_u32(&mut p, 3);
    match matrix {
        None => put_u16(&mut p, 0),
        Some((h, w, cells)) => {
            put_u16(&mut p, (8 + 4 * cells.len()) as u16);
            put_u32(&mut p, h);
            put_u32(&mut p, w);
            for c in cells {
                put_u32(&mut p, *c);
            }
        }
    }
    p
}

#[test]
fn zone_without_matrix() {
    let mut b = zone_bytes(None);
    b.extend_from_slice(&[0xAA, 0xBB]);
    let (z, end) = read_zone(&b, 0).unwrap();
    assert_eq!(z.name, "Keys");
    assert_eq!(z.ty, ZoneType::Matrix);
    assert_eq!((z.leds_min, z.leds_max, z.leds_count), (1, 4, 3));
    assert!(z.matrix.is_none());
    assert_eq!(end, b.len() - 2);
}

#[test]
fn zone_matrix_keeps_unused_cells() {
    let cells = [0u32, 0xFFFF_FFFF, 1, 2, 0xFFFF_FFFF, 3];
    let mut b = zone_bytes(Some((2, 3, &cells)));
    b.extend_from_slice(&[0xAA, 0xBB, 0xCC, 0xDD]);
    let (z, end) = read_zone(&b, 0).unwrap();
    let m = z.matrix.unwrap();
    assert_eq!((m.height, m.width), (2, 3));
    assert_eq!(m.data, cells.to_vec());
    assert_eq!(end, b.len() - 4);
}

#[test]
fn zone_matrix_truncated() {
    let cells = [0u32, 1, 2];
    let b = zone_bytes(Some((2, 2, &cells)));
    assert_eq!(read_zone(&b, 0).unwrap_err(), DecodeError::Truncated);
}

#[test]
fn string_length_counts_terminator() {
    let bytes = encode(&Request::SetClientName("My RGB loop".to_string()));
    assert_eq!(&bytes[12..16], &12u32.to_le_bytes());
    assert_eq!(bytes.len(), 16 + 12);
    assert_eq!(&bytes[16..27], b"My RGB loop");
    assert_eq!(bytes[27], 0);
}

#[test]
fn string_with_bad_terminator_rejected() {
    let b = [3u8, 0, b'h', b'i', b'!'];
    assert_eq!(read_string(&b, 0).unwrap_err(), DecodeError::MissingTerminator);
    let ok = [3u8, 0, b'h', b'i', 0];
    assert_eq!(read_string(&ok, 0).unwrap(), ("hi".to_string(), 5));
}

#[test]
fn string_utf8_decoded() {
    let text = "héllo ✓";
    let mut b = Vec::new();
    put_str(&mut b, text);
    let (s, end) = read_string(&b, 0).unwrap();
    assert_eq!(s, text);
    assert_eq!(s.chars().count(), 7);
    assert_eq!(end, b.len());
}

#[test]
fn string_errors() {
    assert_eq!(read_string(&[0u8, 0], 0).unwrap_err(), DecodeError::BadStringLength);
    assert_eq!(read_string(&[4u8, 0, 0xff, 0xfe, 0xfd, 0], 0).unwrap_err(), DecodeError::InvalidUtf8);
    assert_eq!(read_string(&[4u8, 0, b'a'], 0).unwrap_err(), DecodeError::Truncated);
    assert_eq!(read_string(&[4u8, 0, b'a', b'b', b'c'], 0).unwrap_err(), DecodeError::Truncated);
    assert_eq!(read_string(&[4u8], 0).unwrap_err(), DecodeError::Truncated);
}

#[test]
fn response_errors() {
    let mut bad = packet(0, 0, &1u32.to_le_bytes());
    bad[0] = b'X';
    assert_eq!(Response::decode_packet(&bad).unwrap_err(), DecodeError::BadMagic);
    assert_eq!(Response::decode_packet(&bad[..10]).unwrap_err(), DecodeError::Truncated);
    assert_eq!(
        Response::decode_packet(&packet(0, 7, &[])).unwrap_err(),
        DecodeError::UnknownMessageId(7)
    );
    assert_eq!(
        Response::decode_packet(&packet(0, 0, &[1, 0, 0, 0, 9])).unwrap_err(),
        DecodeError::TrailingBytes
    );
    let mut short = packet(0, 0, &1u32.to_le_bytes());
    short.pop();
    assert_eq!(Response::decode_packet(&short).unwrap_err(), DecodeError::Truncated);
    let mut long = packet(0, 0, &1u32.to_le_bytes());
    long.push(0);
    assert_eq!(Response::decode_packet(&long).unwrap_err(), DecodeError::TrailingBytes);
    let mut p = dram_payload(&[], &[]);
    p[4] = 42;
    assert_eq!(
        Response::decode_packet(&packet(0, 1, &p)).unwrap_err(),
        DecodeError::UnknownDiscriminant(42)
    );
}

#[test]
fn primitive_encoders() {
    let mut out = Vec::new();
    unparse::u16(0x1234, &mut out);
    unparse::u32(0xA1B2_C3D4, &mut out);
    unparse::color(Rgb(10, 20, 30), &mut out);
    assert_eq!(out, vec![0x34, 0x12, 0xD4, 0xC3, 0xB2, 0xA1, 10, 20, 30, 0]);
}

#[test]
fn request_encodings() {
    assert_eq!(encode(&Request::ControllerCount), packet(0, 0, &[]));
    assert_eq!(encode(&Request::ControllerData { controller_idx: 2 }), packet(2, 1, &[]));
    assert_eq!(encode(&Request::ProtocolVersion(3)), packet(0, 40, &[3, 0, 0, 0]));
    let colors = vec![Rgb(1, 2, 3), Rgb(4, 5, 6)];
    let bytes = encode(&Request::UpdateLeds { controller_idx: 1, colors });
    assert_eq!(
        bytes,
        packet(1, 1050, &[14, 0, 0, 0, 2, 0, 1, 2, 3, 0, 4, 5, 6, 0])
    );
}

#[test]
fn request_round_trip() {
    let requests = vec![
        Request::ControllerCount,
        Request::ControllerData { controller_idx: 9 },
        Request::ProtocolVersion(0xDEAD_BEEF),
        Request::SetClientName("ünïcode name".to_string()),
        Request::SetClientName(String::new()),
        Request::UpdateLeds { controller_idx: 4, colors: vec![Rgb(255, 0, 128); 5] },
        Request::UpdateLeds { controller_idx: 0, colors: vec![] },
    ];
    for r in requests {
        let back = Request::read_from(&encode(&r)).unwrap();
        assert_eq!(format!("{back:?}"), format!("{r:?}"));
    }
}

#[test]
fn unimplemented_requests_have_no_encoder() {
    assert!(Request::ControllerCount.has_encoder());
    assert!(!Request::ResizeZone { controller_idx: 0, zone_idx: 0, new_size: 1 }.has_encoder());
    assert!(!Request::SetCustomMode { controller_idx: 0 }.has_encoder());
    assert!(!Request::UpdateSingleLed { controller_idx: 0, led_idx: 0, color: Rgb(0, 0, 0) }
        .has_encoder());
}

#[test]
fn enum_discriminants() {
    assert_eq!(ControllerType::try_from_u32(9), Some(ControllerType::HeadsetStand));
    assert_eq!(ControllerType::try_from_u32(10), None);
    assert_eq!(ZoneType::try_from_u32(1), Some(ZoneType::Linear));
    assert_eq!(ZoneType::try_from_u32(3), None);
    assert_eq!(ColorMode::try_from_u32(0), Some(ColorMode::NoColor));
    assert_eq!(ColorMode::try_from_u32(4), None);
}
