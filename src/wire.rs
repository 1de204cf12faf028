//! The wire format as mathematics: what each structure's bytes are, and what
//! a byte sequence decodes to from a given offset. Every decoder and encoder
//! of the library is specified against these functions.

use vstd::prelude::*;
use vstd::utf8::{decode_utf8, valid_utf8};
use crate::protocol::{
    color_mode_of, controller_type_of, zone_type_of, ColorMode, ControllerDataView, ControllerType, DecodeError, LedView,
    ModeFlags, ModeView, PacketHeader, ResponseView, Rgb, ZoneMatrixView, ZoneType, ZoneView,
};

verus! {

/// The tag that opens every packet: "ORGB".
pub open spec fn magic() -> Seq<u8> {
    seq![0x4fu8, 0x52u8, 0x47u8, 0x42u8]
}

/// A 16-bit integer from its two bytes, least significant first.
pub open spec fn le_u16(b0: u8, b1: u8) -> u16 {
    (b0 as u16) | ((b1 as u16) << 8u16)
}

/// A 32-bit integer from its four bytes, least significant first.
pub open spec fn le_u32(b0: u8, b1: u8, b2: u8, b3: u8) -> u32 {
    (b0 as u32) | ((b1 as u32) << 8u32) | ((b2 as u32) << 16u32) | ((b3 as u32) << 24u32)
}

/// The two bytes of a 16-bit integer, least significant first.
pub open spec fn u16_bytes(x: u16) -> Seq<u8> {
    seq![(x & 0xffu16) as u8, (x >> 8u16) as u8]
}

/// The four bytes of a 32-bit integer, least significant first.
pub open spec fn u32_bytes(x: u32) -> Seq<u8> {
    seq![
        (x & 0xffu32) as u8,
        ((x >> 8u32) & 0xffu32) as u8,
        ((x >> 16u32) & 0xffu32) as u8,
        (x >> 24u32) as u8,
    ]
}

/// A color packed in a 32-bit word: red, green, blue, then an unused zero byte.
pub open spec fn color_bytes(c: Rgb) -> Seq<u8> {
    seq![c.0, c.1, c.2, 0u8]
}

/// The concatenated encodings of a sequence of colors.
pub open spec fn colors_bytes(cs: Seq<Rgb>) -> Seq<u8>
    decreases cs.len(),
{
    if cs.len() == 0 {
        Seq::empty()
    } else {
        colors_bytes(cs.drop_last()) + color_bytes(cs.last())
    }
}

/// A 16-bit integer at offset `p`.
pub open spec fn parse_u16(b: Seq<u8>, p: int) -> Result<(u16, int), DecodeError> {
    if 0 <= p && p + 2 <= b.len() {
        Ok((le_u16(b[p], b[p + 1]), p + 2))
    } else {
        Err(DecodeError::Truncated)
    }
}

/// A 32-bit integer at offset `p`.
pub open spec fn parse_u32(b: Seq<u8>, p: int) -> Result<(u32, int), DecodeError> {
    if 0 <= p && p + 4 <= b.len() {
        Ok((le_u32(b[p], b[p + 1], b[p + 2], b[p + 3]), p + 4))
    } else {
        Err(DecodeError::Truncated)
    }
}

/// A packed color at offset `p`; its fourth byte is ignored.
pub open spec fn parse_color(b: Seq<u8>, p: int) -> Result<(Rgb, int), DecodeError> {
    if 0 <= p && p + 4 <= b.len() {
        Ok((Rgb(b[p], b[p + 1], b[p + 2]), p + 4))
    } else {
        Err(DecodeError::Truncated)
    }
}

/// The body of a string whose length field, terminator included, is `n`:
/// `n - 1` bytes of UTF-8, then one zero byte.
pub open spec fn parse_string_body(b: Seq<u8>, p: int, n: int) -> Result<(Seq<char>, int), DecodeError> {
    if n <= 0 {
        Err(DecodeError::BadStringLength)
    } else if p + n - 1 > b.len() {
        Err(DecodeError::Truncated)
    } else if !valid_utf8(b.subrange(p, p + n - 1)) {
        Err(DecodeError::InvalidUtf8)
    } else if p + n > b.len() {
        Err(DecodeError::Truncated)
    } else if b[p + n - 1] != 0 {
        Err(DecodeError::MissingTerminator)
    } else {
        Ok((decode_utf8(b.subrange(p, p + n - 1)), p + n))
    }
}

/// A string with its 16-bit length field at offset `p`.
pub open spec fn parse_string(b: Seq<u8>, p: int) -> Result<(Seq<char>, int), DecodeError> {
    match parse_u16(b, p) {
        Err(e) => Err(e),
        Ok((n, q)) => parse_string_body(b, q, n as int),
    }
}

/// A string whose terminating byte is not zero is rejected, whatever its
/// other bytes.
pub proof fn lemma_string_needs_terminator(b: Seq<u8>, p: int)
    requires
        parse_u16(b, p) is Ok,
        ({
            let (n, q) = parse_u16(b, p)->Ok_0;
            &&& n > 0
            &&& q + n <= b.len()
            &&& b[q + n - 1] != 0
        }),
    ensures
        parse_string(b, p) is Err,
{
}

/// `n` items one after another from offset `p`, each read by `f`.
pub open spec fn parse_many<T>(
    f: spec_fn(Seq<u8>, int) -> Result<(T, int), DecodeError>,
    b: Seq<u8>,
    p: int,
    n: nat,
) -> Result<(Seq<T>, int), DecodeError>
    decreases n,
{
    if n == 0 {
        Ok((Seq::empty(), p))
    } else {
        match parse_many(f, b, p, (n - 1) as nat) {
            Err(e) => Err(e),
            Ok((xs, q)) => match f(b, q) {
                Err(e) => Err(e),
                Ok((x, r)) => Ok((xs.push(x), r)),
            },
        }
    }
}

/// Once reading a prefix of the items fails, reading all of them fails the same way.
pub proof fn lemma_parse_many_error<T>(
    f: spec_fn(Seq<u8>, int) -> Result<(T, int), DecodeError>,
    b: Seq<u8>,
    p: int,
    i: nat,
    n: nat,
)
    requires
        i <= n,
        parse_many(f, b, p, i) is Err,
    ensures
        parse_many(f, b, p, n) == parse_many(f, b, p, i),
    decreases n - i,
{
    if i < n {
        lemma_parse_many_error(f, b, p, i, (n - 1) as nat);
    }
}

pub open spec fn u32_parser() -> spec_fn(Seq<u8>, int) -> Result<(u32, int), DecodeError> {
    |b: Seq<u8>, p: int| parse_u32(b, p)
}

pub open spec fn string_parser() -> spec_fn(Seq<u8>, int) -> Result<(Seq<char>, int), DecodeError> {
    |b: Seq<u8>, p: int| parse_string(b, p)
}

pub open spec fn color_parser() -> spec_fn(Seq<u8>, int) -> Result<(Rgb, int), DecodeError> {
    |b: Seq<u8>, p: int| parse_color(b, p)
}

pub open spec fn led_parser() -> spec_fn(Seq<u8>, int) -> Result<(LedView, int), DecodeError> {
    |b: Seq<u8>, p: int| parse_led(b, p)
}

pub open spec fn zone_parser() -> spec_fn(Seq<u8>, int) -> Result<(ZoneView, int), DecodeError> {
    |b: Seq<u8>, p: int| parse_zone(b, p)
}

pub open spec fn mode_parser() -> spec_fn(Seq<u8>, int) -> Result<(ModeView, int), DecodeError> {
    |b: Seq<u8>, p: int| parse_mode(b, p)
}

/// An LED: its name, then its value.
pub open spec fn parse_led(b: Seq<u8>, p: int) -> Result<(LedView, int), DecodeError> {
    match parse_string(b, p) {
        Err(e) => Err(e),
        Ok((name, p)) => match parse_u32(b, p) {
            Err(e) => Err(e),
            Ok((value, p)) => Ok((LedView { name, value }, p)),
        },
    }
}

/// A zone matrix: height, width, then `height * width` cells, kept as they are.
pub open spec fn parse_matrix(b: Seq<u8>, p: int) -> Result<(ZoneMatrixView, int), DecodeError> {
    match parse_u32(b, p) {
        Err(e) => Err(e),
        Ok((height, p)) => match parse_u32(b, p) {
            Err(e) => Err(e),
            Ok((width, p)) => match parse_many(u32_parser(), b, p, (height * width) as nat) {
                Err(e) => Err(e),
                Ok((data, p)) => Ok((ZoneMatrixView { height, width, data }, p)),
            },
        },
    }
}

/// A zone type, read as a 32-bit discriminant.
pub open spec fn parse_zone_type(b: Seq<u8>, p: int) -> Result<(ZoneType, int), DecodeError> {
    match parse_u32(b, p) {
        Err(e) => Err(e),
        Ok((x, q)) => match zone_type_of(x) {
            Some(t) => Ok((t, q)),
            None => Err(DecodeError::UnknownDiscriminant(x)),
        },
    }
}

/// A color mode, read as a 32-bit discriminant.
pub open spec fn parse_color_mode(b: Seq<u8>, p: int) -> Result<(ColorMode, int), DecodeError> {
    match parse_u32(b, p) {
        Err(e) => Err(e),
        Ok((x, q)) => match color_mode_of(x) {
            Some(t) => Ok((t, q)),
            None => Err(DecodeError::UnknownDiscriminant(x)),
        },
    }
}

/// A controller type, read as a 32-bit discriminant.
pub open spec fn parse_controller_type(b: Seq<u8>, p: int) -> Result<(ControllerType, int), DecodeError> {
    match parse_u32(b, p) {
        Err(e) => Err(e),
        Ok((x, q)) => match controller_type_of(x) {
            Some(t) => Ok((t, q)),
            None => Err(DecodeError::UnknownDiscriminant(x)),
        },
    }
}

/// The 32-bit word at offset `p`, as the wire stores it.
pub open spec fn word_at(b: Seq<u8>, p: int) -> u32 {
    le_u32(b[p], b[p + 1], b[p + 2], b[p + 3])
}

/// Reading `n` words from `p` either gives the `n` words found there, and
/// ends `4 * n` bytes further, or fails because the bytes ran out.
pub proof fn lemma_parse_words(b: Seq<u8>, p: int, n: nat)
    requires
        0 <= p <= b.len(),
    ensures
        parse_many(u32_parser(), b, p, n) is Ok <==> p + 4 * n <= b.len(),
        parse_many(u32_parser(), b, p, n) matches Ok((xs, q)) ==> {
            &&& xs.len() == n
            &&& q == p + 4 * n
            &&& forall|i: int| 0 <= i < n ==> #[trigger] xs[i] == word_at(b, p + 4 * i)
        },
    decreases n,
{
    if n > 0 {
        lemma_parse_words(b, p, (n - 1) as nat);
        if p + 4 * (n - 1) <= b.len() {
            let q0 = p + 4 * (n - 1);
            assert((u32_parser())(b, q0) == parse_u32(b, q0));
        }
        if let Ok((xs, q)) = parse_many(u32_parser(), b, p, n) {
            let prev = parse_many(u32_parser(), b, p, (n - 1) as nat)->Ok_0.0;
            assert forall|i: int| 0 <= i < n implies #[trigger] xs[i] == word_at(b, p + 4 * i) by {
                if i < n - 1 {
                    assert(xs[i] == prev[i]);
                }
            }
        }
    }
}

/// A decoded zone has a matrix exactly when its matrix-length field is not
/// zero. A matrix of height H and width W holds the H * W words that follow
/// its height and width, each as stored (the unused-cell marker
/// `0xFFFF_FFFF` included), and the zone ends right after them.
pub proof fn lemma_zone_matrix(b: Seq<u8>, p: int)
    requires
        0 <= p,
        parse_zone(b, p) is Ok,
    ensures
        ({
            let (z, end) = parse_zone(b, p)->Ok_0;
            let q = parse_string(b, p)->Ok_0.1;
            let matrix_len = le_u16(b[q + 16], b[q + 17]);
            &&& matrix_len == 0 ==> z.matrix is None && end == q + 18
            &&& matrix_len != 0 ==> (z.matrix matches Some(m) && {
                let k = m.height * m.width;
                &&& m.height == word_at(b, q + 18)
                &&& m.width == word_at(b, q + 22)
                &&& m.data.len() == k
                &&& end == q + 26 + 4 * k
                &&& forall|i: int| 0 <= i < k ==> #[trigger] m.data[i] == word_at(b, q + 26 + 4 * i)
            })
        }),
{
    let q = parse_string(b, p)->Ok_0.1;
    assert(q >= p);
    let matrix_len = le_u16(b[q + 16], b[q + 17]);
    if matrix_len != 0 {
        let h = word_at(b, q + 18);
        let w = word_at(b, q + 22);
        lemma_parse_words(b, q + 26, (h * w) as nat);
    }
}

/// A zone: name, type, LED bounds and count, the matrix's byte length, and the
/// matrix itself unless that length is zero.
pub open spec fn parse_zone(b: Seq<u8>, p: int) -> Result<(ZoneView, int), DecodeError> {
    match parse_string(b, p) {
        Err(e) => Err(e),
        Ok((name, p)) => match parse_zone_type(b, p) {
            Err(e) => Err(e),
            Ok((ty, p)) => match parse_u32(b, p) {
                Err(e) => Err(e),
                Ok((leds_min, p)) => match parse_u32(b, p) {
                    Err(e) => Err(e),
                    Ok((leds_max, p)) => match parse_u32(b, p) {
                        Err(e) => Err(e),
                        Ok((leds_count, p)) => match parse_u16(b, p) {
                            Err(e) => Err(e),
                            Ok((matrix_len, p)) => if matrix_len == 0 {
                                Ok((ZoneView { name, ty, leds_min, leds_max, leds_count, matrix: None }, p))
                            } else {
                                match parse_matrix(b, p) {
                                    Err(e) => Err(e),
                                    Ok((m, p)) => Ok((
                                        ZoneView { name, ty, leds_min, leds_max, leds_count, matrix: Some(m) },
                                        p,
                                    )),
                                }
                            },
                        },
                    },
                },
            },
        },
    }
}

/// Eight consecutive 32-bit integers.
pub open spec fn parse_u32s8(b: Seq<u8>, p: int) -> Result<(Seq<u32>, int), DecodeError> {
    parse_many(u32_parser(), b, p, 8)
}

/// A mode: name, value, flags, speed bounds, color-count bounds, speed,
/// direction, color mode, then its counted colors.
pub open spec fn parse_mode(b: Seq<u8>, p: int) -> Result<(ModeView, int), DecodeError> {
    match parse_string(b, p) {
        Err(e) => Err(e),
        Ok((name, p)) => match parse_u32s8(b, p) {
            Err(e) => Err(e),
            Ok((xs, p)) => match parse_color_mode(b, p) {
                Err(e) => Err(e),
                Ok((color_mode, p)) => match parse_u16(b, p) {
                    Err(e) => Err(e),
                    Ok((n, p)) => match parse_many(color_parser(), b, p, n as nat) {
                        Err(e) => Err(e),
                        Ok((colors, p)) => Ok((
                            ModeView {
                                name,
                                value: xs[0],
                                flags: ModeFlags(xs[1]),
                                speed_min: xs[2],
                                speed_max: xs[3],
                                colors_min: xs[4],
                                colors_max: xs[5],
                                speed: xs[6],
                                direction: xs[7],
                                color_mode,
                                colors,
                            },
                            p,
                        )),
                    },
                },
            },
        },
    }
}

/// A 16-bit count followed by that many items.
pub open spec fn parse_counted<T>(
    f: spec_fn(Seq<u8>, int) -> Result<(T, int), DecodeError>,
    b: Seq<u8>,
    p: int,
) -> Result<(Seq<T>, int), DecodeError> {
    match parse_u16(b, p) {
        Err(e) => Err(e),
        Ok((n, q)) => parse_many(f, b, q, n as nat),
    }
}

/// The five strings of a controller record, in wire order.
pub open spec fn parse_strings5(b: Seq<u8>, p: int) -> Result<(Seq<Seq<char>>, int), DecodeError> {
    parse_many(string_parser(), b, p, 5)
}

/// A controller record: its size field (read and not used), type, name,
/// description, version, serial, location, mode count, active mode, the modes,
/// then the counted zones, LEDs and colors.
pub open spec fn parse_controller(b: Seq<u8>, p: int) -> Result<(ControllerDataView, int), DecodeError> {
    match parse_u32(b, p) {
        Err(e) => Err(e),
        Ok((_size, p)) => match parse_controller_type(b, p) {
            Err(e) => Err(e),
            Ok((ty, p)) => match parse_strings5(b, p) {
                Err(e) => Err(e),
                Ok((strs, p)) => match parse_u16(b, p) {
                    Err(e) => Err(e),
                    Ok((num_modes, p)) => match parse_u32(b, p) {
                        Err(e) => Err(e),
                        Ok((active_mode, p)) => match parse_many(mode_parser(), b, p, num_modes as nat) {
                            Err(e) => Err(e),
                            Ok((modes, p)) => match parse_counted(zone_parser(), b, p) {
                                Err(e) => Err(e),
                                Ok((zones, p)) => match parse_counted(led_parser(), b, p) {
                                    Err(e) => Err(e),
                                    Ok((leds, p)) => match parse_counted(color_parser(), b, p) {
                                        Err(e) => Err(e),
                                        Ok((colors, p)) => Ok((
                                            ControllerDataView {
                                                ty,
                                                name: strs[0],
                                                description: strs[1],
                                                version: strs[2],
                                                serial: strs[3],
                                                location: strs[4],
                                                modes,
                                                active_mode,
                                                zones,
                                                leds,
                                                colors,
                                            },
                                            p,
                                        )),
                                    },
                                },
                            },
                        },
                    },
                },
            },
        },
    }
}

/// Length in bytes of a packet header.
pub open spec fn header_len() -> int {
    16
}

/// A packet header: the tag "ORGB", then device index, message id and
/// payload length.
pub open spec fn parse_header(b: Seq<u8>) -> Result<PacketHeader, DecodeError> {
    if b.len() < header_len() {
        Err(DecodeError::Truncated)
    } else if b.subrange(0, 4) != magic() {
        Err(DecodeError::BadMagic)
    } else {
        Ok(PacketHeader {
            dev_idx: le_u32(b[4], b[5], b[6], b[7]),
            pkt_id: le_u32(b[8], b[9], b[10], b[11]),
            pkt_size: le_u32(b[12], b[13], b[14], b[15]),
        })
    }
}

/// The payload of a response, chosen by message id, before the check that
/// nothing is left over.
pub open spec fn parse_response_body(id: u32, d: Seq<u8>) -> Result<(ResponseView, int), DecodeError> {
    if id == 0 {
        match parse_u32(d, 0) {
            Err(e) => Err(e),
            Ok((c, p)) => Ok((ResponseView::ControllerCount(c), p)),
        }
    } else if id == 1 {
        match parse_controller(d, 0) {
            Err(e) => Err(e),
            Ok((c, p)) => Ok((ResponseView::ControllerData(c), p)),
        }
    } else if id == 40 {
        match parse_u32(d, 0) {
            Err(e) => Err(e),
            Ok((v, p)) => Ok((ResponseView::ProtocolVersion(v), p)),
        }
    } else if id == 100 {
        Ok((ResponseView::DeviceListUpdated, 0))
    } else {
        Err(DecodeError::UnknownMessageId(id))
    }
}

/// A response's payload, which it must fill exactly.
pub open spec fn parse_response(h: PacketHeader, d: Seq<u8>) -> Result<ResponseView, DecodeError> {
    match parse_response_body(h.pkt_id, d) {
        Err(e) => Err(e),
        Ok((r, p)) => if p == d.len() {
            Ok(r)
        } else {
            Err(DecodeError::TrailingBytes)
        },
    }
}

/// The payload that follows the header of a whole packet, if the packet
/// holds exactly the length the header gives.
pub open spec fn packet_payload(h: PacketHeader, b: Seq<u8>) -> Result<Seq<u8>, DecodeError> {
    if b.len() < header_len() + h.pkt_size {
        Err(DecodeError::Truncated)
    } else if b.len() > header_len() + h.pkt_size {
        Err(DecodeError::TrailingBytes)
    } else {
        Ok(b.subrange(header_len(), b.len() as int))
    }
}

/// A whole response packet: header, then exactly the payload it announces.
pub open spec fn parse_response_packet(b: Seq<u8>) -> Result<ResponseView, DecodeError> {
    match parse_header(b) {
        Err(e) => Err(e),
        Ok(h) => match packet_payload(h, b) {
            Err(e) => Err(e),
            Ok(d) => parse_response(h, d),
        },
    }
}

} // verus!
