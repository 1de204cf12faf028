//! Requests on the wire: the encoders of the requests this library sends,
//! and a decoder that reads them back.

use vstd::prelude::*;
use vstd::utf8::{encode_utf8, encode_utf8_decode_utf8, encode_utf8_valid_utf8};
use crate::packet::{packet_payload_slice, parse_packet_header, view_result};
use crate::parse::{read_colors, read_string_body, read_u16, read_u32};
use crate::protocol::{DecodeError, PacketHeader, Request, RequestView, Rgb};
use crate::unparse::{self, lemma_u16_round_trip, lemma_u32_round_trip};
use crate::wire::{
    color_bytes, color_parser, colors_bytes, magic, packet_payload, parse_color, parse_header,
    le_u32, parse_many, parse_string_body, parse_u16, parse_u32, u16_bytes, u32_bytes,
};

verus! {

/// The bytes of a header: the tag, device index, message id and payload length.
pub open spec fn header_bytes(dev_idx: u32, pkt_id: u32, pkt_size: u32) -> Seq<u8> {
    magic() + u32_bytes(dev_idx) + u32_bytes(pkt_id) + u32_bytes(pkt_size)
}

impl RequestView {
    /// Whether this library can encode the request.
    pub open spec fn has_encoder(self) -> bool {
        match self {
            RequestView::ControllerCount => true,
            RequestView::ControllerData { .. } => true,
            RequestView::ProtocolVersion(_) => true,
            RequestView::SetClientName(_) => true,
            RequestView::UpdateLeds { .. } => true,
            _ => false,
        }
    }

    /// Whether the request has an encoder and its lengths fit their fields.
    pub open spec fn encodable(self) -> bool {
        &&& self.has_encoder()
        &&& self matches RequestView::SetClientName(name) ==> encode_utf8(name).len() + 1 <= u32::MAX
        &&& self matches RequestView::UpdateLeds { colors, .. } ==> colors.len() <= u16::MAX
    }
}

/// The payload length of an LED update carrying `n` colors.
pub open spec fn update_leds_len(n: nat) -> u32 {
    (6 + 4 * n) as u32
}

/// The packet that encodes a request.
pub open spec fn request_bytes(r: RequestView) -> Seq<u8> {
    match r {
        RequestView::ControllerCount => header_bytes(0, 0, 0),
        RequestView::ControllerData { controller_idx } => header_bytes(controller_idx, 1, 0),
        RequestView::ProtocolVersion(v) => header_bytes(0, 40, 4) + u32_bytes(v),
        RequestView::SetClientName(name) => header_bytes(0, 50, (encode_utf8(name).len() + 1) as u32)
            + encode_utf8(name) + seq![0u8],
        RequestView::UpdateLeds { controller_idx, colors } => {
            let len = update_leds_len(colors.len());
            header_bytes(controller_idx, 1050, len) + u32_bytes(len) + u16_bytes(colors.len() as u16)
                + colors_bytes(colors)
        },
        _ => Seq::empty(),
    }
}

/// A request's payload, chosen by message id, before the check that nothing
/// is left over.
pub open spec fn parse_request_body(h: PacketHeader, d: Seq<u8>) -> Result<(RequestView, int), DecodeError> {
    if h.pkt_id == 0 {
        Ok((RequestView::ControllerCount, 0))
    } else if h.pkt_id == 1 {
        Ok((RequestView::ControllerData { controller_idx: h.dev_idx }, 0))
    } else if h.pkt_id == 40 {
        match parse_u32(d, 0) {
            Err(e) => Err(e),
            Ok((v, p)) => Ok((RequestView::ProtocolVersion(v), p)),
        }
    } else if h.pkt_id == 50 {
        match parse_string_body(d, 0, d.len() as int) {
            Err(e) => Err(e),
            Ok((name, p)) => Ok((RequestView::SetClientName(name), p)),
        }
    } else if h.pkt_id == 1050 {
        match parse_u32(d, 0) {
            Err(e) => Err(e),
            Ok((_len, p)) => match parse_u16(d, p) {
                Err(e) => Err(e),
                Ok((n, p)) => match parse_many(color_parser(), d, p, n as nat) {
                    Err(e) => Err(e),
                    Ok((colors, p)) => Ok((RequestView::UpdateLeds { controller_idx: h.dev_idx, colors }, p)),
                },
            },
        }
    } else {
        Err(DecodeError::UnknownMessageId(h.pkt_id))
    }
}

/// A whole request packet: header, then exactly the payload it announces,
/// which the request must fill.
pub open spec fn parse_request_packet(b: Seq<u8>) -> Result<RequestView, DecodeError> {
    match parse_header(b) {
        Err(e) => Err(e),
        Ok(h) => match packet_payload(h, b) {
            Err(e) => Err(e),
            Ok(d) => match parse_request_body(h, d) {
                Err(e) => Err(e),
                Ok((r, p)) => if p == d.len() {
                    Ok(r)
                } else {
                    Err(DecodeError::TrailingBytes)
                },
            },
        },
    }
}

impl Request {
    /// Whether this library can encode the request.
    pub fn has_encoder(&self) -> (r: bool)
        ensures
            r == self@.has_encoder(),
    {
        match self {
            Request::ControllerCount => true,
            Request::ControllerData { .. } => true,
            Request::ProtocolVersion(_) => true,
            Request::SetClientName(_) => true,
            Request::UpdateLeds { .. } => true,
            _ => false,
        }
    }

    /// Appends the packet that encodes this request to `output`.
    pub fn write_to(&self, output: &mut Vec<u8>)
        requires
            self@.encodable(),
        ensures
            final(output)@ == old(output)@ + request_bytes(self@),
    {
        output.push(0x4f);
        output.push(0x52);
        output.push(0x47);
        output.push(0x42);
        assert(output@ =~= old(output)@ + magic());
        match self {
            Request::ControllerCount => {
                unparse::u32(0, output);
                unparse::u32(0, output);
                unparse::u32(0, output);
                assert(output@ =~= old(output)@ + request_bytes(self@));
            },
            Request::ProtocolVersion(v) => {
                unparse::u32(0, output);
                unparse::u32(40, output);
                unparse::u32(4, output);
                unparse::u32(*v, output);
                assert(output@ =~= old(output)@ + request_bytes(self@));
            },
            Request::ControllerData { controller_idx } => {
                unparse::u32(*controller_idx, output);
                unparse::u32(1, output);
                unparse::u32(0, output);
                assert(output@ =~= old(output)@ + request_bytes(self@));
            },
            Request::SetClientName(name) => {
                let bytes = name.as_str().as_bytes();
                let len: u32 = (bytes.len() + 1) as u32;
                unparse::u32(0, output);
                unparse::u32(50, output);
                unparse::u32(len, output);
                let ghost base = output@;
                let mut i: usize = 0;
                while i < bytes.len()
                    invariant
                        i <= bytes@.len(),
                        output@ == base + bytes@.subrange(0, i as int),
                    decreases bytes@.len() - i,
                {
                    output.push(bytes[i]);
                    i = i + 1;
                    assert(output@ =~= base + bytes@.subrange(0, i as int));
                }
                output.push(0);
                assert(bytes@.subrange(0, bytes@.len() as int) =~= bytes@);
                assert(output@ =~= old(output)@ + request_bytes(self@));
            },
            Request::UpdateLeds { controller_idx, colors } => {
                let n: usize = colors.len();
                let len: u32 = 6 + 4 * (n as u32);
                unparse::u32(*controller_idx, output);
                unparse::u32(1050, output);
                unparse::u32(len, output);
                unparse::u32(len, output);
                unparse::u16(n as u16, output);
                let ghost base = output@;
                let mut i: usize = 0;
                assert(colors@.subrange(0, 0) =~= Seq::<Rgb>::empty());
                while i < n
                    invariant
                        n == colors@.len(),
                        i <= n,
                        output@ == base + colors_bytes(colors@.subrange(0, i as int)),
                    decreases n - i,
                {
                    unparse::color(colors[i], output);
                    assert(colors@.subrange(0, i + 1).drop_last() =~= colors@.subrange(0, i as int));
                    i = i + 1;
                    assert(output@ =~= base + colors_bytes(colors@.subrange(0, i as int)));
                }
                assert(colors@.subrange(0, n as int) =~= colors@);
                assert(output@ =~= old(output)@ + request_bytes(self@));
            },
            _ => {},
        }
    }
}

impl Request {
    /// Decodes a whole request packet: the counterpart of `write_to` for the
    /// requests that have an encoder.
    pub fn read_from(packet: &[u8]) -> (r: Result<Request, DecodeError>)
        ensures
            view_result(r) == parse_request_packet(packet@),
    {
        let header = parse_packet_header(packet)?;
        let d = packet_payload_slice(packet, &header)?;
        let id = header.pkt_id;
        let (request, end) = if id == 0 {
            (Request::ControllerCount, 0)
        } else if id == 1 {
            (Request::ControllerData { controller_idx: header.dev_idx }, 0)
        } else if id == 40 {
            let (v, p) = read_u32(d, 0)?;
            (Request::ProtocolVersion(v), p)
        } else if id == 50 {
            let (name, p) = read_string_body(d, 0, d.len())?;
            (Request::SetClientName(name), p)
        } else if id == 1050 {
            let (_len, p) = read_u32(d, 0)?;
            let (n, p) = read_u16(d, p)?;
            let (colors, p) = read_colors(d, p, n)?;
            (Request::UpdateLeds { controller_idx: header.dev_idx, colors }, p)
        } else {
            return Err(DecodeError::UnknownMessageId(id));
        };
        assert(parse_request_body(header, d@) == Ok::<_, DecodeError>((request@, end as int)));
        if end == d.len() {
            Ok(request)
        } else {
            Err(DecodeError::TrailingBytes)
        }
    }
}

/// The encoding of `n` colors takes four bytes each.
pub proof fn lemma_colors_bytes_len(cs: Seq<Rgb>)
    ensures
        colors_bytes(cs).len() == 4 * cs.len(),
    decreases cs.len(),
{
    if cs.len() > 0 {
        lemma_colors_bytes_len(cs.drop_last());
    }
}

/// Encoded colors, found at offset `p`, decode to the same colors.
pub proof fn lemma_parse_colors(b: Seq<u8>, p: int, cs: Seq<Rgb>)
    requires
        0 <= p,
        p + 4 * cs.len() <= b.len(),
        b.subrange(p, p + 4 * cs.len()) == colors_bytes(cs),
    ensures
        parse_many(color_parser(), b, p, cs.len()) == Ok::<(Seq<Rgb>, int), DecodeError>((cs, p + 4 * cs.len())),
    decreases cs.len(),
{
    if cs.len() == 0 {
        assert(cs =~= Seq::<Rgb>::empty());
    } else {
        let init = cs.drop_last();
        let last = cs.last();
        let q = p + 4 * init.len();
        lemma_colors_bytes_len(init);
        assert(b.subrange(p, q) =~= b.subrange(p, p + 4 * cs.len()).subrange(0, (4 * init.len()) as int));
        assert(b.subrange(p, q) =~= colors_bytes(init));
        lemma_parse_colors(b, p, init);
        assert(b[q] == b.subrange(p, p + 4 * cs.len())[(4 * init.len()) as int]);
        assert(b[q + 1] == b.subrange(p, p + 4 * cs.len())[(4 * init.len() + 1) as int]);
        assert(b[q + 2] == b.subrange(p, p + 4 * cs.len())[(4 * init.len() + 2) as int]);
        assert(parse_color(b, q) == Ok::<(Rgb, int), DecodeError>((last, q + 4)));
        assert(init.push(last) =~= cs);
    }
}

/// A header followed by a payload of the announced length is read back as
/// that header and that payload.
pub proof fn lemma_header_round_trip(dev_idx: u32, pkt_id: u32, d: Seq<u8>)
    requires
        d.len() <= u32::MAX,
    ensures
        parse_header(header_bytes(dev_idx, pkt_id, d.len() as u32) + d)
            == Ok::<_, DecodeError>(PacketHeader { dev_idx, pkt_id, pkt_size: d.len() as u32 }),
        packet_payload(
            PacketHeader { dev_idx, pkt_id, pkt_size: d.len() as u32 },
            header_bytes(dev_idx, pkt_id, d.len() as u32) + d,
        ) == Ok::<_, DecodeError>(d),
{
    let size = d.len() as u32;
    let b = header_bytes(dev_idx, pkt_id, size) + d;
    lemma_u32_round_trip(dev_idx);
    lemma_u32_round_trip(pkt_id);
    lemma_u32_round_trip(size);
    assert(b.subrange(0, 4) =~= magic());
    assert(b.subrange(16, b.len() as int) =~= d);
}

/// Decoding the encoding of a request gives the request back: every request
/// that has an encoder, and whose lengths fit their fields, survives the
/// round trip with its fields, colors and name unchanged.
pub proof fn lemma_request_round_trip(r: RequestView)
    requires
        r.encodable(),
    ensures
        parse_request_packet(request_bytes(r)) == Ok::<_, DecodeError>(r),
{
    broadcast use encode_utf8_valid_utf8, encode_utf8_decode_utf8;

    match r {
        RequestView::ControllerCount => {
            lemma_header_round_trip(0, 0, Seq::empty());
            assert(request_bytes(r) =~= header_bytes(0, 0, 0) + Seq::<u8>::empty());
        },
        RequestView::ControllerData { controller_idx } => {
            lemma_header_round_trip(controller_idx, 1, Seq::empty());
            assert(request_bytes(r) =~= header_bytes(controller_idx, 1, 0) + Seq::<u8>::empty());
        },
        RequestView::ProtocolVersion(v) => {
            lemma_header_round_trip(0, 40, u32_bytes(v));
            lemma_u32_round_trip(v);
        },
        RequestView::SetClientName(name) => {
            let d = encode_utf8(name) + seq![0u8];
            lemma_header_round_trip(0, 50, d);
            assert(request_bytes(r) =~= header_bytes(0, 50, d.len() as u32) + d);
            assert(d.subrange(0, d.len() - 1) =~= encode_utf8(name));
        },
        RequestView::UpdateLeds { controller_idx, colors } => {
            let n = colors.len();
            let len = update_leds_len(n);
            lemma_colors_bytes_len(colors);
            let d = u32_bytes(len) + u16_bytes(n as u16) + colors_bytes(colors);
            lemma_header_round_trip(controller_idx, 1050, d);
            assert(request_bytes(r) =~= header_bytes(controller_idx, 1050, d.len() as u32) + d);
            lemma_u32_round_trip(len);
            lemma_u16_round_trip(n as u16);
            assert(d.subrange(6, (6 + 4 * n) as int) =~= colors_bytes(colors));
            lemma_parse_colors(d, 6, colors);
        },
        _ => {},
    }
}

/// A client name of N bytes is framed with a length field of N + 1 and
/// followed by exactly N + 1 bytes: its own, then one zero byte.
pub proof fn lemma_client_name_framing(name: Seq<char>)
    requires
        (RequestView::SetClientName(name)).encodable(),
    ensures
        ({
            let b = request_bytes(RequestView::SetClientName(name));
            let n = encode_utf8(name).len() as int;
            &&& le_u32(b[12], b[13], b[14], b[15]) == n + 1
            &&& b.len() == 16 + n + 1
            &&& b.subrange(16, 16 + n) == encode_utf8(name)
            &&& b[16 + n] == 0
        }),
{
    let n = encode_utf8(name).len() as int;
    lemma_u32_round_trip((n + 1) as u32);
    let b = request_bytes(RequestView::SetClientName(name));
    assert(b.subrange(16, 16 + n) =~= encode_utf8(name));
}

} // verus!
