//! Packet framing: the fixed header, and responses decoded from payloads.

use vstd::prelude::*;
use vstd::slice::slice_subrange;
use crate::parse::{read_controller_data, read_u32};
use crate::protocol::{DecodeError, PacketHeader, Response};
use crate::wire::{
    magic, packet_payload, parse_header, parse_response, parse_response_body,
    parse_response_packet,
};

verus! {

/// Length in bytes of a packet header.
pub const HEADER_LEN: usize = 16;

/// A decoded value seen through its view.
pub open spec fn view_result<T: View>(r: Result<T, DecodeError>) -> Result<T::V, DecodeError> {
    match r {
        Ok(v) => Ok(v@),
        Err(e) => Err(e),
    }
}

/// Reads a packet header from the first bytes of `b`.
pub fn parse_packet_header(b: &[u8]) -> (r: Result<PacketHeader, DecodeError>)
    ensures
        r == parse_header(b@),
{
    if b.len() < HEADER_LEN {
        return Err(DecodeError::Truncated);
    }
    if !(b[0] == 0x4f && b[1] == 0x52 && b[2] == 0x47 && b[3] == 0x42) {
        assert(b@.subrange(0, 4) != magic()) by {
            if b@.subrange(0, 4) == magic() {
                assert(b@.subrange(0, 4)[0] == b@[0]);
                assert(b@.subrange(0, 4)[1] == b@[1]);
                assert(b@.subrange(0, 4)[2] == b@[2]);
                assert(b@.subrange(0, 4)[3] == b@[3]);
            }
        }
        return Err(DecodeError::BadMagic);
    }
    assert(b@.subrange(0, 4) =~= magic());
    let (dev_idx, _) = read_u32(b, 4).unwrap();
    let (pkt_id, _) = read_u32(b, 8).unwrap();
    let (pkt_size, _) = read_u32(b, 12).unwrap();
    Ok(PacketHeader { dev_idx, pkt_id, pkt_size })
}

/// The payload of a whole packet whose header is `header`: the bytes after
/// the header, which must be exactly as many as the header announces.
pub fn packet_payload_slice<'a>(packet: &'a [u8], header: &PacketHeader) -> (r: Result<&'a [u8], DecodeError>)
    ensures
        view_result(r) == packet_payload(*header, packet@),
{
    let total: u64 = HEADER_LEN as u64 + header.pkt_size as u64;
    if (packet.len() as u64) < total {
        return Err(DecodeError::Truncated);
    }
    if (packet.len() as u64) > total {
        return Err(DecodeError::TrailingBytes);
    }
    Ok(slice_subrange(packet, HEADER_LEN, packet.len()))
}

impl Response {
    /// Decodes the payload of a packet whose header is `header`, dispatching
    /// on its message id. The payload must be consumed exactly.
    pub fn read_from(header: &PacketHeader, payload: &[u8]) -> (r: Result<Response, DecodeError>)
        ensures
            view_result(r) == parse_response(*header, payload@),
    {
        let id = header.pkt_id;
        let (response, end) = if id == 0 {
            let (c, p) = read_u32(payload, 0)?;
            (Response::ControllerCount(c), p)
        } else if id == 1 {
            let (c, p) = read_controller_data(payload, 0)?;
            (Response::ControllerData(c), p)
        } else if id == 40 {
            let (v, p) = read_u32(payload, 0)?;
            (Response::ProtocolVersion(v), p)
        } else if id == 100 {
            (Response::DeviceListUpdated, 0)
        } else {
            return Err(DecodeError::UnknownMessageId(id));
        };
        assert(parse_response_body(id, payload@) == Ok::<_, DecodeError>((response@, end as int)));
        if end == payload.len() {
            Ok(response)
        } else {
            Err(DecodeError::TrailingBytes)
        }
    }

    /// Decodes a whole packet: its header, then exactly the payload it announces.
    pub fn decode_packet(packet: &[u8]) -> (r: Result<Response, DecodeError>)
        ensures
            view_result(r) == parse_response_packet(packet@),
    {
        let header = parse_packet_header(packet)?;
        let payload = packet_payload_slice(packet, &header)?;
        Response::read_from(&header, payload)
    }
}

} // verus!
