//! Decoders: each reads one structure from a byte slice at an offset and
//! returns it with the offset just past it, exactly as `wire` specifies.

use vstd::prelude::*;
use vstd::slice::slice_subrange;
use vstd::utf8::{decode_utf8, valid_utf8};
use crate::protocol::{
    ColorMode, ControllerData, LedView, ModeView, ZoneView, ControllerType, DecodeError, Led, Mode, ModeFlags, Rgb, Zone,
    ZoneMatrix, ZoneType,
};
use crate::wire::{
    color_parser, led_parser, string_parser, lemma_parse_many_error, mode_parser, parse_color, parse_controller,
    parse_color_mode, parse_controller_type, parse_zone_type, parse_led, parse_many, parse_matrix, parse_mode, parse_string, parse_string_body,
    parse_u16, parse_u32, parse_zone, u32_parser, zone_parser,
};

verus! {

/// A decoder's result seen through the views of what it decoded.
pub open spec fn lift<T: View>(r: Result<(T, usize), DecodeError>) -> Result<(T::V, int), DecodeError> {
    match r {
        Ok((v, q)) => Ok((v@, q as int)),
        Err(e) => Err(e),
    }
}

/// Relies on std::str::from_utf8: it accepts exactly the byte sequences that
/// are valid UTF-8, and the text it returns is the one those bytes encode.
#[verifier::external_body]
fn text_from_utf8(bytes: &[u8]) -> (r: Option<String>)
    ensures
        r is Some <==> valid_utf8(bytes@),
        r matches Some(s) ==> s@ == decode_utf8(bytes@),
{
    match std::str::from_utf8(bytes) {
        Ok(s) => Some(String::from(s)),
        Err(_) => None,
    }
}

/// Reads a 16-bit integer, least significant byte first.
pub fn read_u16(b: &[u8], p: usize) -> (r: Result<(u16, usize), DecodeError>)
    ensures
        lift(r) == parse_u16(b@, p as int),
{
    if p > b.len() || b.len() - p < 2 {
        return Err(DecodeError::Truncated);
    }
    let v: u16 = (b[p] as u16) | ((b[p + 1] as u16) << 8u16);
    Ok((v, p + 2))
}

/// Reads a 32-bit integer, least significant byte first.
pub fn read_u32(b: &[u8], p: usize) -> (r: Result<(u32, usize), DecodeError>)
    ensures
        lift(r) == parse_u32(b@, p as int),
{
    if p > b.len() || b.len() - p < 4 {
        return Err(DecodeError::Truncated);
    }
    let v: u32 = (b[p] as u32) | ((b[p + 1] as u32) << 8u32) | ((b[p + 2] as u32) << 16u32)
        | ((b[p + 3] as u32) << 24u32);
    Ok((v, p + 4))
}

/// Reads a packed color, ignoring its fourth byte.
pub fn read_color(b: &[u8], p: usize) -> (r: Result<(Rgb, usize), DecodeError>)
    ensures
        lift(r) == parse_color(b@, p as int),
{
    if p > b.len() || b.len() - p < 4 {
        return Err(DecodeError::Truncated);
    }
    Ok((Rgb(b[p], b[p + 1], b[p + 2]), p + 4))
}

/// Reads the body of a string whose length field, terminator included, is `n`.
pub fn read_string_body(b: &[u8], p: usize, n: usize) -> (r: Result<(String, usize), DecodeError>)
    requires
        p <= b@.len(),
    ensures
        lift(r) == parse_string_body(b@, p as int, n as int),
{
    if n == 0 {
        return Err(DecodeError::BadStringLength);
    }
    let m: usize = n - 1;
    if b.len() - p < m {
        return Err(DecodeError::Truncated);
    }
    let text = text_from_utf8(slice_subrange(b, p, p + m));
    match text {
        None => Err(DecodeError::InvalidUtf8),
        Some(s) => {
            if b.len() - (p + m) < 1 {
                Err(DecodeError::Truncated)
            } else if b[p + m] != 0 {
                Err(DecodeError::MissingTerminator)
            } else {
                Ok((s, p + m + 1))
            }
        },
    }
}

/// Reads a string: its length field, its UTF-8 bytes and its zero terminator.
pub fn read_string(b: &[u8], p: usize) -> (r: Result<(String, usize), DecodeError>)
    ensures
        lift(r) == parse_string(b@, p as int),
{
    let (n, q) = read_u16(b, p)?;
    read_string_body(b, q, n as usize)
}

} // verus!

verus! {

/// A decoder's result for a vector, seen through the views of its items.
pub open spec fn lift_seq<T: View>(r: Result<(Vec<T>, usize), DecodeError>) -> Result<(Seq<T::V>, int), DecodeError> {
    match r {
        Ok((v, q)) => Ok((v@.map_values(|x: T| x@), q as int)),
        Err(e) => Err(e),
    }
}

/// Reads `n` consecutive 32-bit integers.
pub fn read_u32s(b: &[u8], p: usize, n: u64) -> (r: Result<(Vec<u32>, usize), DecodeError>)
    ensures
        lift(r) == parse_many(u32_parser(), b@, p as int, n as nat),
{
    let mut out: Vec<u32> = Vec::new();
    let mut q: usize = p;
    let mut i: u64 = 0;
    while i < n
        invariant
            i <= n,
            parse_many(u32_parser(), b@, p as int, i as nat) == Ok::<(Seq<u32>, int), DecodeError>((out@, q as int)),
        decreases n - i,
    {
        match read_u32(b, q) {
            Err(e) => {
                proof {
                    lemma_parse_many_error(u32_parser(), b@, p as int, (i + 1) as nat, n as nat);
                }
                return Err(e);
            },
            Ok((x, next)) => {
                out.push(x);
                q = next;
                i = i + 1;
            },
        }
    }
    Ok((out, q))
}

/// Reads `n` consecutive packed colors.
pub fn read_colors(b: &[u8], p: usize, n: u16) -> (r: Result<(Vec<Rgb>, usize), DecodeError>)
    ensures
        lift(r) == parse_many(color_parser(), b@, p as int, n as nat),
{
    let mut out: Vec<Rgb> = Vec::new();
    let mut q: usize = p;
    let mut i: u16 = 0;
    while i < n
        invariant
            i <= n,
            parse_many(color_parser(), b@, p as int, i as nat) == Ok::<(Seq<Rgb>, int), DecodeError>((out@, q as int)),
        decreases n - i,
    {
        match read_color(b, q) {
            Err(e) => {
                proof {
                    lemma_parse_many_error(color_parser(), b@, p as int, (i + 1) as nat, n as nat);
                }
                return Err(e);
            },
            Ok((c, next)) => {
                out.push(c);
                q = next;
                i = i + 1;
            },
        }
    }
    Ok((out, q))
}

/// Reads `n` consecutive strings.
pub fn read_strings(b: &[u8], p: usize, n: u16) -> (r: Result<(Vec<String>, usize), DecodeError>)
    ensures
        lift_seq(r) == parse_many(string_parser(), b@, p as int, n as nat),
        r matches Ok((v, _)) ==> v@.len() == n,
{
    let mut out: Vec<String> = Vec::new();
    let mut q: usize = p;
    let mut i: u16 = 0;
    assert(out@.map_values(|x: String| x@) =~= Seq::<Seq<char>>::empty());
    while i < n
        invariant
            i <= n,
            out@.len() == i,
            parse_many(string_parser(), b@, p as int, i as nat) == Ok::<(Seq<Seq<char>>, int), DecodeError>(
                (out@.map_values(|x: String| x@), q as int),
            ),
        decreases n - i,
    {
        match read_string(b, q) {
            Err(e) => {
                proof {
                    lemma_parse_many_error(string_parser(), b@, p as int, (i + 1) as nat, n as nat);
                }
                return Err(e);
            },
            Ok((s, next)) => {
                let ghost before = out@.map_values(|x: String| x@);
                out.push(s);
                assert(out@.map_values(|x: String| x@) =~= before.push(s@));
                q = next;
                i = i + 1;
            },
        }
    }
    Ok((out, q))
}

/// Reads an LED: its name, then its value.
pub fn read_led(b: &[u8], p: usize) -> (r: Result<(Led, usize), DecodeError>)
    ensures
        lift(r) == parse_led(b@, p as int),
{
    let (name, p) = read_string(b, p)?;
    let (value, p) = read_u32(b, p)?;
    Ok((Led { name, value }, p))
}

/// Reads `n` consecutive LEDs.
pub fn read_leds(b: &[u8], p: usize, n: u16) -> (r: Result<(Vec<Led>, usize), DecodeError>)
    ensures
        lift_seq(r) == parse_many(led_parser(), b@, p as int, n as nat),
{
    let mut out: Vec<Led> = Vec::new();
    let mut q: usize = p;
    let mut i: u16 = 0;
    assert(out@.map_values(|x: Led| x@) =~= Seq::<LedView>::empty());
    while i < n
        invariant
            i <= n,
            parse_many(led_parser(), b@, p as int, i as nat) == Ok::<(Seq<LedView>, int), DecodeError>(
                (out@.map_values(|x: Led| x@), q as int),
            ),
        decreases n - i,
    {
        match read_led(b, q) {
            Err(e) => {
                proof {
                    lemma_parse_many_error(led_parser(), b@, p as int, (i + 1) as nat, n as nat);
                }
                return Err(e);
            },
            Ok((x, next)) => {
                let ghost before = out@.map_values(|x: Led| x@);
                let ghost xv = x@;
                out.push(x);
                assert(out@.map_values(|x: Led| x@) =~= before.push(xv));
                q = next;
                i = i + 1;
            },
        }
    }
    Ok((out, q))
}

/// Reads a zone matrix: height, width, then `height * width` cells. Cells
/// that mark an unused position keep their value.
pub fn read_matrix(b: &[u8], p: usize) -> (r: Result<(ZoneMatrix, usize), DecodeError>)
    ensures
        lift(r) == parse_matrix(b@, p as int),
{
    let (height, p) = read_u32(b, p)?;
    let (width, p) = read_u32(b, p)?;
    assert((height as int) * (width as int) <= 0xffff_ffff_ffff_ffff) by (nonlinear_arith)
        requires
            height <= 0xffff_ffffu32,
            width <= 0xffff_ffffu32,
    ;
    let n: u64 = (height as u64) * (width as u64);
    let (data, p) = read_u32s(b, p, n)?;
    Ok((ZoneMatrix { height, width, data }, p))
}

} // verus!

verus! {

/// Reads a zone type from its 32-bit discriminant.
pub fn read_zone_type(b: &[u8], p: usize) -> (r: Result<(ZoneType, usize), DecodeError>)
    ensures
        lift(r) == parse_zone_type(b@, p as int),
{
    let (x, q) = read_u32(b, p)?;
    match ZoneType::try_from_u32(x) {
        Some(t) => Ok((t, q)),
        None => Err(DecodeError::UnknownDiscriminant(x)),
    }
}

/// Reads a color mode from its 32-bit discriminant.
pub fn read_color_mode(b: &[u8], p: usize) -> (r: Result<(ColorMode, usize), DecodeError>)
    ensures
        lift(r) == parse_color_mode(b@, p as int),
{
    let (x, q) = read_u32(b, p)?;
    match ColorMode::try_from_u32(x) {
        Some(m) => Ok((m, q)),
        None => Err(DecodeError::UnknownDiscriminant(x)),
    }
}

/// Reads a controller type from its 32-bit discriminant.
pub fn read_controller_type(b: &[u8], p: usize) -> (r: Result<(ControllerType, usize), DecodeError>)
    ensures
        lift(r) == parse_controller_type(b@, p as int),
{
    let (x, q) = read_u32(b, p)?;
    match ControllerType::try_from_u32(x) {
        Some(t) => Ok((t, q)),
        None => Err(DecodeError::UnknownDiscriminant(x)),
    }
}

/// Reads a zone; the matrix follows only where its length field is not zero.
pub fn read_zone(b: &[u8], p: usize) -> (r: Result<(Zone, usize), DecodeError>)
    ensures
        lift(r) == parse_zone(b@, p as int),
{
    let (name, p) = read_string(b, p)?;
    let (ty, p) = read_zone_type(b, p)?;
    let (leds_min, p) = read_u32(b, p)?;
    let (leds_max, p) = read_u32(b, p)?;
    let (leds_count, p) = read_u32(b, p)?;
    let (matrix_len, p) = read_u16(b, p)?;
    if matrix_len == 0 {
        Ok((Zone { name, ty, leds_min, leds_max, leds_count, matrix: None }, p))
    } else {
        let (m, p) = read_matrix(b, p)?;
        Ok((Zone { name, ty, leds_min, leds_max, leds_count, matrix: Some(m) }, p))
    }
}

/// Reads `n` consecutive zones.
pub fn read_zones(b: &[u8], p: usize, n: u16) -> (r: Result<(Vec<Zone>, usize), DecodeError>)
    ensures
        lift_seq(r) == parse_many(zone_parser(), b@, p as int, n as nat),
{
    let mut out: Vec<Zone> = Vec::new();
    let mut q: usize = p;
    let mut i: u16 = 0;
    assert(out@.map_values(|x: Zone| x@) =~= Seq::<ZoneView>::empty());
    while i < n
        invariant
            i <= n,
            parse_many(zone_parser(), b@, p as int, i as nat) == Ok::<(Seq<ZoneView>, int), DecodeError>(
                (out@.map_values(|x: Zone| x@), q as int),
            ),
        decreases n - i,
    {
        match read_zone(b, q) {
            Err(e) => {
                proof {
                    lemma_parse_many_error(zone_parser(), b@, p as int, (i + 1) as nat, n as nat);
                }
                return Err(e);
            },
            Ok((x, next)) => {
                let ghost before = out@.map_values(|x: Zone| x@);
                let ghost xv = x@;
                out.push(x);
                assert(out@.map_values(|x: Zone| x@) =~= before.push(xv));
                q = next;
                i = i + 1;
            },
        }
    }
    Ok((out, q))
}

/// Reads a mode: name, value, flags (unknown bits kept), speed and color-count
/// bounds, speed, direction, color mode, then its counted colors.
pub fn read_mode(b: &[u8], p: usize) -> (r: Result<(Mode, usize), DecodeError>)
    ensures
        lift(r) == parse_mode(b@, p as int),
{
    let (name, p) = read_string(b, p)?;
    let (xs, p) = read_u32s(b, p, 8)?;
    let (color_mode, p) = read_color_mode(b, p)?;
    let (n, p) = read_u16(b, p)?;
    let (colors, p) = read_colors(b, p, n)?;
    proof {
        reveal_with_fuel(parse_many, 9);
    }
    assert(xs@.len() == 8);
    let mode = Mode {
        name,
        value: xs[0],
        flags: ModeFlags(xs[1]),
        speed_min: xs[2],
        speed_max: xs[3],
        colors_min: xs[4],
        colors_max: xs[5],
        speed: xs[6],
        direction: xs[7],
        color_mode,
        colors,
    };
    Ok((mode, p))
}

} // verus!

verus! {

/// Reads `n` consecutive modes.
pub fn read_modes(b: &[u8], p: usize, n: u16) -> (r: Result<(Vec<Mode>, usize), DecodeError>)
    ensures
        lift_seq(r) == parse_many(mode_parser(), b@, p as int, n as nat),
{
    let mut out: Vec<Mode> = Vec::new();
    let mut q: usize = p;
    let mut i: u16 = 0;
    assert(out@.map_values(|x: Mode| x@) =~= Seq::<ModeView>::empty());
    while i < n
        invariant
            i <= n,
            parse_many(mode_parser(), b@, p as int, i as nat) == Ok::<(Seq<ModeView>, int), DecodeError>(
                (out@.map_values(|x: Mode| x@), q as int),
            ),
        decreases n - i,
    {
        match read_mode(b, q) {
            Err(e) => {
                proof {
                    lemma_parse_many_error(mode_parser(), b@, p as int, (i + 1) as nat, n as nat);
                }
                return Err(e);
            },
            Ok((x, next)) => {
                let ghost before = out@.map_values(|x: Mode| x@);
                let ghost xv = x@;
                out.push(x);
                assert(out@.map_values(|x: Mode| x@) =~= before.push(xv));
                q = next;
                i = i + 1;
            },
        }
    }
    Ok((out, q))
}

/// Reads a controller record in wire order. The record's own size field is
/// read and not used: the enclosing packet's length bounds the record.
pub fn read_controller_data(b: &[u8], p: usize) -> (r: Result<(ControllerData, usize), DecodeError>)
    ensures
        lift(r) == parse_controller(b@, p as int),
{
    let (_size, p) = read_u32(b, p)?;
    let (ty, p) = read_controller_type(b, p)?;
    let (mut strs, p) = read_strings(b, p, 5)?;
    let ghost sv = strs@.map_values(|x: String| x@);
    let location = strs.pop().unwrap();
    let serial = strs.pop().unwrap();
    let version = strs.pop().unwrap();
    let description = strs.pop().unwrap();
    let name = strs.pop().unwrap();
    let (num_modes, p) = read_u16(b, p)?;
    let (active_mode, p) = read_u32(b, p)?;
    let (modes, p) = read_modes(b, p, num_modes)?;
    let (num_zones, p) = read_u16(b, p)?;
    let (zones, p) = read_zones(b, p, num_zones)?;
    let (num_leds, p) = read_u16(b, p)?;
    let (leds, p) = read_leds(b, p, num_leds)?;
    let (num_colors, p) = read_u16(b, p)?;
    let (colors, p) = read_colors(b, p, num_colors)?;
    assert(sv[0] == name@ && sv[1] == description@ && sv[2] == version@ && sv[3] == serial@
        && sv[4] == location@);
    let data = ControllerData {
        ty,
        name,
        description,
        version,
        serial,
        location,
        modes,
        active_mode,
        zones,
        leds,
        colors,
    };
    Ok((data, p))
}

} // verus!
