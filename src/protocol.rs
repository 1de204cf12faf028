//! The protocol's vocabulary: controller records, requests and responses,
//! each with a mathematical view over which the codec's contracts speak.

use vstd::prelude::*;

verus! {

/// The kind of hardware a controller drives.
#[derive(Debug, Clone, Copy, PartialEq, Eq, Structural)]
pub enum ControllerType {
    Motherboard,
    Dram,
    Gpu,
    Cooler,
    LedStrip,
    Keyboard,
    Mouse,
    Mousemat,
    Headset,
    HeadsetStand,
}

/// How the LEDs of a zone are laid out.
#[derive(Debug, Clone, Copy, PartialEq, Eq, Structural)]
pub enum ZoneType {
    Single,
    Linear,
    Matrix,
}

/// Which colors a mode lets the client configure.
#[derive(Debug, Clone, Copy, PartialEq, Eq, Structural)]
pub enum ColorMode {
    /// This mode does not have configurable colors.
    NoColor,
    /// This mode uses the controller's colors vector to set each LED.
    PerLed,
    /// This mode has one or more configurable colors, but no per-LED control.
    ModeSpecific,
    /// This mode can be switched to a random or cycling color palette.
    Random,
}

/// The controller type whose wire discriminant is `x`, if any.
pub open spec fn controller_type_of(x: u32) -> Option<ControllerType> {
    if x == 0 { Some(ControllerType::Motherboard) }
    else if x == 1 { Some(ControllerType::Dram) }
    else if x == 2 { Some(ControllerType::Gpu) }
    else if x == 3 { Some(ControllerType::Cooler) }
    else if x == 4 { Some(ControllerType::LedStrip) }
    else if x == 5 { Some(ControllerType::Keyboard) }
    else if x == 6 { Some(ControllerType::Mouse) }
    else if x == 7 { Some(ControllerType::Mousemat) }
    else if x == 8 { Some(ControllerType::Headset) }
    else if x == 9 { Some(ControllerType::HeadsetStand) }
    else { None }
}

/// The zone type whose wire discriminant is `x`, if any.
pub open spec fn zone_type_of(x: u32) -> Option<ZoneType> {
    if x == 0 { Some(ZoneType::Single) }
    else if x == 1 { Some(ZoneType::Linear) }
    else if x == 2 { Some(ZoneType::Matrix) }
    else { None }
}

/// The color mode whose wire discriminant is `x`, if any.
pub open spec fn color_mode_of(x: u32) -> Option<ColorMode> {
    if x == 0 { Some(ColorMode::NoColor) }
    else if x == 1 { Some(ColorMode::PerLed) }
    else if x == 2 { Some(ColorMode::ModeSpecific) }
    else if x == 3 { Some(ColorMode::Random) }
    else { None }
}

impl ControllerType {
    /// The controller type whose wire discriminant is `x`, if any.
    pub fn try_from_u32(x: u32) -> (r: Option<ControllerType>)
        ensures
            r == controller_type_of(x),
    {
        match x {
            0 => Some(ControllerType::Motherboard),
            1 => Some(ControllerType::Dram),
            2 => Some(ControllerType::Gpu),
            3 => Some(ControllerType::Cooler),
            4 => Some(ControllerType::LedStrip),
            5 => Some(ControllerType::Keyboard),
            6 => Some(ControllerType::Mouse),
            7 => Some(ControllerType::Mousemat),
            8 => Some(ControllerType::Headset),
            9 => Some(ControllerType::HeadsetStand),
            _ => None,
        }
    }
}

impl ZoneType {
    /// The zone type whose wire discriminant is `x`, if any.
    pub fn try_from_u32(x: u32) -> (r: Option<ZoneType>)
        ensures
            r == zone_type_of(x),
    {
        match x {
            0 => Some(ZoneType::Single),
            1 => Some(ZoneType::Linear),
            2 => Some(ZoneType::Matrix),
            _ => None,
        }
    }
}

impl ColorMode {
    /// The color mode whose wire discriminant is `x`, if any.
    pub fn try_from_u32(x: u32) -> (r: Option<ColorMode>)
        ensures
            r == color_mode_of(x),
    {
        match x {
            0 => Some(ColorMode::NoColor),
            1 => Some(ColorMode::PerLed),
            2 => Some(ColorMode::ModeSpecific),
            3 => Some(ColorMode::Random),
            _ => None,
        }
    }
}

/// A color: red, green and blue channels, no alpha.
#[derive(Debug, Clone, Copy, PartialEq, Eq, Structural)]
pub struct Rgb(pub u8, pub u8, pub u8);

/// The capability bits of a mode. Bits unknown to this library are kept.
#[derive(Debug, Clone, Copy, PartialEq, Eq, Structural)]
pub struct ModeFlags(pub u32);

impl ModeFlags {
    /// Mode has a speed parameter.
    pub const SPEED: u32 = 1;
    /// Mode has a left/right direction parameter.
    pub const LEFT_RIGHT: u32 = 2;
    /// Mode has an up/down direction parameter.
    pub const UP_DOWN: u32 = 4;
    /// Mode has a horizontal/vertical direction parameter.
    pub const HORIZONTAL_VERTICAL: u32 = 8;
    /// Mode has a brightness parameter.
    pub const BRIGHTNESS: u32 = 16;
    /// Mode has per-LED color settings.
    pub const PER_LED_SETTINGS: u32 = 32;
    /// Mode has mode-specific color settings.
    pub const SPECIFIC_SETTINGS: u32 = 64;
    /// Mode has a random color option.
    pub const RANDOM_COLOR: u32 = 128;

    /// Whether every bit of `flag` is set.
    pub fn contains(&self, flag: u32) -> (r: bool)
        ensures
            r == (self.0 & flag == flag),
    {
        self.0 & flag == flag
    }
}

impl View for Rgb {
    type V = Rgb;

    open spec fn view(&self) -> Rgb {
        *self
    }
}

impl View for ControllerType {
    type V = ControllerType;

    open spec fn view(&self) -> ControllerType {
        *self
    }
}

impl View for ZoneType {
    type V = ZoneType;

    open spec fn view(&self) -> ZoneType {
        *self
    }
}

impl View for ColorMode {
    type V = ColorMode;

    open spec fn view(&self) -> ColorMode {
        *self
    }
}

impl View for ModeFlags {
    type V = ModeFlags;

    open spec fn view(&self) -> ModeFlags {
        *self
    }
}

/// One addressable light. The value is implementation-defined.
#[derive(Debug, Clone)]
pub struct Led {
    pub name: String,
    pub value: u32,
}

pub struct LedView {
    pub name: Seq<char>,
    pub value: u32,
}

impl View for Led {
    type V = LedView;

    open spec fn view(&self) -> LedView {
        LedView { name: self.name@, value: self.value }
    }
}

/// Positions of a zone's LEDs in a 2-D grid, row by row. A cell holds the
/// LED's offset within the zone, or `0xFFFF_FFFF` where no LED sits.
#[derive(Debug, Clone)]
pub struct ZoneMatrix {
    pub height: u32,
    pub width: u32,
    pub data: Vec<u32>,
}

pub struct ZoneMatrixView {
    pub height: u32,
    pub width: u32,
    pub data: Seq<u32>,
}

impl View for ZoneMatrix {
    type V = ZoneMatrixView;

    open spec fn view(&self) -> ZoneMatrixView {
        ZoneMatrixView { height: self.height, width: self.width, data: self.data@ }
    }
}

/// A named, contiguous group of a controller's LEDs.
#[derive(Debug, Clone)]
pub struct Zone {
    pub name: String,
    pub ty: ZoneType,
    pub leds_min: u32,
    pub leds_max: u32,
    pub leds_count: u32,
    pub matrix: Option<ZoneMatrix>,
}

pub struct ZoneView {
    pub name: Seq<char>,
    pub ty: ZoneType,
    pub leds_min: u32,
    pub leds_max: u32,
    pub leds_count: u32,
    pub matrix: Option<ZoneMatrixView>,
}

impl View for Zone {
    type V = ZoneView;

    open spec fn view(&self) -> ZoneView {
        ZoneView {
            name: self.name@,
            ty: self.ty,
            leds_min: self.leds_min,
            leds_max: self.leds_max,
            leds_count: self.leds_count,
            matrix: match self.matrix {
                Some(m) => Some(m@),
                None => None,
            },
        }
    }
}

/// A lighting effect that a controller supports.
///
/// The minimum speed may be numerically greater than the maximum speed where
/// the device takes a delay rather than a speed.
#[derive(Debug, Clone)]
pub struct Mode {
    pub name: String,
    pub value: u32,
    pub flags: ModeFlags,
    pub speed_min: u32,
    pub speed_max: u32,
    pub colors_min: u32,
    pub colors_max: u32,
    pub speed: u32,
    pub direction: u32,
    pub color_mode: ColorMode,
    pub colors: Vec<Rgb>,
}

pub struct ModeView {
    pub name: Seq<char>,
    pub value: u32,
    pub flags: ModeFlags,
    pub speed_min: u32,
    pub speed_max: u32,
    pub colors_min: u32,
    pub colors_max: u32,
    pub speed: u32,
    pub direction: u32,
    pub color_mode: ColorMode,
    pub colors: Seq<Rgb>,
}

impl View for Mode {
    type V = ModeView;

    open spec fn view(&self) -> ModeView {
        ModeView {
            name: self.name@,
            value: self.value,
            flags: self.flags,
            speed_min: self.speed_min,
            speed_max: self.speed_max,
            colors_min: self.colors_min,
            colors_max: self.colors_max,
            speed: self.speed,
            direction: self.direction,
            color_mode: self.color_mode,
            colors: self.colors@,
        }
    }
}

/// Everything the server reports about one lighting controller.
#[derive(Debug, Clone)]
pub struct ControllerData {
    pub ty: ControllerType,
    pub name: String,
    pub description: String,
    pub version: String,
    pub serial: String,
    pub location: String,
    pub modes: Vec<Mode>,
    pub active_mode: u32,
    pub zones: Vec<Zone>,
    pub leds: Vec<Led>,
    pub colors: Vec<Rgb>,
}

pub struct ControllerDataView {
    pub ty: ControllerType,
    pub name: Seq<char>,
    pub description: Seq<char>,
    pub version: Seq<char>,
    pub serial: Seq<char>,
    pub location: Seq<char>,
    pub modes: Seq<ModeView>,
    pub active_mode: u32,
    pub zones: Seq<ZoneView>,
    pub leds: Seq<LedView>,
    pub colors: Seq<Rgb>,
}

impl View for ControllerData {
    type V = ControllerDataView;

    open spec fn view(&self) -> ControllerDataView {
        ControllerDataView {
            ty: self.ty,
            name: self.name@,
            description: self.description@,
            version: self.version@,
            serial: self.serial@,
            location: self.location@,
            modes: self.modes@.map_values(|m: Mode| m@),
            active_mode: self.active_mode,
            zones: self.zones@.map_values(|z: Zone| z@),
            leds: self.leds@.map_values(|l: Led| l@),
            colors: self.colors@,
        }
    }
}

/// The fixed-size header that starts every packet.
#[derive(Debug, Clone, Copy, PartialEq, Eq, Structural)]
pub struct PacketHeader {
    pub dev_idx: u32,
    pub pkt_id: u32,
    pub pkt_size: u32,
}

/// Why a byte sequence could not be decoded.
#[derive(Debug, Clone, Copy, PartialEq, Eq, Structural)]
pub enum DecodeError {
    /// The bytes ended before the structure did.
    Truncated,
    /// A packet did not start with the tag "ORGB".
    BadMagic,
    /// A string's length field was zero, leaving no room for its terminator.
    BadStringLength,
    /// A string's terminating byte was not zero.
    MissingTerminator,
    /// A string's bytes were not UTF-8.
    InvalidUtf8,
    /// An enumerated field held a value outside its range.
    UnknownDiscriminant(u32),
    /// A packet carried a message id this library does not know.
    UnknownMessageId(u32),
    /// A payload was longer than the structure it carried.
    TrailingBytes,
}

/// What the server can send.
#[derive(Debug, Clone)]
pub enum Response {
    ControllerCount(u32),
    ControllerData(ControllerData),
    ProtocolVersion(u32),
    DeviceListUpdated,
}

pub enum ResponseView {
    ControllerCount(u32),
    ControllerData(ControllerDataView),
    ProtocolVersion(u32),
    DeviceListUpdated,
}

impl View for Response {
    type V = ResponseView;

    open spec fn view(&self) -> ResponseView {
        match self {
            Response::ControllerCount(c) => ResponseView::ControllerCount(*c),
            Response::ControllerData(d) => ResponseView::ControllerData(d@),
            Response::ProtocolVersion(v) => ResponseView::ProtocolVersion(*v),
            Response::DeviceListUpdated => ResponseView::DeviceListUpdated,
        }
    }
}

/// What the client can ask of the server. Only some requests have an
/// encoding; the others are vocabulary for later protocol versions.
#[derive(Debug, Clone)]
pub enum Request {
    ControllerCount,
    ControllerData { controller_idx: u32 },
    ProtocolVersion(u32),
    SetClientName(String),
    ResizeZone { controller_idx: u32, zone_idx: u32, new_size: u32 },
    UpdateLeds { controller_idx: u32, colors: Vec<Rgb> },
    UpdateZoneLeds { controller_idx: u32, zone_idx: u32, colors: Vec<Rgb> },
    UpdateSingleLed { controller_idx: u32, led_idx: u32, color: Rgb },
    SetCustomMode { controller_idx: u32 },
    UpdateMode { controller_idx: u32, mode_idx: u32, mode: Mode },
    SaveMode { controller_idx: u32, mode_idx: u32, mode: Mode },
}

pub enum RequestView {
    ControllerCount,
    ControllerData { controller_idx: u32 },
    ProtocolVersion(u32),
    SetClientName(Seq<char>),
    ResizeZone { controller_idx: u32, zone_idx: u32, new_size: u32 },
    UpdateLeds { controller_idx: u32, colors: Seq<Rgb> },
    UpdateZoneLeds { controller_idx: u32, zone_idx: u32, colors: Seq<Rgb> },
    UpdateSingleLed { controller_idx: u32, led_idx: u32, color: Rgb },
    SetCustomMode { controller_idx: u32 },
    UpdateMode { controller_idx: u32, mode_idx: u32, mode: ModeView },
    SaveMode { controller_idx: u32, mode_idx: u32, mode: ModeView },
}

impl View for Request {
    type V = RequestView;

    open spec fn view(&self) -> RequestView {
        match self {
            Request::ControllerCount => RequestView::ControllerCount,
            Request::ControllerData { controller_idx } => RequestView::ControllerData {
                controller_idx: *controller_idx,
            },
            Request::ProtocolVersion(v) => RequestView::ProtocolVersion(*v),
            Request::SetClientName(n) => RequestView::SetClientName(n@),
            Request::ResizeZone { controller_idx, zone_idx, new_size } => RequestView::ResizeZone {
                controller_idx: *controller_idx,
                zone_idx: *zone_idx,
                new_size: *new_size,
            },
            Request::UpdateLeds { controller_idx, colors } => RequestView::UpdateLeds {
                controller_idx: *controller_idx,
                colors: colors@,
            },
            Request::UpdateZoneLeds { controller_idx, zone_idx, colors } => RequestView::UpdateZoneLeds {
                controller_idx: *controller_idx,
                zone_idx: *zone_idx,
                colors: colors@,
            },
            Request::UpdateSingleLed { controller_idx, led_idx, color } => RequestView::UpdateSingleLed {
                controller_idx: *controller_idx,
                led_idx: *led_idx,
                color: *color,
            },
            Request::SetCustomMode { controller_idx } => RequestView::SetCustomMode {
                controller_idx: *controller_idx,
            },
            Request::UpdateMode { controller_idx, mode_idx, mode } => RequestView::UpdateMode {
                controller_idx: *controller_idx,
                mode_idx: *mode_idx,
                mode: mode@,
            },
            Request::SaveMode { controller_idx, mode_idx, mode } => RequestView::SaveMode {
                controller_idx: *controller_idx,
                mode_idx: *mode_idx,
                mode: mode@,
            },
        }
    }
}

} // verus!
