//! The show format shared by the show server and the devices.

use vstd::prelude::*;

verus! {

/// Number of light channels in a show.
pub const MAX_LIGHTS: usize = 7;

/// Number of lasers in a show.
pub const MAX_LASERS: usize = 5;

/// Number of projectors in a show.
pub const MAX_PROJECTORS: usize = 1;

/// Number of turrets in a show.
pub const MAX_TURRETS: usize = 4;

/// A show: named frames, without audio.
pub struct SerializableShow {
    pub name: String,
    pub frames: Vec<Frame>,
}

/// The commands for every device at one moment of a show (milliseconds
/// from its start).
pub struct Frame {
    pub timestamp: u64,
    pub lights: Vec<Option<bool>>,
    pub lasers: Vec<Option<Laser>>,
    pub projectors: Vec<Option<Projector>>,
    pub turrets: Vec<Option<Turret>>,
}

/// A laser's configuration and colour.
#[derive(Clone, Copy)]
pub struct Laser {
    pub home: bool,
    pub point_count: u8,
    pub speed_profile: u8,
    pub enable: bool,
    pub hex: [u8; 3],
    pub value: u8,
}

/// A projector's DMX channels, each `(index, data)`.
#[derive(Clone, Copy)]
pub struct Projector {
    pub state: (u8, u8),
    pub gallery: (u8, u8),
    pub pattern: (u8, u8),
    pub colour: (u8, u8),
}

/// A turret's DMX channels, each `(index, data)`.
#[derive(Clone, Copy)]
pub struct Turret {
    pub state: (u8, u8),
    pub pan: (u8, u8),
    pub tilt: (u8, u8),
}

/// The instructions of one device for a time window.
pub struct DeviceInstructions {
    pub device_id: String,
    pub instructions: Vec<TimedInstruction>,
}

/// One device command at a time (milliseconds from the show's start).
pub struct TimedInstruction {
    pub timestamp: u64,
    pub command: DeviceCommand,
}

/// A command for a device.
pub enum DeviceCommand {
    /// Switch a light.
    Light { enabled: bool },
    /// Show a colour.
    Rgb { r: u8, g: u8, b: u8 },
    /// Anything else, as bytes.
    Custom { data: Vec<u8> },
}

} // verus!
