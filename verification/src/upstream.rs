//! A plain-value model of the upstream binary protocol's frames, limited
//! to what the gateway's logic reads. Wire-level encoding and decoding of
//! these frames is an external collaborator (a provided codec) and is out
//! of scope here.

use vstd::prelude::*;

verus! {

/// Vehicle/peer kind carried in a heartbeat: a ground control station.
pub const MAV_TYPE_GCS: u8 = 6;

/// Autopilot kind carried in a heartbeat: no valid autopilot.
pub const MAV_AUTOPILOT_INVALID: u8 = 8;

/// System status carried in a heartbeat: active.
pub const MAV_STATE_ACTIVE: u8 = 4;

/// Base-mode flag bit: the custom-mode field is meaningful.
pub const MAV_MODE_FLAG_CUSTOM_MODE_ENABLED: u8 = 1;

/// Routing header attached to each outbound upstream frame.
#[derive(Clone, Copy, Debug, PartialEq, Eq)]
pub struct MavHeader {
    pub system_id: u8,
    pub component_id: u8,
    pub sequence: u8,
}

/// Payload of an upstream heartbeat frame.
#[derive(Clone, Copy, Debug, PartialEq, Eq)]
pub struct HeartbeatFrame {
    pub custom_mode: u32,
    pub mavtype: u8,
    pub autopilot: u8,
    pub base_mode: u8,
    pub system_status: u8,
    pub mavlink_version: u8,
}

/// Payload of an upstream position frame, raw fixed-point units:
/// `lat`/`lon` in ten-millionths of a degree, altitudes in millimeters,
/// velocities in cm/s.
#[derive(Clone, Copy, Debug, PartialEq, Eq)]
pub struct GlobalPositionIntFrame {
    pub lat: i32,
    pub lon: i32,
    pub alt: i32,
    pub relative_alt: i32,
    pub vx: i16,
    pub vy: i16,
    pub vz: i16,
}

/// Payload of an upstream battery-status frame.
#[derive(Clone, Copy, Debug, PartialEq, Eq)]
pub struct BatteryStatusFrame {
    pub battery_remaining: i8,
    pub temperature: i16,
    pub current_battery: i16,
}

/// One upstream frame: the recognized subset is carried field by field;
/// every other kind of the upstream catalog collapses to `Unmapped` with
/// its wire message id, which the gateway drops.
#[derive(Clone, Copy, Debug, PartialEq, Eq)]
pub enum UpstreamFrame {
    Heartbeat(HeartbeatFrame),
    GlobalPositionInt(GlobalPositionIntFrame),
    BatteryStatus(BatteryStatusFrame),
    Unmapped(u32),
}

} // verus!
