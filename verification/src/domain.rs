//! The normalized, protocol-agnostic representation of telemetry and
//! command content exchanged with the client.

use vstd::prelude::*;

verus! {

/// Position report, raw fixed-point units as carried by the upstream
/// protocol: `lat`/`lon` in ten-millionths of a degree, `alt` and
/// `relative_alt` in millimeters, velocities in cm/s. The raw integer
/// representation is kept consistently through the whole pipeline.
#[derive(Clone, Debug, PartialEq, Eq)]
pub struct GlobalPosition {
    pub lat: i32,
    pub lon: i32,
    pub alt: i32,
    pub relative_alt: i32,
    pub vx: i16,
    pub vy: i16,
    pub vz: i16,
}

/// Keep-alive marker; the timestamp reflects emission time, never an
/// upstream frame's own clock.
#[derive(Clone, Debug, PartialEq, Eq)]
pub struct Heartbeat {
    pub timestamp: String,
}

/// Battery report, fields passed through raw from the upstream frame.
/// `remaining_percent` is not validated (the wire range allows a
/// sentinel for unknown); `temperature_c` is in centidegrees.
#[derive(Clone, Debug, PartialEq, Eq)]
pub struct BatteryStatus {
    pub remaining_percent: i8,
    pub temperature_c: i16,
    pub current_battery_ma: i16,
}

/// The closed tagged union of messages the gateway exchanges with the
/// client. Each value is immutable after construction and travels
/// through exactly one channel to exactly one consumer.
#[derive(Clone, Debug, PartialEq, Eq)]
pub enum CloudRiderMessage {
    Heartbeat(Heartbeat),
    GlobalPosition(GlobalPosition),
    BatteryStatus(BatteryStatus),
    Error(String),
}

/// The mathematical model of a domain message: each variant's payload
/// as unbounded integers and character sequences. Contracts about the
/// client wire format speak of this model.
pub enum MessageModel {
    Heartbeat { timestamp: Seq<char> },
    GlobalPosition { lat: int, lon: int, alt: int, relative_alt: int, vx: int, vy: int, vz: int },
    BatteryStatus { remaining_percent: int, temperature_c: int, current_battery_ma: int },
    Error { message: Seq<char> },
}

impl MessageModel {
    /// Every numeric payload field fits the wire type that carries it.
    pub open spec fn wf(self) -> bool {
        match self {
            MessageModel::Heartbeat { .. } => true,
            MessageModel::GlobalPosition { lat, lon, alt, relative_alt, vx, vy, vz } => {
                &&& i32::MIN <= lat <= i32::MAX
                &&& i32::MIN <= lon <= i32::MAX
                &&& i32::MIN <= alt <= i32::MAX
                &&& i32::MIN <= relative_alt <= i32::MAX
                &&& i16::MIN <= vx <= i16::MAX
                &&& i16::MIN <= vy <= i16::MAX
                &&& i16::MIN <= vz <= i16::MAX
            },
            MessageModel::BatteryStatus { remaining_percent, temperature_c, current_battery_ma } => {
                &&& i8::MIN <= remaining_percent <= i8::MAX
                &&& i16::MIN <= temperature_c <= i16::MAX
                &&& i16::MIN <= current_battery_ma <= i16::MAX
            },
            MessageModel::Error { .. } => true,
        }
    }
}

impl View for CloudRiderMessage {
    type V = MessageModel;

    open spec fn view(&self) -> MessageModel {
        match self {
            CloudRiderMessage::Heartbeat(h) => MessageModel::Heartbeat {
                timestamp: h.timestamp@,
            },
            CloudRiderMessage::GlobalPosition(g) => MessageModel::GlobalPosition {
                lat: g.lat as int,
                lon: g.lon as int,
                alt: g.alt as int,
                relative_alt: g.relative_alt as int,
                vx: g.vx as int,
                vy: g.vy as int,
                vz: g.vz as int,
            },
            CloudRiderMessage::BatteryStatus(b) => MessageModel::BatteryStatus {
                remaining_percent: b.remaining_percent as int,
                temperature_c: b.temperature_c as int,
                current_battery_ma: b.current_battery_ma as int,
            },
            CloudRiderMessage::Error(e) => MessageModel::Error { message: e@ },
        }
    }
}

/// The model of an executable message always satisfies the model's
/// field-range well-formedness.
pub proof fn lemma_message_view_wf(m: &CloudRiderMessage)
    ensures
        m@.wf(),
{
}

/// Relies on chrono's `Utc::now` and `DateTime::to_rfc3339`: the wall
/// clock formatted as an RFC 3339 timestamp. The result depends on the
/// clock, so nothing is promised of its value.
#[verifier::external_body]
pub fn now_rfc3339() -> String {
    chrono::Utc::now().to_rfc3339()
}

impl Heartbeat {
    /// A heartbeat carrying the given emission timestamp.
    pub fn with_timestamp(timestamp: String) -> (r: Heartbeat)
        ensures
            r.timestamp == timestamp,
    {
        Heartbeat { timestamp }
    }

    /// A heartbeat stamped with the wall clock at the moment of the call.
    pub fn new() -> Heartbeat {
        Heartbeat::with_timestamp(now_rfc3339())
    }
}

} // verus!
