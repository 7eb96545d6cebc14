//! Pure translation between upstream frames and domain messages: the
//! upstream→domain direction is lossy (unrecognized frame kinds are
//! dropped), and the domain→upstream direction encodes only heartbeats.

use vstd::prelude::*;

use crate::domain::{BatteryStatus, CloudRiderMessage, GlobalPosition, Heartbeat};
use crate::domain::now_rfc3339;
use crate::upstream::{
    BatteryStatusFrame, GlobalPositionIntFrame, HeartbeatFrame, UpstreamFrame,
    MAV_AUTOPILOT_INVALID, MAV_MODE_FLAG_CUSTOM_MODE_ENABLED, MAV_STATE_ACTIVE, MAV_TYPE_GCS,
};

verus! {

/// What `to_cloud_rider` produces for a frame, given the timestamp the
/// clock hands to a heartbeat at emission time.
pub open spec fn spec_to_cloud_rider(
    frame: UpstreamFrame,
    timestamp: String,
) -> Option<CloudRiderMessage> {
    match frame {
        UpstreamFrame::Heartbeat(_) => Some(
            CloudRiderMessage::Heartbeat(Heartbeat { timestamp }),
        ),
        UpstreamFrame::GlobalPositionInt(g) => Some(
            CloudRiderMessage::GlobalPosition(
                GlobalPosition {
                    lat: g.lat,
                    lon: g.lon,
                    alt: g.alt,
                    relative_alt: g.relative_alt,
                    vx: g.vx,
                    vy: g.vy,
                    vz: g.vz,
                },
            ),
        ),
        UpstreamFrame::BatteryStatus(b) => Some(
            CloudRiderMessage::BatteryStatus(
                BatteryStatus {
                    remaining_percent: b.battery_remaining,
                    temperature_c: b.temperature,
                    current_battery_ma: b.current_battery,
                },
            ),
        ),
        UpstreamFrame::Unmapped(_) => None,
    }
}

/// The fixed heartbeat payload the gateway sends upstream: a ground
/// control station, active, no autopilot, custom-mode flag set, protocol
/// version 3.
pub open spec fn spec_gcs_heartbeat_frame() -> HeartbeatFrame {
    HeartbeatFrame {
        custom_mode: 0,
        mavtype: MAV_TYPE_GCS,
        autopilot: MAV_AUTOPILOT_INVALID,
        base_mode: MAV_MODE_FLAG_CUSTOM_MODE_ENABLED,
        system_status: MAV_STATE_ACTIVE,
        mavlink_version: 3,
    }
}

/// What `to_mavlink` produces: only a heartbeat has an upstream encoding.
pub open spec fn spec_to_mavlink(message: CloudRiderMessage) -> Option<UpstreamFrame> {
    match message {
        CloudRiderMessage::Heartbeat(_) => Some(
            UpstreamFrame::Heartbeat(spec_gcs_heartbeat_frame()),
        ),
        _ => None,
    }
}

/// Translate an upstream frame to a domain message, stamping a heartbeat
/// with the given emission timestamp.
pub fn to_cloud_rider_at(frame: &UpstreamFrame, timestamp: String) -> (r: Option<
    CloudRiderMessage,
>)
    ensures
        r == spec_to_cloud_rider(*frame, timestamp),
{
    match frame {
        UpstreamFrame::Heartbeat(_) => Some(
            CloudRiderMessage::Heartbeat(Heartbeat { timestamp }),
        ),
        UpstreamFrame::GlobalPositionInt(g) => Some(
            CloudRiderMessage::GlobalPosition(
                GlobalPosition {
                    lat: g.lat,
                    lon: g.lon,
                    alt: g.alt,
                    relative_alt: g.relative_alt,
                    vx: g.vx,
                    vy: g.vy,
                    vz: g.vz,
                },
            ),
        ),
        UpstreamFrame::BatteryStatus(b) => Some(
            CloudRiderMessage::BatteryStatus(
                BatteryStatus {
                    remaining_percent: b.battery_remaining,
                    temperature_c: b.temperature,
                    current_battery_ma: b.current_battery,
                },
            ),
        ),
        UpstreamFrame::Unmapped(_) => None,
    }
}

/// Translate an upstream frame to a domain message; a heartbeat is
/// stamped with the wall clock at the moment of the call.
pub fn to_cloud_rider(message: &UpstreamFrame) -> (r: Option<CloudRiderMessage>)
    ensures
        exists|ts: String| r == spec_to_cloud_rider(*message, ts),
{
    let stamp = now_rfc3339();
    let r = to_cloud_rider_at(message, stamp);
    proof {
        assert(r == spec_to_cloud_rider(*message, stamp));
    }
    r
}

/// Translate a domain message to an upstream frame: a heartbeat becomes
/// the fixed ground-control-station heartbeat payload; every other
/// variant has no upstream encoding.
pub fn to_mavlink(message: &CloudRiderMessage) -> (r: Option<UpstreamFrame>)
    ensures
        r == spec_to_mavlink(*message),
{
    match message {
        CloudRiderMessage::Heartbeat(_) => Some(
            UpstreamFrame::Heartbeat(
                HeartbeatFrame {
                    custom_mode: 0,
                    mavtype: MAV_TYPE_GCS,
                    autopilot: MAV_AUTOPILOT_INVALID,
                    base_mode: MAV_MODE_FLAG_CUSTOM_MODE_ENABLED,
                    system_status: MAV_STATE_ACTIVE,
                    mavlink_version: 3,
                },
            ),
        ),
        CloudRiderMessage::GlobalPosition(_) => None,
        CloudRiderMessage::BatteryStatus(_) => None,
        CloudRiderMessage::Error(_) => None,
    }
}

/// For every frame kind in the recognized set {heartbeat,
/// global-position, battery-status} the upstream→domain mapping yields
/// `Some` with field-for-field correspondence; for every other frame
/// kind it yields `None`.
pub proof fn lemma_upstream_mapping_exact(frame: UpstreamFrame, timestamp: String)
    ensures
        spec_to_cloud_rider(frame, timestamp) is Some <==> !(frame is Unmapped),
        frame is Heartbeat ==> spec_to_cloud_rider(frame, timestamp) == Some(
            CloudRiderMessage::Heartbeat(Heartbeat { timestamp }),
        ),
        forall|g: GlobalPositionIntFrame|
            frame == UpstreamFrame::GlobalPositionInt(g) ==> spec_to_cloud_rider(frame, timestamp)
                == Some(
                CloudRiderMessage::GlobalPosition(
                    GlobalPosition {
                        lat: g.lat,
                        lon: g.lon,
                        alt: g.alt,
                        relative_alt: g.relative_alt,
                        vx: g.vx,
                        vy: g.vy,
                        vz: g.vz,
                    },
                ),
            ),
        forall|b: BatteryStatusFrame|
            frame == UpstreamFrame::BatteryStatus(b) ==> spec_to_cloud_rider(frame, timestamp)
                == Some(
                CloudRiderMessage::BatteryStatus(
                    BatteryStatus {
                        remaining_percent: b.battery_remaining,
                        temperature_c: b.temperature,
                        current_battery_ma: b.current_battery,
                    },
                ),
            ),
{
}

/// A heartbeat always maps to `Some` upstream frame with the fixed
/// payload fields (active system status, GCS type, invalid autopilot,
/// custom-mode flag set, protocol version 3); every other variant maps
/// to `None`.
pub proof fn lemma_domain_to_upstream_exact(message: CloudRiderMessage)
    ensures
        message is Heartbeat ==> spec_to_mavlink(message) == Some(
            UpstreamFrame::Heartbeat(spec_gcs_heartbeat_frame()),
        ),
        !(message is Heartbeat) ==> spec_to_mavlink(message) is None,
        spec_gcs_heartbeat_frame().system_status == MAV_STATE_ACTIVE,
        spec_gcs_heartbeat_frame().mavtype == MAV_TYPE_GCS,
        spec_gcs_heartbeat_frame().autopilot == MAV_AUTOPILOT_INVALID,
        spec_gcs_heartbeat_frame().base_mode == MAV_MODE_FLAG_CUSTOM_MODE_ENABLED,
        spec_gcs_heartbeat_frame().mavlink_version == 3,
        spec_gcs_heartbeat_frame().custom_mode == 0,
{
}

} // verus!
