use cloud_rider_gateway::domain::{BatteryStatus, CloudRiderMessage, GlobalPosition, Heartbeat};
use cloud_rider_gateway::mapper::{to_cloud_rider, to_cloud_rider_at, to_mavlink};
use cloud_rider_gateway::upstream::{
    BatteryStatusFrame, GlobalPositionIntFrame, HeartbeatFrame, UpstreamFrame,
    MAV_AUTOPILOT_INVALID, MAV_MODE_FLAG_CUSTOM_MODE_ENABLED, MAV_STATE_ACTIVE, MAV_TYPE_GCS,
};

fn sample_position_frame() -> GlobalPositionIntFrame {
    GlobalPositionIntFrame {
        lat: 473397000,
        lon: 85550000,
        alt: 500000,
        relative_alt: 100000,
        vx: 10,
        vy: 0,
        vz: -5,
    }
}

#[test]
fn heartbeat_frame_maps_to_heartbeat_message() {
    let frame = UpstreamFrame::Heartbeat(HeartbeatFrame {
        custom_mode: 7,
        mavtype: 1,
        autopilot: 3,
        base_mode: 0,
        system_status: 4,
        mavlink_version: 3,
    });
    let mapped = to_cloud_rider_at(&frame, String::from("2024-05-01T12:00:00+00:00"));
    assert_eq!(
        mapped,
        Some(CloudRiderMessage::Heartbeat(Heartbeat {
            timestamp: String::from("2024-05-01T12:00:00+00:00"),
        }))
    );
}

#[test]
fn position_frame_maps_field_for_field() {
    let frame = UpstreamFrame::GlobalPositionInt(sample_position_frame());
    let mapped = to_cloud_rider(&frame);
    assert_eq!(
        mapped,
        Some(CloudRiderMessage::GlobalPosition(GlobalPosition {
            lat: 473397000,
            lon: 85550000,
            alt: 500000,
            relative_alt: 100000,
            vx: 10,
            vy: 0,
            vz: -5,
        }))
    );
}

#[test]
fn battery_frame_maps_field_for_field() {
    let frame = UpstreamFrame::BatteryStatus(BatteryStatusFrame {
        battery_remaining: 87,
        temperature: 2150,
        current_battery: -300,
    });
    let mapped = to_cloud_rider(&frame);
    assert_eq!(
        mapped,
        Some(CloudRiderMessage::BatteryStatus(BatteryStatus {
            remaining_percent: 87,
            temperature_c: 2150,
            current_battery_ma: -300,
        }))
    );
}

#[test]
fn unrecognized_frame_kinds_map_to_none() {
    assert_eq!(to_cloud_rider(&UpstreamFrame::Unmapped(0)), None);
    assert_eq!(to_cloud_rider(&UpstreamFrame::Unmapped(30)), None);
    assert_eq!(to_cloud_rider(&UpstreamFrame::Unmapped(147)), None);
}

#[test]
fn heartbeat_message_maps_to_fixed_upstream_frame() {
    let message = CloudRiderMessage::Heartbeat(Heartbeat {
        timestamp: String::from("2024-05-01T12:00:00+00:00"),
    });
    let frame = to_mavlink(&message);
    assert_eq!(
        frame,
        Some(UpstreamFrame::Heartbeat(HeartbeatFrame {
            custom_mode: 0,
            mavtype: MAV_TYPE_GCS,
            autopilot: MAV_AUTOPILOT_INVALID,
            base_mode: MAV_MODE_FLAG_CUSTOM_MODE_ENABLED,
            system_status: MAV_STATE_ACTIVE,
            mavlink_version: 3,
        }))
    );
}

#[test]
fn only_heartbeat_has_an_upstream_encoding() {
    let position = CloudRiderMessage::GlobalPosition(GlobalPosition {
        lat: 1,
        lon: 2,
        alt: 3,
        relative_alt: 4,
        vx: 5,
        vy: 6,
        vz: 7,
    });
    let battery = CloudRiderMessage::BatteryStatus(BatteryStatus {
        remaining_percent: 10,
        temperature_c: 20,
        current_battery_ma: 30,
    });
    let error = CloudRiderMessage::Error(String::from("boom"));
    assert_eq!(to_mavlink(&position), None);
    assert_eq!(to_mavlink(&battery), None);
    assert_eq!(to_mavlink(&error), None);
}

#[test]
fn fresh_heartbeat_carries_a_parseable_timestamp() {
    let h = Heartbeat::new();
    assert!(chrono::DateTime::parse_from_rfc3339(&h.timestamp).is_ok());
}
