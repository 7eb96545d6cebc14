use cloud_rider_gateway::channel::SendStatus;
use cloud_rider_gateway::codec::{decode_message, encode_message};
use cloud_rider_gateway::domain::{CloudRiderMessage, GlobalPosition};
use cloud_rider_gateway::session::ConnectionManager;
use cloud_rider_gateway::upstream::{GlobalPositionIntFrame, MavHeader, UpstreamFrame};
use cloud_rider_gateway::worker::{
    heartbeat_ticks, outbound_drain, receive_step, sender_step, UpstreamEvent,
};

fn position_event() -> UpstreamEvent {
    UpstreamEvent::Frame(
        MavHeader { system_id: 1, component_id: 1, sequence: 9 },
        UpstreamFrame::GlobalPositionInt(GlobalPositionIntFrame {
            lat: 473397000,
            lon: 85550000,
            alt: 500000,
            relative_alt: 100000,
            vx: 10,
            vy: 0,
            vz: -5,
        }),
    )
}

#[test]
fn scenario_position_frame_reaches_the_client() {
    // end to end: an upstream position frame goes through the receive
    // loop, the telemetry channel and the outbound sender; the client
    // receives a GlobalPosition message carrying the raw fixed-point
    // units the pipeline keeps throughout.
    let mut cm = ConnectionManager::new(100);
    assert_eq!(cm.on_upstream_event(&position_event()), Some(SendStatus::Sent));
    let wire = cm.poll_outbound(true).expect("one frame should go out");
    let received = decode_message(&wire).expect("client receives well-formed frame");
    assert_eq!(
        received,
        CloudRiderMessage::GlobalPosition(GlobalPosition {
            lat: 473397000,
            lon: 85550000,
            alt: 500000,
            relative_alt: 100000,
            vx: 10,
            vy: 0,
            vz: -5,
        })
    );
}

#[test]
fn scenario_silent_client_still_heartbeats_upstream() {
    // with no client traffic for 5000 ms and a 2000 ms interval, the
    // generator fires twice, and the upstream send loop performs
    // exactly 2 heartbeat-derived sends.
    let mut cm = ConnectionManager::new(100);
    let ticks = heartbeat_ticks(5000, 2000);
    assert_eq!(ticks, 2);
    for _ in 0..ticks {
        assert_eq!(cm.on_heartbeat_tick(), SendStatus::Sent);
    }
    let mut sends = 0;
    loop {
        match cm.poll_command() {
            None => break,
            Some(Some((header, _frame))) => {
                assert_eq!(header, MavHeader { system_id: 1, component_id: 2, sequence: 0 });
                sends += 1;
            }
            Some(None) => {}
        }
    }
    assert_eq!(sends, 2);
}

#[test]
fn scenario_write_failure_stops_outbound_sender() {
    // the client write fails on the second outbound message: exactly
    // one message is delivered, the failed one is not retried, and the
    // sender stops.
    let mut cm = ConnectionManager::new(100);
    assert_eq!(cm.on_upstream_event(&position_event()), Some(SendStatus::Sent));
    assert_eq!(cm.on_upstream_event(&position_event()), Some(SendStatus::Sent));
    let first = cm.poll_outbound(true);
    assert!(first.is_some());
    let second = cm.poll_outbound(false);
    assert_eq!(second, None);
    assert!(cm.sender_stopped);
    assert_eq!(cm.telemetry_channel.len(), 0);
}

#[test]
fn drain_stops_at_first_write_failure() {
    let m1 = CloudRiderMessage::Error(String::from("one"));
    let m2 = CloudRiderMessage::Error(String::from("two"));
    let m3 = CloudRiderMessage::Error(String::from("three"));
    let delivered = outbound_drain(
        &vec![m1.clone(), m2.clone(), m3.clone()],
        &vec![true, false, true],
    );
    assert_eq!(delivered.len(), 1);
    assert_eq!(delivered[0], encode_message(&m1));
}

#[test]
fn drain_delivers_everything_when_writes_succeed() {
    let m1 = CloudRiderMessage::Error(String::from("one"));
    let m2 = CloudRiderMessage::Error(String::from("two"));
    let delivered = outbound_drain(&vec![m1.clone(), m2.clone()], &vec![true, true]);
    assert_eq!(delivered, vec![encode_message(&m1), encode_message(&m2)]);
}

#[test]
fn receive_error_publishes_nothing_and_loop_goes_on() {
    let mut cm = ConnectionManager::new(100);
    assert_eq!(receive_step(&UpstreamEvent::RecvError), None);
    assert_eq!(cm.on_upstream_event(&UpstreamEvent::RecvError), None);
    assert_eq!(cm.telemetry_channel.len(), 0);
}

#[test]
fn unmapped_command_is_consumed_without_a_send() {
    let mut cm = ConnectionManager::new(100);
    let msg = CloudRiderMessage::Error(String::from("not a command"));
    assert_eq!(sender_step(&msg), None);
    assert_eq!(cm.on_upstream_event(&position_event()), Some(SendStatus::Sent));
    // position telemetry flows to the client, never back upstream
    let wire = cm.poll_outbound(true).unwrap();
    assert!(decode_message(&wire).is_some());
    assert_eq!(cm.poll_command(), None);
}

#[test]
fn backpressure_reports_full_at_capacity() {
    let mut cm = ConnectionManager::new(1);
    assert_eq!(cm.on_upstream_event(&position_event()), Some(SendStatus::Sent));
    assert_eq!(cm.on_upstream_event(&position_event()), Some(SendStatus::Full));
    // a dequeue frees space and the retried publish succeeds
    assert!(cm.poll_outbound(true).is_some());
    assert_eq!(cm.on_upstream_event(&position_event()), Some(SendStatus::Sent));
}
