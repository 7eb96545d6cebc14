//! The decision steps of the session's loops: what the upstream
//! receive loop publishes, what the upstream send loop puts on the
//! wire, what the heartbeat generator enqueues, and what the outbound
//! sender delivers before its first write failure. The asynchronous
//! drivers around these steps perform the I/O and the suspension.

use vstd::prelude::*;

use crate::codec::{encode_message, spec_encode};
use crate::domain::{CloudRiderMessage, Heartbeat};
use crate::mapper::{spec_to_cloud_rider, spec_to_mavlink, to_cloud_rider, to_mavlink};
use crate::upstream::{MavHeader, UpstreamFrame};

verus! {

/// One observation of the upstream receive loop: a frame with its
/// routing header, or a receive failure (which is logged and retried,
/// never fatal).
#[derive(Clone, Debug, PartialEq, Eq)]
pub enum UpstreamEvent {
    Frame(MavHeader, UpstreamFrame),
    RecvError,
}

/// What the receive loop publishes for one event, given the timestamp
/// the clock hands to a heartbeat at emission time.
pub open spec fn spec_receive_step(ev: UpstreamEvent, ts: String) -> Option<CloudRiderMessage> {
    match ev {
        UpstreamEvent::Frame(_, frame) => spec_to_cloud_rider(frame, ts),
        UpstreamEvent::RecvError => None,
    }
}

/// The receive loop's body: map a received frame to a domain message
/// (dropping unrecognized kinds), publish nothing on a receive error,
/// and never terminate the loop.
pub fn receive_step(ev: &UpstreamEvent) -> (r: Option<CloudRiderMessage>)
    ensures
        match *ev {
            UpstreamEvent::Frame(_, frame) => exists|ts: String|
                r == spec_to_cloud_rider(frame, ts),
            UpstreamEvent::RecvError => r is None,
        },
{
    match ev {
        UpstreamEvent::Frame(_, frame) => to_cloud_rider(frame),
        UpstreamEvent::RecvError => None,
    }
}

/// What the send loop puts on the upstream wire for one dequeued
/// command: only a heartbeat maps, and it goes out under the fixed
/// header (system 1, component 2, sequence 0 — never incremented).
pub open spec fn spec_sender_step(m: CloudRiderMessage) -> Option<(MavHeader, UpstreamFrame)> {
    match spec_to_mavlink(m) {
        Some(frame) => Some(
            (MavHeader { system_id: 1, component_id: 2, sequence: 0 }, frame),
        ),
        None => None,
    }
}

/// The send loop's body: map one dequeued command message; a mapped
/// frame is sent under the fixed header, an unmapped one is dropped.
pub fn sender_step(message: &CloudRiderMessage) -> (r: Option<(MavHeader, UpstreamFrame)>)
    ensures
        r == spec_sender_step(*message),
{
    match to_mavlink(message) {
        Some(frame) => Some(
            (MavHeader { system_id: 1, component_id: 2, sequence: 0 }, frame),
        ),
        None => None,
    }
}

/// The synthetic command the heartbeat generator enqueues on each tick.
pub fn heartbeat_command(timestamp: String) -> (r: CloudRiderMessage)
    ensures
        r == CloudRiderMessage::Heartbeat(Heartbeat { timestamp }),
{
    CloudRiderMessage::Heartbeat(Heartbeat::with_timestamp(timestamp))
}

/// How many heartbeat ticks fall inside an observation window: the
/// generator fires one interval after start, then every interval.
pub fn heartbeat_ticks(elapsed_ms: u64, interval_ms: u64) -> (r: u64)
    requires
        interval_ms > 0,
    ensures
        r == elapsed_ms as int / interval_ms as int,
{
    elapsed_ms / interval_ms
}

/// The number of leading successful writes: how many messages the
/// outbound sender delivers before its first write failure stops it.
pub open spec fn spec_delivered_count(ok: Seq<bool>) -> nat
    decreases ok.len(),
{
    if ok.len() == 0 {
        0
    } else if !ok[0] {
        0
    } else {
        1 + spec_delivered_count(ok.drop_first())
    }
}

/// A run of leading successes followed by a failure (or the end) pins
/// the delivered count.
proof fn lemma_delivered_count_prefix(ok: Seq<bool>, i: int)
    requires
        0 <= i <= ok.len(),
        forall|k: int| 0 <= k < i ==> ok[k],
        i == ok.len() || !ok[i],
    ensures
        spec_delivered_count(ok) == i,
    decreases ok.len(),
{
    if i == 0 {
    } else {
        assert(ok[0]);
        lemma_delivered_count_prefix(ok.drop_first(), i - 1);
    }
}

/// The outbound sender's drain, replayed over a queue of messages and
/// the fate of each attempted client write: every message is encoded
/// and written in order until the first write failure, which stops the
/// sender for good — the failed message is not retried, nothing after
/// it is attempted, and nothing is reordered.
pub fn outbound_drain(messages: &Vec<CloudRiderMessage>, write_ok: &Vec<bool>) -> (r: Vec<String>)
    requires
        write_ok@.len() == messages@.len(),
    ensures
        r@.len() == spec_delivered_count(write_ok@),
        r@.len() <= messages@.len(),
        forall|k: int| 0 <= k < r@.len() ==> #[trigger] r@[k]@ == spec_encode(messages@[k]@),
{
    let n = messages.len();
    let mut out: Vec<String> = Vec::new();
    let mut i: usize = 0;
    while i < n && write_ok[i]
        invariant
            i <= n,
            n == messages@.len(),
            write_ok@.len() == n,
            out@.len() == i,
            forall|k: int| 0 <= k < i ==> write_ok@[k],
            forall|k: int| 0 <= k < i ==> #[trigger] out@[k]@ == spec_encode(messages@[k]@),
        decreases n - i,
    {
        let frame = encode_message(&messages[i]);
        out.push(frame);
        i += 1;
    }
    proof {
        lemma_delivered_count_prefix(write_ok@, i as int);
    }
    out
}

} // verus!
