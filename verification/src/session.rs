//! The per-session pipeline's state: the two bounded channels and the
//! outbound sender's liveness, with one step method per loop body. The
//! asynchronous driver owns the transports, runs each loop
//! concurrently, and performs one step method per iteration; every step
//! here says exactly what it does to the channels.

use vstd::prelude::*;

use crate::channel::{spec_recv, spec_try_send, MessageChannel, SendStatus};
use crate::codec::{encode_message, spec_encode};
use crate::domain::{now_rfc3339, CloudRiderMessage, Heartbeat};
use crate::upstream::{MavHeader, UpstreamFrame};
use crate::worker::{heartbeat_command, receive_step, sender_step, spec_receive_step, spec_sender_step, UpstreamEvent};

verus! {

/// The channel capacity the session is built with.
pub const DEFAULT_CHANNEL_CAPACITY: usize = 100;

/// What publishing an optional message does to a channel: nothing for
/// no message, one attempted enqueue for one.
pub open spec fn spec_publish(
    q: Seq<CloudRiderMessage>,
    cap: nat,
    closed: bool,
    m: Option<CloudRiderMessage>,
) -> (Seq<CloudRiderMessage>, Option<SendStatus>) {
    match m {
        None => (q, None),
        Some(msg) => {
            let (q1, st) = spec_try_send(q, cap, closed, msg);
            (q1, Some(st))
        },
    }
}

/// One client session's pipeline state: the telemetry channel carries
/// domain messages toward the client, the command channel carries
/// client-side commands toward the upstream link.
pub struct ConnectionManager {
    pub telemetry_channel: MessageChannel<CloudRiderMessage>,
    pub command_channel: MessageChannel<CloudRiderMessage>,
    pub sender_stopped: bool,
}

impl ConnectionManager {
    /// Both channels within their bounds.
    pub open spec fn wf(self) -> bool {
        self.telemetry_channel.wf() && self.command_channel.wf()
    }

    /// A fresh session: two empty open channels of the given capacity,
    /// the outbound sender running.
    pub fn new(capacity: usize) -> (r: ConnectionManager)
        requires
            capacity >= 1,
        ensures
            r.wf(),
            r.telemetry_channel.contents() == Seq::<CloudRiderMessage>::empty(),
            r.command_channel.contents() == Seq::<CloudRiderMessage>::empty(),
            r.telemetry_channel.cap() == capacity as nat,
            r.command_channel.cap() == capacity as nat,
            !r.telemetry_channel.is_closed(),
            !r.command_channel.is_closed(),
            !r.sender_stopped,
    {
        ConnectionManager {
            telemetry_channel: MessageChannel::new(capacity),
            command_channel: MessageChannel::new(capacity),
            sender_stopped: false,
        }
    }

    /// The upstream receive loop's step: map the observed event and, if
    /// it yields a domain message, attempt to enqueue it on the
    /// telemetry channel. `None` means nothing was published; `Full`
    /// tells the driver to suspend the producer and retry after a
    /// dequeue.
    pub fn on_upstream_event(&mut self, ev: &UpstreamEvent) -> (r: Option<SendStatus>)
        requires
            old(self).wf(),
        ensures
            final(self).wf(),
            final(self).command_channel == old(self).command_channel,
            final(self).sender_stopped == old(self).sender_stopped,
            final(self).telemetry_channel.cap() == old(self).telemetry_channel.cap(),
            final(self).telemetry_channel.is_closed() == old(self).telemetry_channel.is_closed(),
            exists|ts: String|
                (final(self).telemetry_channel.contents(), r) == spec_publish(
                    old(self).telemetry_channel.contents(),
                    old(self).telemetry_channel.cap(),
                    old(self).telemetry_channel.is_closed(),
                    spec_receive_step(*ev, ts),
                ),
    {
        let stepped = receive_step(ev);
        match stepped {
            None => {
                proof {
                    let ts0 = arbitrary::<String>();
                    match *ev {
                        UpstreamEvent::Frame(_, frame) => {
                            let tsw = choose|tsw: String|
                                None::<CloudRiderMessage> == crate::mapper::spec_to_cloud_rider(
                                    frame,
                                    tsw,
                                );
                            assert(None::<CloudRiderMessage> == crate::mapper::spec_to_cloud_rider(
                                frame,
                                tsw,
                            ));
                            assert(spec_receive_step(*ev, ts0) is None);
                        },
                        UpstreamEvent::RecvError => {},
                    }
                    assert((self.telemetry_channel.contents(), None::<SendStatus>) == spec_publish(
                        old(self).telemetry_channel.contents(),
                        old(self).telemetry_channel.cap(),
                        old(self).telemetry_channel.is_closed(),
                        spec_receive_step(*ev, ts0),
                    ));
                }
                None
            },
            Some(m) => {
                let ghost mm = m;
                let st = self.telemetry_channel.try_send(m);
                proof {
                    match *ev {
                        UpstreamEvent::Frame(_, frame) => {
                            let tsw = choose|tsw: String|
                                Some(mm) == crate::mapper::spec_to_cloud_rider(frame, tsw);
                            assert(Some(mm) == crate::mapper::spec_to_cloud_rider(frame, tsw));
                            assert(spec_receive_step(*ev, tsw) == Some(mm));
                            assert((self.telemetry_channel.contents(), Some(st)) == spec_publish(
                                old(self).telemetry_channel.contents(),
                                old(self).telemetry_channel.cap(),
                                old(self).telemetry_channel.is_closed(),
                                spec_receive_step(*ev, tsw),
                            ));
                        },
                        UpstreamEvent::RecvError => {
                            assert(false);
                        },
                    }
                }
                Some(st)
            },
        }
    }

    /// The heartbeat generator's step: enqueue one synthetic heartbeat
    /// command, stamped with the wall clock, onto the command channel.
    pub fn on_heartbeat_tick(&mut self) -> (r: SendStatus)
        requires
            old(self).wf(),
        ensures
            final(self).wf(),
            final(self).telemetry_channel == old(self).telemetry_channel,
            final(self).sender_stopped == old(self).sender_stopped,
            final(self).command_channel.cap() == old(self).command_channel.cap(),
            final(self).command_channel.is_closed() == old(self).command_channel.is_closed(),
            exists|ts: String|
                (final(self).command_channel.contents(), r) == spec_try_send(
                    old(self).command_channel.contents(),
                    old(self).command_channel.cap(),
                    old(self).command_channel.is_closed(),
                    CloudRiderMessage::Heartbeat(Heartbeat { timestamp: ts }),
                ),
    {
        let stamp = now_rfc3339();
        let ghost tsg = stamp;
        let msg = heartbeat_command(stamp);
        let ghost mm = msg;
        let st = self.command_channel.try_send(msg);
        proof {
            assert(mm == CloudRiderMessage::Heartbeat(Heartbeat { timestamp: tsg }));
            assert((self.command_channel.contents(), st) == spec_try_send(
                old(self).command_channel.contents(),
                old(self).command_channel.cap(),
                old(self).command_channel.is_closed(),
                CloudRiderMessage::Heartbeat(Heartbeat { timestamp: tsg }),
            ));
        }
        st
    }

    /// The upstream send loop's step: dequeue one command message and
    /// map it. `None` means the command channel was empty (the driver
    /// suspends); `Some(None)` means a message was consumed but has no
    /// upstream encoding; `Some(Some(..))` is the header and frame to
    /// put on the upstream wire.
    pub fn poll_command(&mut self) -> (r: Option<Option<(MavHeader, UpstreamFrame)>>)
        requires
            old(self).wf(),
        ensures
            final(self).wf(),
            final(self).telemetry_channel == old(self).telemetry_channel,
            final(self).sender_stopped == old(self).sender_stopped,
            final(self).command_channel.cap() == old(self).command_channel.cap(),
            final(self).command_channel.is_closed() == old(self).command_channel.is_closed(),
            ({
                let (q, d) = spec_recv(old(self).command_channel.contents());
                final(self).command_channel.contents() == q && r == match d {
                    None => None,
                    Some(m) => Some(spec_sender_step(m)),
                }
            }),
    {
        match self.command_channel.recv() {
            None => None,
            Some(m) => Some(sender_step(&m)),
        }
    }

    /// The outbound sender's step: dequeue one telemetry message,
    /// serialize it, and attempt the client write whose fate the driver
    /// reports back. On success the wire text is what went out; on
    /// failure the message is dropped, nothing is retried, and the
    /// sender stops for good.
    pub fn poll_outbound(&mut self, write_ok: bool) -> (r: Option<String>)
        requires
            old(self).wf(),
            !old(self).sender_stopped,
        ensures
            final(self).wf(),
            final(self).command_channel == old(self).command_channel,
            final(self).telemetry_channel.cap() == old(self).telemetry_channel.cap(),
            final(self).telemetry_channel.is_closed() == old(self).telemetry_channel.is_closed(),
            ({
                let (q, d) = spec_recv(old(self).telemetry_channel.contents());
                final(self).telemetry_channel.contents() == q && match d {
                    None => r is None && !final(self).sender_stopped,
                    Some(m) => if write_ok {
                        (match r {
                            Some(s) => s@ == spec_encode(m@),
                            None => false,
                        }) && !final(self).sender_stopped
                    } else {
                        r is None && final(self).sender_stopped
                    },
                }
            }),
    {
        match self.telemetry_channel.recv() {
            None => None,
            Some(m) => {
                let text = encode_message(&m);
                if write_ok {
                    Some(text)
                } else {
                    self.sender_stopped = true;
                    None
                }
            },
        }
    }
}

} // verus!
