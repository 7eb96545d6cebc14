use cloud_rider_gateway::channel::{MessageChannel, SendStatus};

#[test]
fn channel_is_fifo() {
    let mut ch: MessageChannel<u32> = MessageChannel::new(100);
    assert_eq!(ch.try_send(1), SendStatus::Sent);
    assert_eq!(ch.try_send(2), SendStatus::Sent);
    assert_eq!(ch.try_send(3), SendStatus::Sent);
    assert_eq!(ch.recv(), Some(1));
    assert_eq!(ch.recv(), Some(2));
    assert_eq!(ch.recv(), Some(3));
    assert_eq!(ch.recv(), None);
}

#[test]
fn full_channel_refuses_without_dropping_or_reordering() {
    let mut ch: MessageChannel<u32> = MessageChannel::new(2);
    assert_eq!(ch.try_send(10), SendStatus::Sent);
    assert_eq!(ch.try_send(20), SendStatus::Sent);
    assert_eq!(ch.try_send(30), SendStatus::Full);
    assert_eq!(ch.len(), 2);
    // a dequeue frees space; the retried send then goes through behind
    // everything already queued
    assert_eq!(ch.recv(), Some(10));
    assert_eq!(ch.try_send(30), SendStatus::Sent);
    assert_eq!(ch.recv(), Some(20));
    assert_eq!(ch.recv(), Some(30));
    assert_eq!(ch.recv(), None);
}

#[test]
fn closed_channel_refuses_new_messages() {
    let mut ch: MessageChannel<u32> = MessageChannel::new(4);
    assert_eq!(ch.try_send(1), SendStatus::Sent);
    ch.close();
    assert_eq!(ch.try_send(2), SendStatus::Closed);
    // what was queued before the close still drains in order
    assert_eq!(ch.recv(), Some(1));
    assert_eq!(ch.recv(), None);
}

#[test]
fn capacity_is_what_the_channel_was_built_with() {
    let ch: MessageChannel<u8> = MessageChannel::new(7);
    assert_eq!(ch.capacity(), 7);
    assert_eq!(ch.len(), 0);
}

#[test]
fn send_appends_in_order_when_there_is_room() {
    let mut ch: MessageChannel<u32> = MessageChannel::new(2);
    ch.send(5);
    ch.send(6);
    assert_eq!(ch.recv(), Some(5));
    assert_eq!(ch.recv(), Some(6));
    assert_eq!(ch.recv(), None);
}
