use generic_daw_core::outbox::Outbox;
use rtrb::RingBuffer;

#[test]
fn messages_wait_in_order_when_the_buffer_is_full() {
    let (producer, mut consumer) = RingBuffer::<u32>::new(2);
    let mut outbox = Outbox::new(producer);
    assert!(outbox.queue_empty());
    outbox.send(1);
    outbox.send(2);
    assert!(outbox.queue_empty());
    outbox.send(3);
    outbox.send(4);
    assert!(!outbox.queue_empty());
    assert!(!outbox.drain_queue());
    assert_eq!(consumer.pop(), Ok(1));
    // A message sent while others wait goes behind them, even where there is room now.
    outbox.send(5);
    assert!(!outbox.drain_queue());
    assert_eq!(consumer.pop(), Ok(2));
    assert_eq!(consumer.pop(), Ok(3));
    assert!(outbox.drain_queue());
    assert!(outbox.queue_empty());
    assert_eq!(consumer.pop(), Ok(4));
    assert_eq!(consumer.pop(), Ok(5));
    assert!(consumer.pop().is_err());
}

#[test]
fn draining_an_empty_queue_succeeds() {
    let (producer, _consumer) = RingBuffer::<u8>::new(1);
    let mut outbox = Outbox::new(producer);
    assert!(outbox.drain_queue());
}
