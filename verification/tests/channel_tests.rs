use matrix_display::channel::{DeliveryChannel, Offer, CHANNEL_CAPACITY};
use matrix_display::message::Message;
use std::future::Future;
use std::task::{Context, Poll, Waker};

fn message(n: usize) -> Message {
    Message::new("ALICE".to_string(), format!("message {}", n)).unwrap()
}

#[test]
fn new_channel_is_empty() {
    let mut channel = DeliveryChannel::open();
    assert_eq!(channel.take(), None);
}

#[test]
fn messages_come_out_in_the_order_they_went_in() {
    let mut channel = DeliveryChannel::open();
    for n in 0..CHANNEL_CAPACITY {
        assert_eq!(channel.offer(message(n)), Offer::Accepted);
    }
    for n in 0..CHANNEL_CAPACITY {
        assert_eq!(channel.take(), Some(message(n)));
    }
    assert_eq!(channel.take(), None);
}

#[test]
fn order_holds_when_offers_and_takes_alternate() {
    let mut channel = DeliveryChannel::open();
    assert_eq!(channel.offer(message(1)), Offer::Accepted);
    assert_eq!(channel.offer(message(2)), Offer::Accepted);
    assert_eq!(channel.take(), Some(message(1)));
    assert_eq!(channel.offer(message(3)), Offer::Accepted);
    assert_eq!(channel.take(), Some(message(2)));
    assert_eq!(channel.take(), Some(message(3)));
    assert_eq!(channel.take(), None);
}

#[test]
fn full_channel_hands_the_message_back() {
    let mut channel = DeliveryChannel::open();
    assert_eq!(CHANNEL_CAPACITY, 32);
    for n in 0..32 {
        assert_eq!(channel.offer(message(n)), Offer::Accepted);
    }
    assert_eq!(channel.offer(message(32)), Offer::Full(message(32)));
    assert_eq!(channel.offer(message(32)), Offer::Full(message(32)));
    assert_eq!(channel.take(), Some(message(0)));
    assert_eq!(channel.offer(message(32)), Offer::Accepted);
    assert_eq!(channel.offer(message(33)), Offer::Full(message(33)));
    for n in 1..33 {
        assert_eq!(channel.take(), Some(message(n)));
    }
    assert_eq!(channel.take(), None);
}

#[test]
fn closed_channel_takes_nothing_in() {
    let mut channel = DeliveryChannel::open();
    assert_eq!(channel.offer(message(1)), Offer::Accepted);
    channel.close();
    assert_eq!(channel.offer(message(2)), Offer::Closed(message(2)));
    assert_eq!(channel.take(), Some(message(1)));
    assert_eq!(channel.take(), None);
    assert_eq!(channel.offer(message(3)), Offer::Closed(message(3)));
}

#[test]
fn closed_wins_over_full() {
    let mut channel = DeliveryChannel::open();
    for n in 0..32 {
        assert_eq!(channel.offer(message(n)), Offer::Accepted);
    }
    channel.close();
    assert_eq!(channel.offer(message(32)), Offer::Closed(message(32)));
}

#[test]
fn split_ends_carry_what_waits() {
    let mut channel = DeliveryChannel::open();
    assert_eq!(channel.offer(message(1)), Offer::Accepted);
    let (tx, mut rx) = channel.split();
    assert_eq!(tx.max_capacity(), 32);
    assert_eq!(tx.capacity(), 31);
    tx.try_send(message(2)).unwrap();
    assert_eq!(rx.try_recv().ok(), Some(message(1)));
    assert_eq!(rx.try_recv().ok(), Some(message(2)));
    assert!(rx.try_recv().is_err());
}

#[test]
fn waiting_send_completes_only_after_a_take() {
    let mut channel = DeliveryChannel::open();
    for n in 0..32 {
        assert_eq!(channel.offer(message(n)), Offer::Accepted);
    }
    let (tx, mut rx) = channel.split();
    let mut context = Context::from_waker(Waker::noop());
    {
        let mut send = Box::pin(tx.send(message(32)));
        assert!(send.as_mut().poll(&mut context).is_pending());
        assert!(send.as_mut().poll(&mut context).is_pending());
        assert_eq!(rx.try_recv().ok(), Some(message(0)));
        assert!(matches!(send.as_mut().poll(&mut context), Poll::Ready(Ok(()))));
    }
    for n in 1..33 {
        assert_eq!(rx.try_recv().ok(), Some(message(n)));
    }
    assert!(rx.try_recv().is_err());
}

#[test]
fn send_to_a_dropped_receiver_fails_without_panic() {
    let (tx, rx) = DeliveryChannel::open().split();
    drop(rx);
    let mut context = Context::from_waker(Waker::noop());
    let mut send = Box::pin(tx.send(message(1)));
    assert!(matches!(send.as_mut().poll(&mut context), Poll::Ready(Err(_))));
}
