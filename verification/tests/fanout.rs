use orderbook_aggregator::multi_receiver_channels::MultiReceiverChannel;
use orderbook_aggregator::orderbook::{Level, Summary};
use tokio::sync::mpsc::error::TryRecvError;

fn summary(price: f64) -> Summary {
    Summary {
        bids: vec![Level { price: price.to_bits(), amount: 1.0f64.to_bits(), exchange: "binance".to_string() }],
        asks: vec![Level {
            price: (price + 1.0).to_bits(),
            amount: 1.0f64.to_bits(),
            exchange: "bitstamp".to_string(),
        }],
    }
}

fn publish(channel: &mut MultiReceiverChannel<Summary>, message: &Summary) -> usize {
    let mut sends = 0;
    let mut at = 0;
    loop {
        let delivered = match channel.send_target(at) {
            Some(sender) => sender.try_send(message.clone()).is_ok(),
            None => break,
        };
        sends += 1;
        at = channel.send_done(at, delivered);
    }
    sends
}

#[test]
fn new_channel_has_no_subscriber() {
    let mut channel: MultiReceiverChannel<Summary> = MultiReceiverChannel::new();
    assert_eq!(channel.len(), 0);
    assert!(channel.send_target(0).is_none());
    assert_eq!(channel.send_done(0, true), 0);
    assert_eq!(channel.send_done(3, false), 3);
    assert_eq!(publish(&mut channel, &summary(1.0)), 0);
}

#[test]
fn every_subscriber_gets_every_summary_in_order() {
    let mut channel: MultiReceiverChannel<Summary> = MultiReceiverChannel::new();
    let mut first = channel.create_receiver(1000);
    let mut second = channel.create_receiver(1000);
    assert_eq!(channel.len(), 2);
    assert_eq!(publish(&mut channel, &summary(1.0)), 2);
    assert_eq!(publish(&mut channel, &summary(2.0)), 2);
    assert_eq!(first.try_recv(), Ok(summary(1.0)));
    assert_eq!(first.try_recv(), Ok(summary(2.0)));
    assert_eq!(first.try_recv(), Err(TryRecvError::Empty));
    assert_eq!(second.try_recv(), Ok(summary(1.0)));
    assert_eq!(second.try_recv(), Ok(summary(2.0)));
    assert_eq!(channel.len(), 2);
}

#[test]
fn scenario_dead_subscriber_is_removed() {
    let mut channel: MultiReceiverChannel<Summary> = MultiReceiverChannel::new();
    let dropped = channel.create_receiver(1000);
    let mut alive = channel.create_receiver(1000);
    drop(dropped);
    assert_eq!(publish(&mut channel, &summary(1.0)), 2);
    assert_eq!(channel.len(), 1);
    assert_eq!(alive.try_recv(), Ok(summary(1.0)));
    assert_eq!(publish(&mut channel, &summary(2.0)), 1);
    assert_eq!(channel.len(), 1);
    assert_eq!(alive.try_recv(), Ok(summary(2.0)));
    assert_eq!(alive.try_recv(), Err(TryRecvError::Empty));
}

#[test]
fn subscribers_behind_a_removed_one_keep_their_order() {
    let mut channel: MultiReceiverChannel<Summary> = MultiReceiverChannel::new();
    let first = channel.create_receiver(4);
    let mut second = channel.create_receiver(4);
    let mut third = channel.create_receiver(4);
    drop(first);
    assert_eq!(channel.send_done(0, false), 0);
    assert_eq!(channel.len(), 2);
    channel.send_target(0).unwrap().try_send(summary(2.0)).unwrap();
    channel.send_target(1).unwrap().try_send(summary(3.0)).unwrap();
    assert!(channel.send_target(2).is_none());
    assert_eq!(second.try_recv(), Ok(summary(2.0)));
    assert_eq!(third.try_recv(), Ok(summary(3.0)));
    assert_eq!(channel.send_done(0, true), 1);
    assert_eq!(channel.send_done(1, true), 2);
    assert_eq!(channel.len(), 2);
}

#[test]
fn publish_removes_those_in_the_middle_too() {
    let mut channel: MultiReceiverChannel<Summary> = MultiReceiverChannel::new();
    let mut first = channel.create_receiver(4);
    let second = channel.create_receiver(4);
    let third = channel.create_receiver(4);
    let mut fourth = channel.create_receiver(4);
    drop(second);
    drop(third);
    assert_eq!(publish(&mut channel, &summary(1.0)), 4);
    assert_eq!(channel.len(), 2);
    assert_eq!(first.try_recv(), Ok(summary(1.0)));
    assert_eq!(fourth.try_recv(), Ok(summary(1.0)));
    channel.send_target(1).unwrap().try_send(summary(4.0)).unwrap();
    assert_eq!(fourth.try_recv(), Ok(summary(4.0)));
    assert_eq!(first.try_recv(), Err(TryRecvError::Empty));
}

#[test]
fn all_subscribers_gone_leaves_an_empty_channel() {
    let mut channel: MultiReceiverChannel<Summary> = MultiReceiverChannel::new();
    for _ in 0..5 {
        drop(channel.create_receiver(1));
    }
    assert_eq!(channel.len(), 5);
    assert_eq!(publish(&mut channel, &summary(1.0)), 5);
    assert_eq!(channel.len(), 0);
}
