#![allow(non_snake_case)]

use staged_sync::utils::event_emitters::{retainDelivered, EventEmitters};
use tokio::sync::mpsc::unbounded_channel;

#[test]
fn a_closed_subscriber_is_pruned_and_the_others_receive() {
    let (first, mut firstReceiver) = unbounded_channel::<u32>();
    let (second, secondReceiver) = unbounded_channel::<u32>();
    let (third, mut thirdReceiver) = unbounded_channel::<u32>();
    let mut emitters: EventEmitters<u32> = EventEmitters::new();
    emitters.subscribe(first);
    emitters.subscribe(second);
    emitters.subscribe(third);
    assert_eq!(emitters.subscriberCount(), 3);

    drop(secondReceiver);
    emitters.emit(7);

    assert_eq!(firstReceiver.try_recv().unwrap(), 7);
    assert_eq!(thirdReceiver.try_recv().unwrap(), 7);
    assert!(firstReceiver.try_recv().is_err());
    assert!(thirdReceiver.try_recv().is_err());
    assert_eq!(emitters.subscriberCount(), 2);

    // The closed one is gone for good, and that is no error.
    emitters.emit(8);
    assert_eq!(firstReceiver.try_recv().unwrap(), 8);
    assert_eq!(thirdReceiver.try_recv().unwrap(), 8);
    assert_eq!(emitters.subscriberCount(), 2);
}

#[test]
fn every_open_subscriber_receives_every_event_in_order() {
    let (first, mut firstReceiver) = unbounded_channel::<u32>();
    let (second, mut secondReceiver) = unbounded_channel::<u32>();
    let mut emitters: EventEmitters<u32> = EventEmitters::new();
    emitters.subscribe(first);
    emitters.subscribe(second);
    emitters.emitAll(&vec![1, 2, 3]);
    for receiver in [&mut firstReceiver, &mut secondReceiver] {
        assert_eq!(receiver.try_recv().unwrap(), 1);
        assert_eq!(receiver.try_recv().unwrap(), 2);
        assert_eq!(receiver.try_recv().unwrap(), 3);
        assert!(receiver.try_recv().is_err());
    }
    assert_eq!(emitters.subscriberCount(), 2);
}

#[test]
fn deliveries_are_told_of_each_subscriber() {
    let (first, firstReceiver) = unbounded_channel::<u32>();
    let (second, mut secondReceiver) = unbounded_channel::<u32>();
    let mut emitters: EventEmitters<u32> = EventEmitters::new();
    emitters.subscribe(first);
    emitters.subscribe(second);
    drop(firstReceiver);
    assert_eq!(emitters.deliverToAll(&5), vec![false, true]);
    assert_eq!(secondReceiver.try_recv().unwrap(), 5);
    // Telling alone forgets nobody.
    assert_eq!(emitters.subscriberCount(), 2);
}

#[test]
fn emitting_without_subscribers_does_nothing() {
    let mut emitters: EventEmitters<u32> = EventEmitters::new();
    emitters.emit(1);
    assert_eq!(emitters.subscriberCount(), 0);
}

#[test]
fn those_delivered_to_stay_in_their_order() {
    let mut members = vec![10, 20, 30, 40, 50];
    retainDelivered(&mut members, &vec![true, false, true, false, true]);
    assert_eq!(members, vec![10, 30, 50]);

    let mut members = vec![1, 2, 3];
    retainDelivered(&mut members, &vec![false, false, false]);
    assert!(members.is_empty());

    let mut members = vec![1, 2, 3];
    retainDelivered(&mut members, &vec![true, true, true]);
    assert_eq!(members, vec![1, 2, 3]);

    let mut members: Vec<u8> = Vec::new();
    retainDelivered(&mut members, &Vec::new());
    assert!(members.is_empty());
}
