use singletons::{SendAny, SingletonSet, SyncAny};
use std::sync::mpsc::{channel, Sender};

fn hand_over<T: Send + 'static>(value: T) -> T {
    value
}

fn share<T: Send + Sync + 'static>(value: &T) -> &T {
    value
}

#[test]
fn shared_set_hands_a_sender_over() {
    let (sender, receiver) = channel::<u32>();
    let mut set: SingletonSet<SendAny> = SingletonSet::new_shared();
    assert!(set.insert("std::sync::mpsc::Sender<u32>", sender).is_none());

    let mut set = hand_over(set);
    let sender = set.remove::<Sender<u32>>();
    assert!(set.remove::<Sender<u32>>().is_none());
    assert!(set.is_empty());
    match sender {
        Some(sender) => assert!(sender.send(42).is_ok()),
        None => panic!("the sender was stored"),
    }

    assert_eq!(receiver.recv(), Ok(42));
    assert!(receiver.recv().is_err());
}

#[test]
fn syncable_set_can_be_shared() {
    let mut set: SingletonSet<SyncAny> = SingletonSet::new_unsync();
    set.insert("u64", 5u64);
    let seen = share(&set);
    assert_eq!(seen.try_get::<u64>(), Some(&5));
    let set = hand_over(set);
    assert_eq!(set.len(), 1);
}
