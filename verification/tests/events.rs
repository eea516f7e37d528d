use std::cell::{Cell, RefCell};
use std::rc::Rc;

use fingest_client::events::{announce_on_success, ClientEvent, InProcessBus, SubscriptionId};

type Subscriber = Rc<dyn Fn(&ClientEvent)>;
type Bus = RefCell<InProcessBus<Subscriber>>;

fn bus() -> Rc<Bus> {
    Rc::new(RefCell::new(InProcessBus::new()))
}

/// Calls every subscriber of a snapshot taken before the first call.
fn publish(bus: &Bus, event: ClientEvent) {
    let snapshot: Vec<Subscriber> = bus.borrow().subscribers().clone();
    for subscriber in snapshot {
        subscriber(&event);
    }
}

fn recorder() -> (Rc<RefCell<Vec<ClientEvent>>>, Subscriber) {
    let seen = Rc::new(RefCell::new(Vec::new()));
    let sink = Rc::clone(&seen);
    (seen, Rc::new(move |event: &ClientEvent| sink.borrow_mut().push(event.clone())))
}

#[test]
fn every_subscriber_sees_every_event() {
    let bus = bus();
    let (first, a) = recorder();
    let (second, b) = recorder();
    bus.borrow_mut().subscribe(a);
    bus.borrow_mut().subscribe(b);

    publish(&bus, ClientEvent::SessionEnded);

    assert_eq!(first.borrow().len(), 1);
    assert_eq!(second.borrow().len(), 1);
}

#[test]
fn unsubscribing_stops_delivery() {
    let bus = bus();
    let (seen, subscriber) = recorder();
    let id = bus.borrow_mut().subscribe(subscriber);

    publish(&bus, ClientEvent::SessionEnded);
    bus.borrow_mut().unsubscribe(id);
    publish(&bus, ClientEvent::SessionEnded);

    assert_eq!(seen.borrow().len(), 1);
    assert_eq!(bus.borrow().subscriber_count(), 0);
}

#[test]
fn unsubscribing_an_unknown_id_is_harmless() {
    let bus = bus();
    bus.borrow_mut().unsubscribe(SubscriptionId(99));
    assert_eq!(bus.borrow().subscriber_count(), 0);
}

#[test]
fn publishing_with_no_subscribers_is_a_no_op() {
    publish(&bus(), ClientEvent::SessionExpired);
}

#[test]
fn a_subscriber_may_subscribe_while_reacting() {
    let bus = bus();
    let inner = Rc::clone(&bus);
    let (seen, subscriber) = recorder();

    bus.borrow_mut().subscribe(Rc::new(move |_: &ClientEvent| {
        inner.borrow_mut().subscribe(subscriber.clone());
    }));

    publish(&bus, ClientEvent::SessionEnded);

    assert_eq!(bus.borrow().subscriber_count(), 2);
    assert!(seen.borrow().is_empty(), "added mid-dispatch, so it missed this one");
}

#[test]
fn a_subscriber_may_unsubscribe_itself_while_reacting() {
    let bus = bus();
    let inner = Rc::clone(&bus);
    let id = Rc::new(Cell::new(SubscriptionId(0)));
    let held = Rc::clone(&id);

    id.set(bus.borrow_mut().subscribe(Rc::new(move |_: &ClientEvent| {
        inner.borrow_mut().unsubscribe(held.get());
    })));

    publish(&bus, ClientEvent::SessionExpired);

    assert_eq!(bus.borrow().subscriber_count(), 0);
}

#[test]
fn ids_are_handed_out_in_order_and_never_reused() {
    let bus = bus();
    let (_, a) = recorder();
    let (_, b) = recorder();
    let first = bus.borrow_mut().subscribe(a.clone());
    bus.borrow_mut().unsubscribe(first);
    let second = bus.borrow_mut().subscribe(b);

    assert_eq!(first, SubscriptionId(0));
    assert_eq!(second, SubscriptionId(1));
    assert_eq!(bus.borrow().next_id(), 2);
}

#[test]
fn subscribing_then_unsubscribing_restores_the_subscribers() {
    let bus = bus();
    let (seen_a, a) = recorder();
    let (seen_b, b) = recorder();
    bus.borrow_mut().subscribe(a);

    let id = bus.borrow_mut().subscribe(b);
    bus.borrow_mut().unsubscribe(id);

    assert_eq!(bus.borrow().subscriber_count(), 1);
    publish(&bus, ClientEvent::WalletChanged);
    assert_eq!(*seen_a.borrow(), vec![ClientEvent::WalletChanged]);
    assert!(seen_b.borrow().is_empty());
}

#[test]
fn only_a_success_is_announced() {
    let ok: Result<u8, String> = Ok(1);
    let failed: Result<u8, String> = Err("category in use".to_owned());

    assert_eq!(announce_on_success(&ok, ClientEvent::CategoryChanged), vec![ClientEvent::CategoryChanged]);
    assert!(announce_on_success(&failed, ClientEvent::CategoryChanged).is_empty());
}

#[test]
fn the_count_follows_a_history_of_calls_and_ids_are_fresh() {
    let mut bus: InProcessBus<u8> = InProcessBus::new();
    let a = bus.subscribe(1);
    let b = bus.subscribe(2);
    bus.unsubscribe(a);
    let c = bus.subscribe(3);
    bus.unsubscribe(a);
    bus.unsubscribe(SubscriptionId(99));

    assert_eq!(bus.subscriber_count(), 2);
    assert!(a != b && b != c && a != c);
    assert_eq!(bus.subscribers(), &vec![2, 3]);
    bus.unsubscribe(c);
    assert_eq!(bus.subscribers(), &vec![2]);
}
