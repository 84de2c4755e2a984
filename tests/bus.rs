use std::rc::Rc;
use syncbus::{Bus, BusReader};

#[derive(Copy, Clone, PartialEq, Debug)]
enum Value {
    A,
    B,
}

#[test]
fn should_not_crash_broadcasting_without_readers() {
    let bus = Bus::<Value>::new(10);
    bus.broadcast(Value::A);
}

#[test]
fn reader_should_have_incremental_head() {
    let mut bus = Bus::<Value>::new(5);

    assert_eq!(bus.slot_capacity(), 5);
    assert_eq!(bus.reader_count(), 0);
    assert_eq!(bus.next_index(), 0);

    let mut rxs: Vec<BusReader<Value>> = vec![];
    for i in 0..10 {
        let rx = bus.add_rx();
        assert_eq!(rx.index(), i);
        rxs.push(rx);
    }

    assert_eq!(bus.handle_count(), 11);
    assert_eq!(bus.slot_capacity(), 10);
    assert_eq!(bus.reader_count(), 10);
    assert_eq!(bus.next_index(), 10);
}

#[test]
fn reader_should_drop_and_release_count() {
    let mut bus = Bus::<Value>::new(5);

    for i in 0..10 {
        let rx = bus.add_rx();
        assert_eq!(rx.index(), i);
    }

    assert_eq!(bus.handle_count(), 1);
    assert_eq!(bus.slot_capacity(), 5);
    assert_eq!(bus.reader_count(), 0);
    assert_eq!(bus.next_index(), 10);
}

#[test]
fn recv_without_broadcast_should_be_empty() {
    let mut bus = Bus::<Value>::new(5);
    let mut rx1 = bus.add_rx();
    let mut rx2 = bus.add_rx();

    assert_eq!(rx1.recv(), vec![]);
    assert_eq!(rx2.recv(), vec![]);
}

#[test]
fn recv_should_empty_queue_and_return_values() {
    let mut bus = Bus::<Value>::new(5);
    let mut rx1 = bus.add_rx();
    let mut rx2 = bus.add_rx();

    bus.broadcast(Value::A);
    bus.broadcast(Value::B);

    assert_eq!(rx1.recv(), vec![Value::A, Value::B]);
    assert_eq!(rx2.recv(), vec![Value::A, Value::B]);

    assert_eq!(rx1.recv(), vec![]);
    assert_eq!(rx2.recv(), vec![]);
}

#[test]
fn recv_works_when_bus_dropped() {
    let mut bus = Bus::<Value>::new(5);
    let mut rx = bus.add_rx();

    bus.broadcast(Value::A);

    drop(bus);

    assert_eq!(rx.handle_count(), 1);
    assert_eq!(rx.recv(), vec![Value::A]);

    let weak = Rc::downgrade(&rx.registry_handle());

    drop(rx);

    assert!(weak.upgrade().is_none());
}

#[test]
fn example() {
    let mut bus = Bus::<Value>::new(10);
    let mut rx1 = bus.add_rx();
    let mut rx2 = bus.add_rx();

    bus.broadcast(Value::A);
    bus.broadcast(Value::B);

    assert_eq!(rx1.recv(), vec![Value::A, Value::B]);
    assert_eq!(rx2.recv(), vec![Value::A, Value::B]);
}

#[test]
fn smallest_capacity_is_accepted() {
    let mut bus = Bus::<u32>::new(3);
    assert_eq!(bus.slot_capacity(), 3);
    let mut rx = bus.add_rx();
    bus.broadcast(7);
    assert_eq!(rx.recv(), vec![7]);
}

#[test]
fn broadcast_without_readers_is_not_stored() {
    let mut bus = Bus::<u32>::new(4);
    bus.broadcast(1);
    bus.broadcast(2);
    assert_eq!(bus.reader_count(), 0);
    let mut rx = bus.add_rx();
    assert_eq!(rx.recv(), Vec::<u32>::new());
}

#[test]
fn reader_only_sees_values_after_registration() {
    let mut bus = Bus::<u32>::new(4);
    let mut early = bus.add_rx();
    bus.broadcast(1);
    let mut late = bus.add_rx();
    bus.broadcast(2);
    assert_eq!(early.recv(), vec![1, 2]);
    assert_eq!(late.recv(), vec![2]);
}

#[test]
fn dropping_a_reader_removes_exactly_its_slot() {
    let mut bus = Bus::<u32>::new(4);
    let mut a = bus.add_rx();
    let b = bus.add_rx();
    let mut c = bus.add_rx();
    assert_eq!(bus.reader_count(), 3);
    drop(b);
    assert_eq!(bus.reader_count(), 2);
    bus.broadcast(5);
    assert_eq!(a.recv(), vec![5]);
    assert_eq!(c.recv(), vec![5]);
    let d = bus.add_rx();
    assert_eq!(d.index(), 3);
    assert_eq!(bus.next_index(), 4);
}

#[test]
fn handle_count_follows_readers() {
    let mut bus = Bus::<u8>::new(3);
    assert_eq!(bus.handle_count(), 1);
    let rx = bus.add_rx();
    assert_eq!(bus.handle_count(), 2);
    assert_eq!(rx.handle_count(), 2);
    drop(rx);
    assert_eq!(bus.handle_count(), 1);
}
