//! Tests of the broadcast bus and the key/value cache.

use flowgen::bus::{Bus, Recv};
use flowgen::cache::{Cache, CacheBuilder, Error, Registry};
use flowgen::event::{Event, EventBuilder};
use flowgen::table::Table;

fn event(tag: &[u8], stamp: usize) -> Event {
    EventBuilder::new()
        .data(Table::new())
        .subject(tag.to_vec())
        .current_task_id(stamp)
        .build()
        .unwrap()
}

#[test]
fn bus_delivers_in_order_then_closes() {
    let mut bus: Bus<Event> = Bus::new(8);
    let mut rc = bus.subscribe();
    bus.publish(event(b"a", 0));
    bus.publish(event(b"b", 0));
    bus.close();
    match bus.recv(&mut rc) {
        Recv::Message(e) => assert_eq!(e.subject, b"a".to_vec()),
        _ => panic!("expected the first message"),
    }
    match bus.recv(&mut rc) {
        Recv::Message(e) => assert_eq!(e.subject, b"b".to_vec()),
        _ => panic!("expected the second message"),
    }
    assert!(matches!(bus.recv(&mut rc), Recv::Closed));
}

#[test]
fn bus_is_empty_while_producers_live() {
    let bus: Bus<Event> = Bus::new(4);
    let mut rc = bus.subscribe();
    assert!(matches!(bus.recv(&mut rc), Recv::Empty));
}

#[test]
fn lagged_consumer_sees_lag_then_resumes() {
    // Capacity 4; 6 messages published before the consumer reads: the first
    // receive reports a lag of 2, then reading resumes with message 2.
    let mut bus: Bus<Event> = Bus::new(4);
    let mut rc = bus.subscribe();
    for i in 0..6u8 {
        bus.publish(event(&[b'0' + i], 0));
    }
    bus.close();
    match bus.recv(&mut rc) {
        Recv::Lagged(n) => assert_eq!(n, 2),
        _ => panic!("expected a lag signal"),
    }
    let mut seen = Vec::new();
    loop {
        match bus.recv(&mut rc) {
            Recv::Message(e) => seen.push(e.subject),
            Recv::Closed => break,
            _ => panic!("expected messages then closed"),
        }
    }
    assert_eq!(
        seen,
        vec![b"2".to_vec(), b"3".to_vec(), b"4".to_vec(), b"5".to_vec()],
    );
}

#[test]
fn subscriber_misses_messages_published_before_subscribing() {
    let mut bus: Bus<Event> = Bus::new(8);
    bus.publish(event(b"early", 0));
    let mut rc = bus.subscribe();
    bus.publish(event(b"late", 0));
    bus.close();
    match bus.recv(&mut rc) {
        Recv::Message(e) => assert_eq!(e.subject, b"late".to_vec()),
        _ => panic!("expected only the late message"),
    }
    assert!(matches!(bus.recv(&mut rc), Recv::Closed));
}

fn cache() -> Cache {
    CacheBuilder::new()
        .credentials_path("/etc/creds.json".to_owned())
        .build()
        .unwrap()
}

#[test]
fn cache_builder_requires_credentials() {
    assert!(matches!(
        CacheBuilder::new().build(),
        Err(Error::MissingRequiredAttribute(_))
    ));
}

#[test]
fn bucket_create_is_idempotent() {
    let mut registry = Registry::new();
    let first = cache().init(&mut registry, &b"dedup".to_vec()).unwrap();
    assert_eq!(registry.buckets.len(), 1);
    // The second init fetches the same bucket: usable, no error, no
    // duplicate.
    let second = cache().init(&mut registry, &b"dedup".to_vec()).unwrap();
    assert_eq!(registry.buckets.len(), 1);
    first.put(&mut registry, &b"k".to_vec(), b"v1".to_vec()).unwrap();
    assert_eq!(second.get(&registry, &b"k".to_vec()).unwrap(), b"v1".to_vec());
}

#[test]
fn cache_get_returns_latest_revision() {
    let mut registry = Registry::new();
    let c = cache().init(&mut registry, &b"b".to_vec()).unwrap();
    c.put(&mut registry, &b"k".to_vec(), b"one".to_vec()).unwrap();
    c.put(&mut registry, &b"k".to_vec(), b"two".to_vec()).unwrap();
    assert_eq!(c.get(&registry, &b"k".to_vec()).unwrap(), b"two".to_vec());
}

#[test]
fn cache_keeps_a_bounded_history() {
    let mut registry = Registry::new();
    let c = cache().init(&mut registry, &b"b".to_vec()).unwrap();
    for i in 0..15u8 {
        c.put(&mut registry, &b"k".to_vec(), vec![i]).unwrap();
    }
    // Ten revisions retained, the latest being the last put.
    assert_eq!(registry.buckets[0].1.entries[0].1.len(), 10);
    assert_eq!(c.get(&registry, &b"k".to_vec()).unwrap(), vec![14]);
}

#[test]
fn cache_get_of_unset_key_is_an_empty_buffer() {
    let mut registry = Registry::new();
    let c = cache().init(&mut registry, &b"b".to_vec()).unwrap();
    assert!(matches!(
        c.get(&registry, &b"never".to_vec()),
        Err(Error::EmptyBuffer)
    ));
}

#[test]
fn cache_before_init_has_no_store() {
    let registry = Registry::new();
    let c = cache();
    assert!(matches!(
        c.get(&registry, &b"k".to_vec()),
        Err(Error::MissingCacheStore)
    ));
}
