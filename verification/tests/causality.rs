use kernel::causality::buffer::{init, record, EventLog, EventRingBuffer, CAPACITY, MAX_CPUS};
use kernel::causality::types::{Cause, Event, EventData, EventId, EventKind, RootCause};

#[test]
fn event_id_parts() {
    let id = EventId::new(3, 77);
    assert_eq!(id.core_id(), 3);
    assert_eq!(id.sequence(), 77);
    assert_eq!(id, EventId::new(3, 77));
    assert_ne!(id, EventId::new(4, 77));
    assert_ne!(id, EventId::new(3, 78));
}

#[test]
fn new_buffer_is_empty() {
    let b = EventRingBuffer::new();
    assert_eq!(b.count(), 0);
    assert_eq!(b.next_sequence(), 0);
}

#[test]
fn record_numbers_events_from_zero() {
    let mut b = EventRingBuffer::new();
    let first = b.record(2, EventKind::Boot, Cause::Root(RootCause::Boot), EventData::Empty);
    assert_eq!(first, EventId::new(2, 0));
    let second = b.record(2, EventKind::Boot, Cause::CausedBy(first), EventData::Empty);
    assert_eq!(second, EventId::new(2, 1));
    assert_eq!(b.count(), 2);
    assert_eq!(b.next_sequence(), 2);
    assert_eq!(
        b.get(0),
        Event {
            id: first,
            kind: EventKind::Boot,
            cause: Cause::Root(RootCause::Boot),
            data: EventData::Empty
        }
    );
    assert_eq!(b.get(1).cause, Cause::CausedBy(first));
}

#[test]
fn full_buffer_drops_the_oldest() {
    let mut b = EventRingBuffer::new();
    for _ in 0..CAPACITY {
        b.record(0, EventKind::Boot, Cause::Root(RootCause::Boot), EventData::Empty);
    }
    assert_eq!(b.count(), CAPACITY);
    assert_eq!(b.get(0).id, EventId::new(0, 0));
    assert_eq!(b.get(CAPACITY - 1).id, EventId::new(0, 4095));
    let id = b.record(0, EventKind::Boot, Cause::Root(RootCause::Boot), EventData::Empty);
    assert_eq!(id, EventId::new(0, 4096));
    assert_eq!(b.count(), CAPACITY);
    assert_eq!(b.next_sequence(), 4097);
    assert_eq!(b.get(0).id, EventId::new(0, 1));
    assert_eq!(b.get(CAPACITY - 1).id, EventId::new(0, 4096));
    for _ in 0..5000 {
        b.record(0, EventKind::Boot, Cause::Root(RootCause::Boot), EventData::Empty);
    }
    assert_eq!(b.count(), CAPACITY);
    assert_eq!(b.get(0).id, EventId::new(0, 5001));
    assert_eq!(b.get(17).id, EventId::new(0, 5018));
    assert_eq!(b.get(CAPACITY - 1).id, EventId::new(0, 9096));
}

#[test]
fn log_starts_once() {
    let mut log = EventLog::new();
    assert!(!log.initialized());
    init(&mut log);
    assert!(log.initialized());
}

#[test]
fn log_records_per_core() {
    assert_eq!(MAX_CPUS, 16);
    let mut log = EventLog::new();
    init(&mut log);
    let a = record(&mut log, 0, EventKind::Boot, Cause::Root(RootCause::Boot), EventData::Empty);
    let b = record(&mut log, 15, EventKind::Boot, Cause::CausedBy(a), EventData::Empty);
    let c = record(&mut log, 0, EventKind::Boot, Cause::CausedBy(b), EventData::Empty);
    assert_eq!(a, EventId::new(0, 0));
    assert_eq!(b, EventId::new(15, 0));
    assert_eq!(c, EventId::new(0, 1));
    assert_eq!(log.count(0), 2);
    assert_eq!(log.count(15), 1);
    assert_eq!(log.count(7), 0);
}
