//! Per-core ring buffers of events. Each buffer keeps the newest events of
//! its core, up to its capacity.

use crate::causality::types::{Cause, Event, EventData, EventId, EventKind};
use vstd::prelude::*;

verus! {

/// Cores that have a buffer; a core is found by its number.
pub const MAX_CPUS: usize = 16;

/// Events that one buffer keeps.
pub const CAPACITY: usize = 4096;

/// What a buffer stands for: how many events its core has recorded, and
/// those of them that it still keeps, oldest first.
pub struct RingView {
    pub next_sequence: nat,
    pub events: Seq<Event>,
}

/// `events` cut down to the newest `CAPACITY`.
pub open spec fn newest(events: Seq<Event>) -> Seq<Event> {
    if events.len() > CAPACITY {
        events.subrange(events.len() - CAPACITY, events.len() as int)
    } else {
        events
    }
}

/// The ring buffer of one core.
#[derive(Clone, Copy)]
pub struct EventRingBuffer {
    ring_buffer: [Option<Event>; 4096],
    write_idx: usize,
    next_sequence: u64,
    count: usize,
}

impl View for EventRingBuffer {
    type V = RingView;

    closed spec fn view(&self) -> RingView {
        RingView {
            next_sequence: self.next_sequence as nat,
            events: Seq::new(
                self.count as nat,
                |i: int| self.ring_buffer[(self.next_sequence - self.count + i) % 4096]->0,
            ),
        }
    }
}

impl EventRingBuffer {
    /// The write index and the count follow from the number of events
    /// recorded, and every slot that counts holds an event.
    pub closed spec fn wf(&self) -> bool {
        &&& self.write_idx == self.next_sequence % 4096
        &&& self.count == if self.next_sequence < 4096 {
            self.next_sequence as int
        } else {
            4096
        }
        &&& forall|k: int|
            self.next_sequence - self.count <= k < self.next_sequence
                ==> (#[trigger] self.ring_buffer[k % 4096]) is Some
    }

    /// A well-formed buffer keeps every event until it is full, and then
    /// exactly `CAPACITY` of them.
    pub proof fn lemma_len(&self)
        requires
            self.wf(),
        ensures
            self@.events.len() == if self@.next_sequence < CAPACITY {
                self@.next_sequence
            } else {
                CAPACITY as nat
            },
    {
    }

    /// The buffer of a core that has recorded nothing.
    pub fn new() -> (b: Self)
        ensures
            b.wf(),
            b@.next_sequence == 0,
            b@.events == Seq::<Event>::empty(),
    {
        let b = Self { ring_buffer: [None;4096], write_idx: 0, next_sequence: 0, count: 0 };
        assert(b@.events =~= Seq::<Event>::empty());
        b
    }

    /// Events kept.
    pub fn count(&self) -> (n: usize)
        requires
            self.wf(),
        ensures
            n == self@.events.len(),
    {
        self.count
    }

    /// Number that the core's next event gets.
    pub fn next_sequence(&self) -> (n: u64)
        ensures
            n == self@.next_sequence,
    {
        self.next_sequence
    }

    /// The `i`-th event kept, the oldest being number 0.
    pub fn get(&self, i: usize) -> (e: Event)
        requires
            self.wf(),
            i < self@.events.len(),
        ensures
            e == self@.events[i as int],
    {
        let start: u64 = self.next_sequence - self.count as u64;
        let slot: usize = ((start % 4096 + i as u64) % 4096) as usize;
        assert(slot == (self.next_sequence - self.count + i) % 4096);
        match self.ring_buffer[slot] {
            Some(e) => e,
            None => {
                proof {
                    let k = self.next_sequence - self.count + i;
                    assert(self.ring_buffer[k % 4096] is Some);
                }
                unreached()
            },
        }
    }

    /// Record an event of core `core_id`: it gets the core's next number,
    /// and takes the place of the oldest event where the buffer is full.
    pub fn record(&mut self, core_id: u16, kind: EventKind, cause: Cause, data: EventData) -> (id:
        EventId)
        requires
            old(self).wf(),
            old(self)@.next_sequence < u64::MAX,
        ensures
            final(self).wf(),
            id.core_id() == core_id,
            id.sequence() == old(self)@.next_sequence,
            final(self)@.next_sequence == old(self)@.next_sequence + 1,
            final(self)@.events == newest(
                old(self)@.events.push(Event { id, kind, cause, data }),
            ),
    {
        let event_id = EventId::new(core_id, self.next_sequence);
        let event = Event { id: event_id, kind: kind, cause: cause, data: data };

        self.ring_buffer[self.write_idx] = Some(event);

        self.write_idx = (self.write_idx + 1) % CAPACITY;
        self.next_sequence += 1;

        if self.count < CAPACITY {
            self.count += 1;
        }
        proof {
            let n = old(self).next_sequence as int;
            let c = old(self).count as int;
            let pushed = old(self)@.events.push(event);
            assert forall|k: int|
                self.next_sequence - self.count <= k < self.next_sequence implies (
            #[trigger] self.ring_buffer[k % 4096]) is Some by {
                if k < n {
                    assert(old(self).ring_buffer[k % 4096] is Some);
                }
            }
            assert forall|i: int| 0 <= i < self.count implies self@.events[i] == newest(pushed)[i] by {
                let k = self.next_sequence - self.count + i;
                if k < n {
                    assert(k % 4096 != n % 4096);
                }
            }
            assert(self@.events =~= newest(pushed));
        }
        event_id
    }
}

/// The buffers of all cores, and whether recording has been started.
pub struct EventLog {
    buffers: Vec<EventRingBuffer>,
    initialized: bool,
}

impl EventLog {
    /// There is one well-formed buffer per core.
    pub closed spec fn wf(&self) -> bool {
        &&& self.buffers@.len() == MAX_CPUS
        &&& forall|c: int| 0 <= c < MAX_CPUS ==> (#[trigger] self.buffers@[c]).wf()
    }

    pub closed spec fn is_initialized(&self) -> bool {
        self.initialized
    }

    /// What the buffer of core `core` stands for.
    pub closed spec fn core_view(&self, core: int) -> RingView {
        self.buffers@[core]@
    }

    /// Empty buffers for all cores; recording has not been started.
    pub fn new() -> (log: Self)
        ensures
            log.wf(),
            !log.is_initialized(),
            forall|c: int|
                0 <= c < MAX_CPUS ==> (#[trigger] log.core_view(c)).next_sequence == 0
                    && log.core_view(c).events == Seq::<Event>::empty(),
    {
        let mut buffers: Vec<EventRingBuffer> = Vec::new();
        let mut c: usize = 0;
        while c < MAX_CPUS
            invariant
                0 <= c <= MAX_CPUS,
                buffers@.len() == c,
                forall|k: int|
                    0 <= k < c ==> (#[trigger] buffers@[k]).wf() && buffers@[k]@.next_sequence == 0
                        && buffers@[k]@.events == Seq::<Event>::empty(),
            decreases MAX_CPUS - c,
        {
            buffers.push(EventRingBuffer::new());
            c = c + 1;
        }
        Self { buffers, initialized: false }
    }

    /// Whether recording has been started.
    pub fn initialized(&self) -> (b: bool)
        ensures
            b == self.is_initialized(),
    {
        self.initialized
    }

    /// Number that the next event of core `core_id` gets.
    pub fn next_sequence(&self, core_id: u16) -> (n: u64)
        requires
            self.wf(),
            core_id < MAX_CPUS,
        ensures
            n == self.core_view(core_id as int).next_sequence,
    {
        self.buffers[core_id as usize].next_sequence()
    }

    /// Events that the buffer of core `core_id` keeps.
    pub fn count(&self, core_id: u16) -> (n: usize)
        requires
            self.wf(),
            core_id < MAX_CPUS,
        ensures
            n == self.core_view(core_id as int).events.len(),
    {
        self.buffers[core_id as usize].count()
    }
}

/// Start recording. Done once: a log that has been started is not started
/// again.
pub fn init(log: &mut EventLog)
    requires
        old(log).wf(),
        !old(log).is_initialized(),
    ensures
        final(log).wf(),
        final(log).is_initialized(),
        forall|c: int| 0 <= c < MAX_CPUS ==> final(log).core_view(c) == old(log).core_view(c),
{
    log.initialized = true;
}

/// Record an event into the buffer of core `core_id`. The log has been
/// started and the core has a buffer; the buffers of the other cores stay.
pub fn record(log: &mut EventLog, core_id: u16, kind: EventKind, cause: Cause, data: EventData) -> (id:
    EventId)
    requires
        old(log).wf(),
        old(log).is_initialized(),
        core_id < MAX_CPUS,
        old(log).core_view(core_id as int).next_sequence < u64::MAX,
    ensures
        final(log).wf(),
        final(log).is_initialized(),
        id.core_id() == core_id,
        id.sequence() == old(log).core_view(core_id as int).next_sequence,
        final(log).core_view(core_id as int).next_sequence == old(log).core_view(
            core_id as int,
        ).next_sequence + 1,
        final(log).core_view(core_id as int).events == newest(
            old(log).core_view(core_id as int).events.push(Event { id, kind, cause, data }),
        ),
        forall|c: int|
            0 <= c < MAX_CPUS && c != core_id ==> final(log).core_view(c) == old(log).core_view(c),
{
    let core_idx: usize = core_id as usize;
    let mut buffer: EventRingBuffer = log.buffers[core_idx];
    let id = buffer.record(core_id, kind, cause, data);
    log.buffers.set(core_idx, buffer);
    id
}

} // verus!
