//! Per-node pub/sub with bounded, independent subscriber buffers.
//!
//! Emission never blocks: with no subscribers it is a no-op, and a subscriber
//! whose buffer is full loses its oldest buffered entry rather than slowing
//! the emitter down. A subscriber created after an event was emitted never
//! sees that event. Each subscriber is a cursor into the emitter's event log;
//! the entries it still may receive are those between its cursor and the end
//! of the log, at most its chosen capacity.

use vstd::prelude::*;

verus! {

/// One subscriber's position: the next log entry it will receive, and how
/// many entries it may buffer before the oldest is dropped.
pub struct Subscriber {
    pub cursor: usize,
    pub capacity: usize,
}

/// A broadcast emitter for events of type `T`.
pub struct Emitter<T> {
    log: Vec<T>,
    subs: Vec<Subscriber>,
}

/// Where a subscriber actually continues reading in a log of length `n`:
/// at its cursor, unless more than `capacity` entries are waiting, in which
/// case the oldest waiting entries beyond the capacity are dropped.
pub open spec fn catch_up(sub: Subscriber, n: nat) -> int {
    if n - sub.cursor > sub.capacity {
        n - sub.capacity
    } else {
        sub.cursor as int
    }
}

impl<T> Emitter<T> {
    /// All events emitted so far, in emission order.
    pub closed spec fn log(&self) -> Seq<T> {
        self.log@
    }

    /// The subscribers, in subscription order.
    pub closed spec fn subs(&self) -> Seq<Subscriber> {
        self.subs@
    }

    /// Every subscriber's cursor points into the log or just past its end.
    pub open spec fn wf(&self) -> bool {
        forall|i: int|
            0 <= i < self.subs().len() ==> (#[trigger] self.subs()[i]).cursor
                <= self.log().len()
    }

    /// A fresh emitter with no events and no subscribers.
    pub fn new() -> (r: Emitter<T>)
        ensures
            r.log() == Seq::<T>::empty(),
            r.subs() == Seq::<Subscriber>::empty(),
            r.wf(),
    {
        Emitter { log: Vec::new(), subs: Vec::new() }
    }

    /// Emit one event: it is appended to the log; no subscriber moves.
    pub fn emit(&mut self, event: T)
        requires
            old(self).wf(),
        ensures
            final(self).log() == old(self).log().push(event),
            final(self).subs() == old(self).subs(),
            final(self).wf(),
    {
        self.log.push(event);
    }

    /// Add a subscriber. It starts at the end of the log: events already
    /// emitted are not replayed to it.
    pub fn subscribe(&mut self, capacity: usize) -> (sub: usize)
        requires
            old(self).wf(),
            capacity >= 1,
        ensures
            final(self).log() == old(self).log(),
            final(self).subs() == old(self).subs().push(
                Subscriber { cursor: old(self).log().len() as usize, capacity },
            ),
            sub == old(self).subs().len(),
            final(self).wf(),
    {
        let cursor = self.log.len();
        let sub = self.subs.len();
        self.subs.push(Subscriber { cursor, capacity });
        sub
    }

    /// Take the index of the next event for one subscriber, skipping any
    /// entries it lost to its bounded buffer, or report that it is caught up.
    pub fn try_recv(&mut self, sub: usize) -> (r: Option<usize>)
        requires
            old(self).wf(),
            sub < old(self).subs().len(),
        ensures
            final(self).log() == old(self).log(),
            final(self).subs().len() == old(self).subs().len(),
            forall|i: int|
                0 <= i < old(self).subs().len() && i != sub ==> final(self).subs()[i] == old(
                    self,
                ).subs()[i],
            final(self).subs()[sub as int].capacity == old(self).subs()[
                sub as int
            ].capacity,
            ({
                let c = catch_up(old(self).subs()[sub as int], old(self).log().len());
                if c < old(self).log().len() {
                    r == Some(c as usize) && final(self).subs()[sub as int].cursor == c + 1
                } else {
                    r is None && final(self).subs()[sub as int].cursor == c
                }
            }),
            final(self).wf(),
    {
        let n = self.log.len();
        let cursor = self.subs[sub].cursor;
        let capacity = self.subs[sub].capacity;
        let effective: usize = if n - cursor > capacity {
            n - capacity
        } else {
            cursor
        };
        if effective < n {
            self.subs[sub] = Subscriber { cursor: effective + 1, capacity };
            Some(effective)
        } else {
            self.subs[sub] = Subscriber { cursor: effective, capacity };
            None
        }
    }

    /// Read one event of the log.
    pub fn event(&self, idx: usize) -> (r: &T)
        requires
            idx < self.log().len(),
        ensures
            *r == self.log()[idx as int],
    {
        &self.log[idx]
    }

    /// How many events have been emitted so far.
    pub fn emitted(&self) -> (r: usize)
        ensures
            r == self.log().len(),
    {
        self.log.len()
    }

    /// How many subscribers there are.
    pub fn subscriber_count(&self) -> (r: usize)
        ensures
            r == self.subs().len(),
    {
        self.subs.len()
    }
}

/// A subscriber added after `k` events were already emitted receives none of
/// them: every event it is ever handed has an index at or past `k`, so the
/// first one it can see is the first event emitted after it subscribed.
pub proof fn lemma_late_subscriber_sees_only_later<T>(em: Emitter<T>, sub: int, k: int)
    requires
        em.wf(),
        0 <= sub < em.subs().len(),
        em.subs()[sub].cursor >= k,
    ensures
        catch_up(em.subs()[sub], em.log().len()) >= k,
{
}

} // verus!
