//! Broadcast fan-out with bounded backlog and per-subscriber cursors.
//!
//! Every subscriber reads the same sequence of events independently. A
//! producer's send never blocks and no subscriber slows it down. A
//! subscriber that falls more than the backlog capacity behind loses the
//! oldest undelivered events and is told how many on its next receive.

use vstd::prelude::*;

verus! {

/// A multi-subscriber event channel: the events sent so far, and the
/// backlog a subscriber may fall behind before it starts losing events.
#[derive(Debug)]
pub struct Broadcast<T> {
    /// Every event sent so far, in send order.
    pub events: Vec<T>,
    /// How many undelivered events a subscriber may accumulate.
    pub capacity: usize,
}

/// A subscriber's position in a broadcast channel: the index of the next
/// event it has not yet received.
#[derive(Clone, Copy, Debug)]
pub struct Subscription {
    /// Index of the next event to deliver.
    pub cursor: usize,
}

/// What one receive attempt yields.
#[derive(Debug)]
pub enum Recv<'a, T> {
    /// The next event, in send order.
    Received(&'a T),
    /// The subscriber fell behind by more than the backlog: this many
    /// events were lost, and the cursor moved past them.
    Lagged(usize),
    /// Nothing new was sent.
    Empty,
}

impl<T> Broadcast<T> {
    /// A channel with the given backlog capacity and no events yet.
    pub fn new(capacity: usize) -> (r: Self)
        ensures
            r.events@.len() == 0,
            r.capacity == capacity,
    {
        Broadcast { events: Vec::new(), capacity }
    }

    /// Sends an event: appends it for every subscriber, never blocking
    /// and never waiting for any subscriber.
    pub fn send(&mut self, event: T)
        ensures
            final(self).events@ == old(self).events@.push(event),
            final(self).capacity == old(self).capacity,
    {
        self.events.push(event);
    }

    /// Attaches a new subscriber, which will see every event sent from
    /// now on.
    pub fn subscribe(&self) -> (r: Subscription)
        ensures
            r.cursor == self.events@.len(),
    {
        Subscription { cursor: self.events.len() }
    }

    /// Delivers the subscriber's next event. A subscriber that fell more
    /// than the backlog capacity behind is moved past the lost events and
    /// told how many it lost; one that is caught up receives nothing.
    pub fn recv<'a>(&'a self, sub: &mut Subscription) -> (r: Recv<'a, T>)
        requires
            old(sub).cursor <= self.events@.len(),
        ensures
            final(sub).cursor <= self.events@.len(),
            match r {
                Recv::Received(e) => old(sub).cursor < self.events@.len()
                    && self.events@.len() - old(sub).cursor <= self.capacity && *e
                    == self.events@[old(sub).cursor as int] && final(sub).cursor == old(
                    sub,
                ).cursor + 1,
                Recv::Lagged(n) => self.events@.len() - old(sub).cursor > self.capacity && n
                    == self.events@.len() - self.capacity - old(sub).cursor && final(sub).cursor
                    == self.events@.len() - self.capacity,
                Recv::Empty => old(sub).cursor == self.events@.len() && *final(sub) == *old(sub),
            },
    {
        let len = self.events.len();
        if sub.cursor == len {
            return Recv::Empty;
        }
        if len - sub.cursor > self.capacity {
            let lost = len - self.capacity - sub.cursor;
            sub.cursor = len - self.capacity;
            return Recv::Lagged(lost);
        }
        let e = &self.events[sub.cursor];
        sub.cursor = sub.cursor + 1;
        Recv::Received(e)
    }
}

} // verus!
