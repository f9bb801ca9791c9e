//! The bounded FIFO channel between the producer stage (downloads) and
//! the consumer stage (transforms).  It is the only synchronization
//! point between the two long-lived tasks; its capacity equals the
//! number of items in the run, so the producer is never blocked by a
//! slow consumer.
use vstd::prelude::*;

verus! {

/// A bounded first-in-first-out channel.  The producer pushes onto the
/// back and finally closes its side; the single consumer pops from the
/// front and terminates when the channel is both empty and closed.
pub struct Channel<T> {
    items: Vec<T>,
    closed: bool,
    capacity: usize,
}

/// Where a run's pipeline stands, read off the channel between its two
/// stages: items are still being produced, or the producer is finished
/// and the consumer is draining what is queued, or everything has been
/// consumed.
#[derive(Clone, Copy, Debug, PartialEq, Eq, Structural)]
pub enum Phase {
    Producing,
    Draining,
    Done,
}

/// The pipeline phase a channel state witnesses.
pub open spec fn phase<T>(ch: Channel<T>) -> Phase {
    if !ch.is_closed() {
        Phase::Producing
    } else if ch.queue().len() > 0 {
        Phase::Draining
    } else {
        Phase::Done
    }
}

impl<T> Channel<T> {
    /// The items currently buffered, oldest first.
    pub closed spec fn queue(self) -> Seq<T> {
        self.items@
    }

    /// Whether the producer has relinquished its sending side.
    pub closed spec fn is_closed(self) -> bool {
        self.closed
    }

    pub closed spec fn capacity_spec(self) -> nat {
        self.capacity as nat
    }

    /// The buffer never outgrows the capacity fixed at creation.
    pub open spec fn wf(self) -> bool {
        self.queue().len() <= self.capacity_spec()
    }

    /// A fresh channel for a run of `capacity` items.
    pub fn new(capacity: usize) -> (c: Channel<T>)
        ensures
            c.queue() == Seq::<T>::empty(),
            !c.is_closed(),
            c.capacity_spec() == capacity,
            c.wf(),
    {
        Channel { items: Vec::new(), closed: false, capacity }
    }

    pub fn len(&self) -> (n: usize)
        ensures
            n == self.queue().len(),
    {
        self.items.len()
    }

    pub fn capacity(&self) -> (n: usize)
        ensures
            n == self.capacity_spec(),
    {
        self.capacity
    }

    /// Sends one item.  The channel is never sent to after the producer
    /// side is closed, and a send within capacity always has room — both
    /// are demanded of the caller here.
    pub fn send(&mut self, item: T)
        requires
            !old(self).is_closed(),
            old(self).queue().len() < old(self).capacity_spec(),
        ensures
            final(self).queue() == old(self).queue().push(item),
            !final(self).is_closed(),
            final(self).capacity_spec() == old(self).capacity_spec(),
            final(self).wf(),
    {
        self.items.push(item);
    }

    /// The producer relinquishes its sending side: items already queued
    /// stay for the consumer to drain.
    pub fn close(&mut self)
        ensures
            final(self).queue() == old(self).queue(),
            final(self).is_closed(),
            final(self).capacity_spec() == old(self).capacity_spec(),
    {
        self.closed = true;
    }

    /// Receives the oldest queued item.  A consumer blocks while the
    /// channel is empty but open, so this may only be called once the
    /// channel holds an item or is closed; `None` signals exhaustion
    /// (empty and closed), upon which the consumer terminates.
    pub fn recv(&mut self) -> (r: Option<T>)
        requires
            old(self).queue().len() > 0 || old(self).is_closed(),
        ensures
            old(self).queue().len() > 0 ==> (r matches Some(x) && x == old(self).queue()[0]
                && final(self).queue() == old(self).queue().drop_first()),
            old(self).queue().len() == 0 ==> r is None && final(self).queue() == old(
                self,
            ).queue(),
            final(self).is_closed() == old(self).is_closed(),
            final(self).capacity_spec() == old(self).capacity_spec(),
    {
        if self.items.len() > 0 {
            let x = self.items.remove(0);
            proof {
                assert(self.items@ =~= old(self).items@.drop_first());
            }
            Some(x)
        } else {
            None
        }
    }

    /// Drains a closed channel: the consumer receives exactly the items
    /// the producer enqueued, in enqueue order — the order downloads
    /// completed inside the producer loop never reorders them.
    pub fn drain(&mut self) -> (out: Vec<T>)
        requires
            old(self).is_closed(),
        ensures
            out@ == old(self).queue(),
            final(self).queue() == Seq::<T>::empty(),
            final(self).is_closed(),
            phase(*final(self)) == Phase::Done,
    {
        let mut out: Vec<T> = Vec::new();
        while self.items.len() > 0
            invariant
                self.is_closed(),
                out@ + self.queue() == old(self).queue(),
                self.capacity_spec() == old(self).capacity_spec(),
            decreases self.queue().len(),
        {
            let r = self.recv();
            if let Some(x) = r {
                out.push(x);
                proof {
                    assert(out@ + self.queue() =~= old(self).queue());
                }
            } else {
                proof {
                    assert(false);
                }
            }
        }
        proof {
            assert(out@ =~= old(self).queue());
        }
        out
    }
}

} // verus!
