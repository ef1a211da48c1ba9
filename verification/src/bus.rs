//! The broadcast bus.
//!
//! A single multi-producer, multi-consumer channel connects every stage of a
//! flow.  Publishing never blocks: the bus retains only the most recent
//! `capacity` messages, and a subscriber that falls behind that window loses
//! the overwritten history and observes a lag signal instead of stalling the
//! producers.  Every message carries a monotonically increasing sequence
//! number; each receiver holds its own cursor into that sequence.

use vstd::prelude::*;

verus! {

/// A value that can be duplicated so that every subscriber of the bus gets
/// its own copy of each message.
pub trait DeepCopy: View + Sized {
    /// Produce a copy whose model equals this value's model.
    fn deep_copy(&self) -> (r: Self)
        ensures
            r@ == self@,
    ;
}

/// What one receive attempt yields.
pub enum Recv<T> {
    /// The next message addressed to this receiver.
    Message(T),
    /// The receiver fell behind: this many messages were overwritten before
    /// they could be read.  The receiver is repositioned at the oldest
    /// retained message and resumes normally.
    Lagged(u64),
    /// No message is available yet, but producers may still publish.
    Empty,
    /// The bus is closed and everything published has been read.
    Closed,
}

/// The broadcast bus: a bounded window over an ever-growing sequence of
/// published messages.
pub struct Bus<T: DeepCopy> {
    buffer: Vec<T>,
    first: u64,
    capacity: usize,
    closed: bool,
    history: Ghost<Seq<<T as View>::V>>,
}

/// A subscriber's cursor into the bus's message sequence.
pub struct Receiver {
    cursor: u64,
}

impl Receiver {
    /// The sequence number of the next message this receiver will read.
    pub closed spec fn spec_cursor(&self) -> nat {
        self.cursor as nat
    }
}

impl<T: DeepCopy> Bus<T> {
    /// The models of every message ever published, in publish order.
    pub closed spec fn spec_history(&self) -> Seq<<T as View>::V> {
        self.history@
    }

    /// The bound on retained messages.
    pub closed spec fn spec_capacity(&self) -> nat {
        self.capacity as nat
    }

    /// The sequence number of the oldest message still retained.
    pub closed spec fn spec_first(&self) -> nat {
        self.first as nat
    }

    /// The sequence number the next published message will get.
    pub open spec fn spec_next(&self) -> nat {
        self.spec_history().len()
    }

    /// Whether the sending side has been closed.
    pub closed spec fn spec_closed(&self) -> bool {
        self.closed
    }

    /// Internal consistency: the retained window is the tail of the history,
    /// holds at most `capacity` messages, and the bound is positive.
    pub closed spec fn wf(&self) -> bool {
        &&& self.capacity >= 1
        &&& self.buffer@.len() == (if self.history@.len() <= self.capacity as nat {
            self.history@.len()
        } else {
            self.capacity as nat
        })
        &&& self.history@.len() <= u64::MAX
        &&& self.first as nat + self.buffer@.len() == self.history@.len()
        &&& forall|i: int|
            0 <= i < self.buffer@.len() ==> (#[trigger] self.buffer@[i])@ == self.history@[
                self.first as int + i]
    }

    /// Where the retained window starts: a bus holds the most recent
    /// `capacity` messages, so everything older is lost to late readers.
    pub proof fn lemma_window(&self)
        requires
            self.wf(),
        ensures
            self.spec_first() == if self.spec_next() <= self.spec_capacity() {
                0nat
            } else {
                (self.spec_next() - self.spec_capacity()) as nat
            },
    {
    }

    /// Create a bus that retains at most `capacity` messages.
    pub fn new(capacity: usize) -> (b: Bus<T>)
        requires
            capacity >= 1,
        ensures
            b.wf(),
            b.spec_history() == Seq::<<T as View>::V>::empty(),
            b.spec_capacity() == capacity,
            b.spec_first() == 0,
            !b.spec_closed(),
    {
        Bus {
            buffer: Vec::new(),
            first: 0,
            capacity,
            closed: false,
            history: Ghost(Seq::empty()),
        }
    }

    /// Publish a message.  Never blocks: if the window is full, the oldest
    /// retained message is overwritten and slow receivers will observe a lag.
    pub fn publish(&mut self, m: T)
        requires
            old(self).wf(),
            old(self).spec_next() < u64::MAX,
        ensures
            final(self).wf(),
            final(self).spec_history() == old(self).spec_history().push(m@),
            final(self).spec_capacity() == old(self).spec_capacity(),
            final(self).spec_closed() == old(self).spec_closed(),
            final(self).spec_first() == if old(self).spec_next() - old(self).spec_first()
                == old(self).spec_capacity() {
                old(self).spec_first() + 1
            } else {
                old(self).spec_first()
            },
    {
        proof {
            self.history@ = self.history@.push(m@);
        }
        self.buffer.push(m);
        if self.buffer.len() > self.capacity {
            self.buffer.remove(0);
            self.first = self.first + 1;
        }
    }

    /// Close the sending side.  Receivers drain what is retained, then see
    /// `Closed`.
    pub fn close(&mut self)
        requires
            old(self).wf(),
        ensures
            final(self).wf(),
            final(self).spec_history() == old(self).spec_history(),
            final(self).spec_capacity() == old(self).spec_capacity(),
            final(self).spec_first() == old(self).spec_first(),
            final(self).spec_closed(),
    {
        self.closed = true;
    }

    /// Subscribe: a new receiver sees every message published after this
    /// call, none before.
    pub fn subscribe(&self) -> (r: Receiver)
        requires
            self.wf(),
        ensures
            r.spec_cursor() == self.spec_next(),
    {
        proof {
            assert(self.first as nat + self.buffer@.len() <= u64::MAX);
        }
        Receiver { cursor: self.first + self.buffer.len() as u64 }
    }

    /// Receive the next message for `rc`.  A receiver that fell behind the
    /// retained window is told how much it lost and repositioned at the
    /// oldest retained message; otherwise it gets the next message, or
    /// `Empty`/`Closed` when it has caught up.
    pub fn recv(&self, rc: &mut Receiver) -> (r: Recv<T>)
        requires
            self.wf(),
            old(rc).spec_cursor() <= self.spec_next(),
        ensures
            final(rc).spec_cursor() <= self.spec_next(),
            old(rc).spec_cursor() < self.spec_first() ==> (r matches Recv::Lagged(n) && n
                == self.spec_first() - old(rc).spec_cursor() && final(rc).spec_cursor()
                == self.spec_first()),
            self.spec_first() <= old(rc).spec_cursor() < self.spec_next() ==> (r matches
                Recv::Message(m) && m@ == self.spec_history()[old(rc).spec_cursor() as int]
                && final(rc).spec_cursor() == old(rc).spec_cursor() + 1),
            old(rc).spec_cursor() == self.spec_next() ==> final(rc).spec_cursor() == old(
                rc,
            ).spec_cursor() && (if self.spec_closed() {
                r matches Recv::Closed
            } else {
                r matches Recv::Empty
            }),
    {
        if rc.cursor < self.first {
            let skipped = self.first - rc.cursor;
            rc.cursor = self.first;
            Recv::Lagged(skipped)
        } else {
            let offset = rc.cursor - self.first;
            proof {
                assert(offset as nat == rc.cursor as nat - self.first as nat);
            }
            if (offset as usize) < self.buffer.len() {
                let m = self.buffer[offset as usize].deep_copy();
                proof {
                    assert((rc.cursor as nat) < (self.first as nat) + self.buffer@.len());
                }
                rc.cursor = rc.cursor + 1;
                Recv::Message(m)
            } else {
                if self.closed {
                    Recv::Closed
                } else {
                    Recv::Empty
                }
            }
        }
    }
}

/// Lag behavior: when a producer has published `capacity + k` messages past
/// a receiver's cursor and the window is full, the receiver's next receive
/// necessarily reports a lag of exactly `k`, and repositions the receiver on
/// a message that is still retained, so that reading then resumes normally.
pub proof fn lemma_lag_behavior<T: DeepCopy>(b: Bus<T>, sub_cursor: nat, k: nat)
    requires
        b.wf(),
        k >= 1,
        b.spec_next() - b.spec_first() == b.spec_capacity(),
        b.spec_next() == sub_cursor + b.spec_capacity() + k,
    ensures
        sub_cursor < b.spec_first(),
        b.spec_first() - sub_cursor == k,
        b.spec_first() < b.spec_next(),
{
}

} // verus!
