//! Events raised in interrupt context and the bounded queue that carries
//! them to the main loop.

use vstd::prelude::*;

verus! {

/// A discrete event produced by an interrupt handler.
#[derive(Debug, Clone, Copy, PartialEq, Eq, Structural)]
pub enum InterruptEvent {
    /// Periodic heartbeat of the polling timer.
    Tick,
    /// The rotary encoder moved by this many detents.
    Encoder(i8),
    /// The button was released before the long-press threshold.
    ShortPress,
    /// The button has been held for the long-press threshold.
    LongPress,
    /// The real-time clock alarm fired.
    Alarm,
}

/// The queue contents after one more event arrives at a queue of capacity
/// `cap`: the event is appended, and the oldest one is dropped when the queue
/// was already full.
pub open spec fn put_spec(pending: Seq<InterruptEvent>, cap: nat, evt: InterruptEvent) -> Seq<
    InterruptEvent,
> {
    if pending.len() < cap {
        pending.push(evt)
    } else {
        pending.drop_first().push(evt)
    }
}

/// The queue contents after all of `events` arrived in order.
pub open spec fn put_all_spec(
    pending: Seq<InterruptEvent>,
    cap: nat,
    events: Seq<InterruptEvent>,
) -> Seq<InterruptEvent>
    decreases events.len(),
{
    if events.len() == 0 {
        pending
    } else {
        put_spec(put_all_spec(pending, cap, events.drop_last()), cap, events.last())
    }
}

/// The results of `n` successive takes from a queue holding `pending`.
pub open spec fn drain_spec(pending: Seq<InterruptEvent>, n: nat) -> Seq<Option<InterruptEvent>>
    decreases n,
{
    if n == 0 {
        Seq::empty()
    } else if pending.len() == 0 {
        seq![None].add(drain_spec(pending, (n - 1) as nat))
    } else {
        seq![Some(pending.first())].add(drain_spec(pending.drop_first(), (n - 1) as nat))
    }
}

/// The newest `cap` elements of `s`, or all of `s` when it has no more.
pub open spec fn newest(s: Seq<InterruptEvent>, cap: nat) -> Seq<InterruptEvent> {
    if s.len() <= cap {
        s
    } else {
        s.subrange(s.len() - cap, s.len() as int)
    }
}

/// Putting one event and then keeping the newest `cap` is the same as keeping
/// the newest `cap` and then putting the event.
proof fn lemma_newest_push(s: Seq<InterruptEvent>, cap: nat, evt: InterruptEvent)
    requires
        cap > 0,
    ensures
        newest(s.push(evt), cap) == put_spec(newest(s, cap), cap, evt),
{
    assert(newest(s.push(evt), cap) =~= put_spec(newest(s, cap), cap, evt));
}

/// After any run of puts the queue holds the newest `cap` of everything it
/// has held or been given, in arrival order.
pub proof fn lemma_put_all_keeps_newest(
    pending: Seq<InterruptEvent>,
    cap: nat,
    events: Seq<InterruptEvent>,
)
    requires
        cap > 0,
        pending.len() <= cap,
    ensures
        put_all_spec(pending, cap, events) == newest(pending + events, cap),
    decreases events.len(),
{
    if events.len() == 0 {
        assert(pending + events =~= pending);
    } else {
        lemma_put_all_keeps_newest(pending, cap, events.drop_last());
        lemma_newest_push(pending + events.drop_last(), cap, events.last());
        assert((pending + events.drop_last()).push(events.last()) =~= pending + events);
    }
}

/// Taking no more events than are pending returns them oldest first.
pub proof fn lemma_drain_in_order(pending: Seq<InterruptEvent>, n: nat)
    requires
        n <= pending.len(),
    ensures
        drain_spec(pending, n).len() == n,
        forall|i: int| 0 <= i < n ==> (#[trigger] drain_spec(pending, n)[i]) == Some(pending[i]),
    decreases n,
{
    if n > 0 {
        lemma_drain_in_order(pending.drop_first(), (n - 1) as nat);
        let rest = drain_spec(pending.drop_first(), (n - 1) as nat);
        assert forall|i: int| 0 <= i < n implies (#[trigger] drain_spec(pending, n)[i]) == Some(
            pending[i],
        ) by {
            if i > 0 {
                assert(drain_spec(pending, n)[i] == rest[i - 1]);
                assert(pending.drop_first()[i - 1] == pending[i]);
            }
        }
    }
}

/// Every take from an empty queue returns nothing.
pub proof fn lemma_drain_empty(n: nat)
    ensures
        drain_spec(Seq::empty(), n).len() == n,
        forall|i: int| 0 <= i < n ==> (#[trigger] drain_spec(Seq::empty(), n)[i]) is None,
    decreases n,
{
    if n > 0 {
        lemma_drain_empty((n - 1) as nat);
        let rest = drain_spec(Seq::empty(), (n - 1) as nat);
        assert forall|i: int| 0 <= i < n implies (#[trigger] drain_spec(Seq::empty(), n)[i])
            is None by {
            if i > 0 {
                assert(drain_spec(Seq::empty(), n)[i] == rest[i - 1]);
            }
        }
    }
}

/// First in, first out, with overwrite: when at least `cap` events are put
/// into an empty queue of capacity `cap`, the next `cap` takes return the
/// last `cap` of them, in the order in which they were put.
pub proof fn lemma_fifo_overwrite(cap: nat, events: Seq<InterruptEvent>)
    requires
        cap > 0,
        events.len() >= cap,
    ensures
        drain_spec(put_all_spec(Seq::empty(), cap, events), cap).len() == cap,
        forall|i: int|
            0 <= i < cap ==> (#[trigger] drain_spec(
                put_all_spec(Seq::empty(), cap, events),
                cap,
            )[i]) == Some(events[events.len() - cap + i]),
{
    let held = put_all_spec(Seq::empty(), cap, events);
    lemma_put_all_keeps_newest(Seq::empty(), cap, events);
    assert(Seq::<InterruptEvent>::empty() + events =~= events);
    assert(held == newest(events, cap));
    lemma_drain_in_order(held, cap);
}

/// Fixed-capacity ring buffer of events. A slot holds `Some` exactly while it
/// carries an event that was put and not yet taken.
pub struct EventQueue<const N: usize> {
    queue: [Option<InterruptEvent>; N],
    head: usize,
    tail: usize,
}

impl<const N: usize> EventQueue<N> {
    /// Distance from `head` to slot `j`, going forward round the ring.
    spec fn offset(self, j: int) -> int {
        if j >= self.head {
            j - self.head
        } else {
            j + N - self.head
        }
    }

    /// The slot that holds the `i`-th pending event.
    spec fn slot(self, i: int) -> int {
        if self.head + i < N {
            self.head + i
        } else {
            self.head + i - N
        }
    }

    /// Number of pending events.
    pub closed spec fn spec_count(self) -> nat {
        if self.head == self.tail {
            if self.queue[self.head as int] is Some {
                N as nat
            } else {
                0
            }
        } else if self.tail > self.head {
            (self.tail - self.head) as nat
        } else {
            (N - self.head + self.tail) as nat
        }
    }

    /// Well-formedness: the cursors are in range and exactly the slots from
    /// `head` up to `tail` are occupied.
    pub closed spec fn wf(self) -> bool {
        &&& N > 0
        &&& self.head < N
        &&& self.tail < N
        &&& forall|j: int|
            0 <= j < N ==> ((#[trigger] self.queue[j]) is Some <==> self.offset(j)
                < self.spec_count())
    }

    /// The pending events, oldest first.
    pub closed spec fn view(self) -> Seq<InterruptEvent> {
        Seq::new(self.spec_count(), |i: int| self.queue[self.slot(i)]->0)
    }

    /// A well-formed queue never holds more than `N` events.
    pub proof fn lemma_bounded(self)
        requires
            self.wf(),
        ensures
            self@.len() <= N,
            self@.len() == self.spec_count(),
    {
    }

    /// Creates an empty queue.
    pub fn new() -> (q: Self)
        requires
            N > 0,
        ensures
            q.wf(),
            q@ == Seq::<InterruptEvent>::empty(),
    {
        let q = EventQueue { queue: [None;N], head: 0, tail: 0 };
        assert(q@ =~= Seq::<InterruptEvent>::empty());
        q
    }

    /// Removes and returns the oldest pending event, or returns `None` and
    /// leaves the queue untouched when nothing is pending.
    pub fn take(&mut self) -> (r: Option<InterruptEvent>)
        requires
            old(self).wf(),
        ensures
            final(self).wf(),
            old(self)@.len() == 0 ==> r is None && *final(self) == *old(self),
            old(self)@.len() > 0 ==> r == Some(old(self)@.first()) && final(self)@ == old(
                self,
            )@.drop_first(),
    {
        let head = self.head;
        match self.queue[head] {
            None => None,
            Some(evt) => {
                self.queue[head] = None;
                self.head = if head + 1 >= N {
                    0
                } else {
                    head + 1
                };
                proof {
                    let pre = *old(self);
                    let post = *self;
                    assert(pre.offset(head as int) == 0);
                    assert(post.spec_count() == pre.spec_count() - 1);
                    assert forall|j: int| 0 <= j < N implies ((#[trigger] post.queue[j]) is Some
                        <==> post.offset(j) < post.spec_count()) by {
                        if j != head {
                            assert(post.queue[j] == pre.queue[j]);
                        }
                    }
                    assert forall|i: int| 0 <= i < post.spec_count() implies post.queue[post.slot(
                        i,
                    )] == pre.queue[pre.slot(i + 1)] by {
                        assert(post.slot(i) == pre.slot(i + 1));
                        assert(post.slot(i) != head);
                    }
                    assert(post@ =~= pre@.drop_first());
                }
                Some(evt)
            },
        }
    }

    /// Appends an event. A full queue drops its oldest event to make room.
    pub fn put(&mut self, evt: InterruptEvent)
        requires
            old(self).wf(),
        ensures
            final(self).wf(),
            final(self)@ == put_spec(old(self)@, N as nat, evt),
    {
        let tail = self.tail;
        let full = self.queue[tail].is_some();
        let next = if tail + 1 >= N {
            0
        } else {
            tail + 1
        };
        proof {
            let pre = *old(self);
            assert(pre.queue[tail as int] is Some <==> pre.offset(tail as int) < pre.spec_count());
            assert(full <==> pre.spec_count() == N);
            assert(full ==> pre.head == tail);
        }
        self.queue[tail] = Some(evt);
        self.tail = next;
        if full {
            self.head = next;
        }
        proof {
            let pre = *old(self);
            let post = *self;
            assert forall|j: int| 0 <= j < N implies ((#[trigger] post.queue[j]) is Some
                <==> post.offset(j) < post.spec_count()) by {
                if j != tail {
                    assert(post.queue[j] == pre.queue[j]);
                }
            }
            let want = put_spec(pre@, N as nat, evt);
            assert(post@.len() == want.len());
            assert forall|i: int| 0 <= i < post@.len() implies post@[i] == want[i] by {
                if full {
                    if i < N - 1 {
                        assert(post.slot(i) == pre.slot(i + 1));
                        assert(post.slot(i) != tail);
                        assert(post.queue[post.slot(i)] == pre.queue[pre.slot(i + 1)]);
                    } else {
                        assert(post.slot(i) == tail);
                    }
                } else {
                    if i < pre.spec_count() {
                        assert(post.slot(i) == pre.slot(i));
                        assert(post.slot(i) != tail);
                        assert(post.queue[post.slot(i)] == pre.queue[pre.slot(i)]);
                    } else {
                        assert(post.slot(i) == tail);
                    }
                }
            }
            assert(post@ =~= want);
        }
    }

    /// Number of pending events.
    pub fn count(&self) -> (n: usize)
        requires
            self.wf(),
        ensures
            n == self@.len(),
            n <= N,
    {
        if self.head == self.tail {
            if self.queue[self.head].is_some() {
                N
            } else {
                0
            }
        } else if self.tail > self.head {
            self.tail - self.head
        } else {
            N - self.head + self.tail
        }
    }
}

} // verus!
