//! The event multiplexer: one ordered first-in-first-out stream into
//! which both producers (keyboard and timer) feed, and from which the
//! foreground loop consumes one event per iteration.
//!
//! The merged stream is an interleaving of the two producers' own
//! streams: [`is_interleaving`] says what that means, and the lemmas
//! below prove that merging loses nothing, duplicates nothing, and
//! keeps each producer's events in their own order.

use vstd::prelude::*;
use std::collections::VecDeque;
use crate::event::InputEvent;

verus! {

/// The ordered channel between the producers and the foreground loop.
/// Events are delivered oldest first, exactly once each.
pub struct EventQueue {
    events: VecDeque<InputEvent>,
}

impl View for EventQueue {
    type V = Seq<InputEvent>;

    /// The pending events, oldest first.
    closed spec fn view(&self) -> Seq<InputEvent> {
        self.events@
    }
}

impl EventQueue {
    /// Creates an empty queue.
    pub fn new() -> (q: EventQueue)
        ensures
            q@ == Seq::<InputEvent>::empty(),
    {
        EventQueue { events: VecDeque::new() }
    }

    /// A producer appends one event at the back of the stream.
    pub fn produce(&mut self, ev: InputEvent)
        ensures
            final(self)@ == old(self)@.push(ev),
    {
        self.events.push_back(ev);
    }

    /// The consumer takes the oldest pending event, or `None` when the
    /// queue is empty. No event is lost, duplicated or reordered.
    pub fn next(&mut self) -> (r: Option<InputEvent>)
        ensures
            match r {
                Some(ev) => old(self)@.len() > 0 && ev == old(self)@[0] && final(self)@ == old(
                    self,
                )@.drop_first(),
                None => old(self)@.len() == 0 && final(self)@ == old(self)@,
            },
    {
        self.events.pop_front()
    }

    /// How many events are pending.
    pub fn len(&self) -> (n: usize)
        ensures
            n == self@.len(),
    {
        self.events.len()
    }

    /// Empties the queue, returning every pending event in delivery
    /// order: the exact pending stream, nothing lost, nothing added.
    pub fn drain(&mut self) -> (out: Vec<InputEvent>)
        ensures
            out@ == old(self)@,
            final(self)@.len() == 0,
    {
        let ghost pending = self.events@;
        let mut out: Vec<InputEvent> = Vec::new();
        while self.events.len() > 0
            invariant
                pending =~= out@ + self.events@,
            decreases self.events@.len(),
        {
            match self.events.pop_front() {
                Some(ev) => {
                    out.push(ev);
                    proof {
                        assert(pending =~= out@ + self.events@);
                    }
                },
                None => {},
            }
        }
        proof {
            assert(out@ =~= pending);
        }
        out
    }
}

/// The key-press events of `s`, in their order in `s`.
pub open spec fn key_presses_of(s: Seq<InputEvent>) -> Seq<InputEvent>
    decreases s.len(),
{
    if s.len() == 0 {
        s
    } else {
        let rest = key_presses_of(s.drop_last());
        if s.last().is_key_press() {
            rest.push(s.last())
        } else {
            rest
        }
    }
}

/// The tick events of `s`, in their order in `s`.
pub open spec fn ticks_of(s: Seq<InputEvent>) -> Seq<InputEvent>
    decreases s.len(),
{
    if s.len() == 0 {
        s
    } else {
        let rest = ticks_of(s.drop_last());
        if s.last().is_tick() {
            rest.push(s.last())
        } else {
            rest
        }
    }
}

/// `m` is a merge of the streams `a` and `b`: every event of `m` comes
/// from exactly one of the two, all of both are present, and each
/// stream's events keep their own relative order.
pub open spec fn is_interleaving(
    m: Seq<InputEvent>,
    a: Seq<InputEvent>,
    b: Seq<InputEvent>,
) -> bool
    decreases m.len(),
{
    if m.len() == 0 {
        a.len() == 0 && b.len() == 0
    } else {
        ||| (a.len() > 0 && m.last() == a.last() && is_interleaving(m.drop_last(), a.drop_last(), b))
        ||| (b.len() > 0 && m.last() == b.last() && is_interleaving(m.drop_last(), a, b.drop_last()))
    }
}

/// Before anything is produced, the merge of two empty streams is the
/// empty stream.
pub proof fn lemma_interleaving_empty()
    ensures
        is_interleaving(
            Seq::<InputEvent>::empty(),
            Seq::<InputEvent>::empty(),
            Seq::<InputEvent>::empty(),
        ),
{
}

/// An arrival from the first producer extends a merge: the queue built
/// by appending each event as it arrives stays an interleaving of the
/// two producers' streams.
pub proof fn lemma_interleaving_extend_first(
    m: Seq<InputEvent>,
    a: Seq<InputEvent>,
    b: Seq<InputEvent>,
    ev: InputEvent,
)
    requires
        is_interleaving(m, a, b),
    ensures
        is_interleaving(m.push(ev), a.push(ev), b),
{
    assert(m.push(ev).drop_last() =~= m);
    assert(a.push(ev).drop_last() =~= a);
}

/// An arrival from the second producer extends a merge, as
/// [`lemma_interleaving_extend_first`] does for the first.
pub proof fn lemma_interleaving_extend_second(
    m: Seq<InputEvent>,
    a: Seq<InputEvent>,
    b: Seq<InputEvent>,
    ev: InputEvent,
)
    requires
        is_interleaving(m, a, b),
    ensures
        is_interleaving(m.push(ev), a, b.push(ev)),
{
    assert(m.push(ev).drop_last() =~= m);
    assert(b.push(ev).drop_last() =~= b);
}

/// Merging conserves the total event count: nothing is lost and
/// nothing is duplicated.
pub proof fn lemma_interleaving_conserves_count(
    m: Seq<InputEvent>,
    a: Seq<InputEvent>,
    b: Seq<InputEvent>,
)
    requires
        is_interleaving(m, a, b),
    ensures
        m.len() == a.len() + b.len(),
    decreases m.len(),
{
    if m.len() == 0 {
    } else if a.len() > 0 && m.last() == a.last() && is_interleaving(
        m.drop_last(),
        a.drop_last(),
        b,
    ) {
        lemma_interleaving_conserves_count(m.drop_last(), a.drop_last(), b);
    } else {
        lemma_interleaving_conserves_count(m.drop_last(), a, b.drop_last());
    }
}

/// When a keyboard stream `a` and a timer stream `b` are merged, the
/// key presses of the merge are exactly `a` and the ticks are exactly
/// `b`: no loss, no duplication, no reordering within either
/// producer's stream.
pub proof fn lemma_interleaving_preserves_streams(
    m: Seq<InputEvent>,
    a: Seq<InputEvent>,
    b: Seq<InputEvent>,
)
    requires
        is_interleaving(m, a, b),
        forall|i: int| 0 <= i < a.len() ==> a[i].is_key_press(),
        forall|i: int| 0 <= i < b.len() ==> b[i].is_tick(),
    ensures
        key_presses_of(m) == a,
        ticks_of(m) == b,
    decreases m.len(),
{
    if m.len() == 0 {
        assert(key_presses_of(m) =~= a);
        assert(ticks_of(m) =~= b);
    } else if a.len() > 0 && m.last() == a.last() && is_interleaving(
        m.drop_last(),
        a.drop_last(),
        b,
    ) {
        lemma_interleaving_preserves_streams(m.drop_last(), a.drop_last(), b);
        assert(m.last().is_key_press() && !m.last().is_tick());
        assert(key_presses_of(m) =~= a.drop_last().push(a.last()));
        assert(a.drop_last().push(a.last()) =~= a);
        assert(ticks_of(m) == b);
    } else {
        lemma_interleaving_preserves_streams(m.drop_last(), a, b.drop_last());
        assert(m.last().is_tick() && !m.last().is_key_press());
        assert(ticks_of(m) =~= b.drop_last().push(b.last()));
        assert(b.drop_last().push(b.last()) =~= b);
        assert(key_presses_of(m) == a);
    }
}

/// Counts the key-press events of `events`.
pub fn count_key_presses(events: &Vec<InputEvent>) -> (n: usize)
    ensures
        n == key_presses_of(events@).len(),
{
    let mut n: usize = 0;
    let mut i: usize = 0;
    while i < events.len()
        invariant
            i <= events@.len(),
            n <= i,
            n == key_presses_of(events@.take(i as int)).len(),
        decreases events@.len() - i,
    {
        let is_kp = match events[i] {
            InputEvent::KeyPress(_) => true,
            _ => false,
        };
        proof {
            assert(events@.take(i + 1).drop_last() =~= events@.take(i as int));
            assert(events@.take(i + 1).last() == events@[i as int]);
            assert(is_kp == events@[i as int].is_key_press());
            if events@[i as int].is_key_press() {
                assert(key_presses_of(events@.take(i + 1)) == key_presses_of(
                    events@.take(i as int),
                ).push(events@[i as int]));
            } else {
                assert(key_presses_of(events@.take(i + 1)) == key_presses_of(
                    events@.take(i as int),
                ));
            }
        }
        if is_kp {
            n = n + 1;
        }
        i = i + 1;
    }
    proof {
        assert(events@.take(events@.len() as int) =~= events@);
    }
    n
}

} // verus!
