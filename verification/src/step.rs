//! The decisions of the foreground loop: how one event changes the
//! application state, and when the loop ends.
//!
//! The loop itself lives with the terminal code: each iteration renders
//! a snapshot, pulls one event from the multiplexer, and calls [`step`].
//! Everything the loop decides is here and verified; the terminal work
//! around it carries no logic of its own.

use vstd::prelude::*;
use crate::event::{InputEvent, Key};
use crate::state::AppState;

verus! {

/// What the foreground loop does after handling one event.
#[derive(Clone, Copy, PartialEq, Eq, Structural, Debug)]
pub enum LoopControl {
    /// Keep running: render again and wait for the next event.
    Continue,
    /// The quit key was pressed: leave the loop and exit cleanly.
    Quit,
    /// The input source failed or closed: leave the loop with an error
    /// instead of blocking forever on a stream that can produce
    /// nothing more.
    Fatal,
}

/// The control decision for one event: the quit key ends the loop, a
/// closed input source ends it fatally, everything else continues.
pub open spec fn control_after(ev: InputEvent) -> LoopControl {
    match ev {
        InputEvent::KeyPress(Key::Char(c)) => if c == 'q' {
            LoopControl::Quit
        } else {
            LoopControl::Continue
        },
        InputEvent::KeyPress(_) => LoopControl::Continue,
        InputEvent::Tick => LoopControl::Continue,
        InputEvent::SourceClosed => LoopControl::Fatal,
    }
}

/// True of the events on which the loop stops; no event after such an
/// event can mutate the state.
pub open spec fn halts(ev: InputEvent) -> bool {
    control_after(ev) != LoopControl::Continue
}

/// The buffer after one event: a printable key appends, backspace
/// removes the last character, newline commits (clearing the buffer),
/// and every other event leaves the buffer alone.
pub open spec fn buffer_after(b: Seq<char>, ev: InputEvent) -> Seq<char> {
    match ev {
        InputEvent::KeyPress(Key::Char(c)) => if c == 'q' {
            b
        } else if c == '\n' {
            Seq::<char>::empty()
        } else {
            b.push(c)
        },
        InputEvent::KeyPress(Key::Backspace) => if b.len() == 0 {
            b
        } else {
            b.drop_last()
        },
        _ => b,
    }
}

/// The history after one event: only a newline key changes it, by
/// appending the whole pre-commit buffer as a new last entry.
pub open spec fn history_after(b: Seq<char>, h: Seq<Seq<char>>, ev: InputEvent) -> Seq<Seq<char>> {
    if ev == InputEvent::KeyPress(Key::Char('\n')) {
        h.push(b)
    } else {
        h
    }
}

/// Handles one event: updates the state exactly as [`buffer_after`] and
/// [`history_after`] say, and returns whether the loop goes on. On a
/// halting event (quit key, closed source) the state is untouched.
pub fn step(state: &mut AppState, ev: InputEvent) -> (c: LoopControl)
    ensures
        old(state).wf() ==> final(state).wf(),
        c == control_after(ev),
        final(state).buffer_view() == buffer_after(old(state).buffer_view(), ev),
        final(state).history_view() == history_after(
            old(state).buffer_view(),
            old(state).history_view(),
            ev,
        ),
{
    match ev {
        InputEvent::KeyPress(Key::Char(c)) => {
            if c == 'q' {
                LoopControl::Quit
            } else if c == '\n' {
                state.commit();
                LoopControl::Continue
            } else {
                state.push_char(c);
                LoopControl::Continue
            }
        },
        InputEvent::KeyPress(Key::Backspace) => {
            state.pop_char();
            LoopControl::Continue
        },
        InputEvent::KeyPress(Key::Other) => LoopControl::Continue,
        InputEvent::Tick => LoopControl::Continue,
        InputEvent::SourceClosed => LoopControl::Fatal,
    }
}

/// The state `(buffer, history)` after the loop has consumed `evs` in
/// order, stopping at the first halting event: events after a halt
/// change nothing.
pub open spec fn run_state(b: Seq<char>, h: Seq<Seq<char>>, evs: Seq<InputEvent>) -> (
    Seq<char>,
    Seq<Seq<char>>,
)
    decreases evs.len(),
{
    if evs.len() == 0 || halts(evs[0]) {
        (b, h)
    } else {
        run_state(buffer_after(b, evs[0]), history_after(b, h, evs[0]), evs.drop_first())
    }
}

/// The control the loop ends with after consuming `evs` in order:
/// the decision of the first halting event, or `Continue` when the
/// stream runs out first.
pub open spec fn run_control(evs: Seq<InputEvent>) -> LoopControl
    decreases evs.len(),
{
    if evs.len() == 0 {
        LoopControl::Continue
    } else if halts(evs[0]) {
        control_after(evs[0])
    } else {
        run_control(evs.drop_first())
    }
}

/// Consumes the events in order, handling each with [`step`], until a
/// halting event or the end of the list; returns the loop's final
/// control decision.
#[verifier::loop_isolation(false)]
pub fn process_events(state: &mut AppState, events: &Vec<InputEvent>) -> (c: LoopControl)
    ensures
        old(state).wf() ==> final(state).wf(),
        c == run_control(events@),
        (final(state).buffer_view(), final(state).history_view()) == run_state(
            old(state).buffer_view(),
            old(state).history_view(),
            events@,
        ),
{
    let ghost b0 = state.buffer_view();
    let ghost h0 = state.history_view();
    proof {
        assert(events@.skip(0) =~= events@);
    }
    let mut i: usize = 0;
    while i < events.len()
        invariant
            i <= events@.len(),
            old(state).wf() ==> state.wf(),
            run_state(b0, h0, events@) == run_state(
                state.buffer_view(),
                state.history_view(),
                events@.skip(i as int),
            ),
            run_control(events@) == run_control(events@.skip(i as int)),
        decreases events@.len() - i,
    {
        proof {
            assert(events@.skip(i as int)[0] == events@[i as int]);
            assert(events@.skip(i as int).drop_first() =~= events@.skip(i + 1));
        }
        let ghost pb = state.buffer_view();
        let ghost ph = state.history_view();
        let c = step(state, events[i]);
        let halted = match c {
            LoopControl::Continue => false,
            _ => true,
        };
        if halted {
            proof {
                assert(halts(events@[i as int]));
                assert(state.buffer_view() == pb);
                assert(state.history_view() == ph);
                assert(run_state(pb, ph, events@.skip(i as int)) == (pb, ph));
                assert((state.buffer_view(), state.history_view()) == run_state(b0, h0, events@));
            }
            return c;
        }
        i = i + 1;
    }
    proof {
        assert(events@.skip(events@.len() as int) =~= Seq::<InputEvent>::empty());
    }
    LoopControl::Continue
}

/// Once the quit key arrives, the loop stops there: whatever the
/// buffer and history hold, and whatever events follow, the state the
/// loop ends with is the state just before the quit event, and the
/// loop's decision is to quit.
pub proof fn lemma_quit_stops_processing(
    b: Seq<char>,
    h: Seq<Seq<char>>,
    evs: Seq<InputEvent>,
    i: int,
)
    requires
        0 <= i < evs.len(),
        evs[i] == InputEvent::KeyPress(Key::Char('q')),
        forall|j: int| 0 <= j < i ==> !halts(evs[j]),
    ensures
        run_state(b, h, evs) == run_state(b, h, evs.take(i)),
        run_control(evs) == LoopControl::Quit,
    decreases i,
{
    if i == 0 {
        assert(halts(evs[0]));
        assert(run_state(b, h, evs) == (b, h));
        assert(run_state(b, h, evs.take(0)) == (b, h));
    } else {
        assert(!halts(evs[0]));
        let b1 = buffer_after(b, evs[0]);
        let h1 = history_after(b, h, evs[0]);
        assert(evs.drop_first()[i - 1] == evs[i]);
        assert(forall|j: int| 0 <= j < i - 1 ==> evs.drop_first()[j] == evs[j + 1]);
        lemma_quit_stops_processing(b1, h1, evs.drop_first(), i - 1);
        assert(evs.take(i)[0] == evs[0]);
        assert(evs.take(i).drop_first() =~= evs.drop_first().take(i - 1));
        assert(run_state(b, h, evs.take(i)) == run_state(b1, h1, evs.drop_first().take(i - 1)));
    }
}

} // verus!
