use input_history::event::{InputEvent, Key};
use input_history::mux::{count_key_presses, EventQueue};

fn key(c: char) -> InputEvent {
    InputEvent::KeyPress(Key::Char(c))
}

#[test]
fn events_delivered_in_arrival_order() {
    let mut q = EventQueue::new();
    let produced = vec![
        InputEvent::Tick,
        key('a'),
        key('b'),
        InputEvent::Tick,
        key('c'),
    ];
    for ev in &produced {
        q.produce(*ev);
    }
    for ev in &produced {
        assert_eq!(q.next(), Some(*ev));
    }
    assert_eq!(q.next(), None);
}

#[test]
fn next_on_empty_queue_returns_none() {
    let mut q = EventQueue::new();
    assert_eq!(q.next(), None);
    assert_eq!(q.len(), 0);
}

#[test]
fn drain_returns_pending_events_in_order() {
    let mut q = EventQueue::new();
    q.produce(key('x'));
    q.produce(InputEvent::Tick);
    q.produce(key('y'));
    let out = q.drain();
    assert_eq!(out, vec![key('x'), InputEvent::Tick, key('y')]);
    assert_eq!(q.len(), 0);
}

#[test]
fn thousand_key_presses_are_conserved() {
    let mut q = EventQueue::new();
    let mut ticks = 0usize;
    for i in 0..1000usize {
        // A tick fires between every tenth pair of key presses, as a
        // periodic timer would under rapid typing.
        if i % 10 == 0 {
            q.produce(InputEvent::Tick);
            ticks += 1;
        }
        q.produce(key('k'));
    }
    assert_eq!(q.len(), 1000 + ticks);
    let out = q.drain();
    assert_eq!(out.len(), 1000 + ticks);
    assert_eq!(count_key_presses(&out), 1000);
}

#[test]
fn count_key_presses_ignores_ticks_and_closure() {
    let events = vec![
        InputEvent::Tick,
        key('a'),
        InputEvent::SourceClosed,
        InputEvent::KeyPress(Key::Backspace),
        InputEvent::Tick,
    ];
    assert_eq!(count_key_presses(&events), 2);
}

#[test]
fn len_tracks_produced_and_consumed() {
    let mut q = EventQueue::new();
    q.produce(InputEvent::Tick);
    q.produce(key('a'));
    assert_eq!(q.len(), 2);
    let first = q.next();
    assert_eq!(first, Some(InputEvent::Tick));
    assert_eq!(q.len(), 1);
}
