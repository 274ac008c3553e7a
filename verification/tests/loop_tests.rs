use input_history::event::{InputEvent, Key};
use input_history::state::AppState;
use input_history::step::{process_events, step, LoopControl};

fn key(c: char) -> InputEvent {
    InputEvent::KeyPress(Key::Char(c))
}

#[test]
fn quit_key_terminates_without_mutation() {
    let mut app = AppState::new();
    app.push_char('a');
    app.push_char('b');
    app.commit();
    app.push_char('c');
    let c = step(&mut app, key('q'));
    assert_eq!(c, LoopControl::Quit);
    let snap = app.snapshot();
    assert_eq!(snap.buffer, vec!['c']);
    assert_eq!(snap.history, vec![vec!['a', 'b']]);
}

#[test]
fn quit_key_terminates_on_empty_state_too() {
    let mut app = AppState::new();
    let c = step(&mut app, key('q'));
    assert_eq!(c, LoopControl::Quit);
    assert!(app.snapshot().buffer.is_empty());
    assert!(app.snapshot().history.is_empty());
}

#[test]
fn character_key_pushes() {
    let mut app = AppState::new();
    assert_eq!(step(&mut app, key('h')), LoopControl::Continue);
    assert_eq!(step(&mut app, key('i')), LoopControl::Continue);
    assert_eq!(app.snapshot().buffer, vec!['h', 'i']);
}

#[test]
fn newline_key_commits() {
    let mut app = AppState::new();
    step(&mut app, key('h'));
    step(&mut app, key('i'));
    assert_eq!(step(&mut app, key('\n')), LoopControl::Continue);
    let snap = app.snapshot();
    assert!(snap.buffer.is_empty());
    assert_eq!(snap.history, vec![vec!['h', 'i']]);
}

#[test]
fn backspace_key_pops() {
    let mut app = AppState::new();
    step(&mut app, key('h'));
    step(&mut app, key('i'));
    assert_eq!(step(&mut app, InputEvent::KeyPress(Key::Backspace)), LoopControl::Continue);
    assert_eq!(app.snapshot().buffer, vec!['h']);
}

#[test]
fn tick_and_unrecognized_key_mutate_nothing() {
    let mut app = AppState::new();
    step(&mut app, key('h'));
    assert_eq!(step(&mut app, InputEvent::Tick), LoopControl::Continue);
    assert_eq!(step(&mut app, InputEvent::KeyPress(Key::Other)), LoopControl::Continue);
    let snap = app.snapshot();
    assert_eq!(snap.buffer, vec!['h']);
    assert!(snap.history.is_empty());
}

#[test]
fn closed_source_is_fatal_and_mutates_nothing() {
    let mut app = AppState::new();
    step(&mut app, key('h'));
    let c = step(&mut app, InputEvent::SourceClosed);
    assert_eq!(c, LoopControl::Fatal);
    assert_eq!(app.snapshot().buffer, vec!['h']);
}

#[test]
fn process_events_stops_at_quit() {
    let mut app = AppState::new();
    let events = vec![
        key('h'),
        key('i'),
        InputEvent::Tick,
        key('q'),
        key('z'),
    ];
    let c = process_events(&mut app, &events);
    assert_eq!(c, LoopControl::Quit);
    let snap = app.snapshot();
    assert_eq!(snap.buffer, vec!['h', 'i']);
    assert!(snap.history.is_empty());
}

#[test]
fn process_events_continues_when_stream_runs_out() {
    let mut app = AppState::new();
    let events = vec![key('a'), key('\n'), key('b')];
    let c = process_events(&mut app, &events);
    assert_eq!(c, LoopControl::Continue);
    let snap = app.snapshot();
    assert_eq!(snap.buffer, vec!['b']);
    assert_eq!(snap.history, vec![vec!['a']]);
}

#[test]
fn process_events_stops_fatally_at_closed_source() {
    let mut app = AppState::new();
    let events = vec![key('a'), InputEvent::SourceClosed, key('b')];
    let c = process_events(&mut app, &events);
    assert_eq!(c, LoopControl::Fatal);
    assert_eq!(app.snapshot().buffer, vec!['a']);
}
