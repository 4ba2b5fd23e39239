use midi_keys::dispatch::{play_event, release_all, send_event};
use midi_keys::keys::{Action, KeyStates, SETTLE_MICROS};
use midi_keys::score::Event;

fn note_on(pitch: u8) -> Event {
    Event::NoteOn { pitch, velocity: 64 }
}

fn note_off(pitch: u8) -> Event {
    Event::NoteOff { pitch }
}

#[test]
fn settle_time_is_twelve_milliseconds() {
    assert_eq!(SETTLE_MICROS, 12_000);
}

#[test]
fn send_event_presses_when_down() {
    assert_eq!(send_event('t', true), Action::PressKey { key: 't' });
}

#[test]
fn send_event_releases_when_up() {
    assert_eq!(send_event('t', false), Action::ReleaseKey { key: 't' });
}

#[test]
fn toggle_twice_presses_then_releases() {
    let mut keys = KeyStates::new();
    let mut shift = false;
    let first = play_event(note_on(60), &mut keys, true, &mut shift);
    assert_eq!(first, vec![Action::PressKey { key: 't' }]);
    assert!(keys.is_held('t'));
    let second = play_event(note_on(60), &mut keys, true, &mut shift);
    assert_eq!(second, vec![Action::ReleaseKey { key: 't' }]);
    assert!(!keys.is_held('t'));
    assert_eq!(keys.held_count(), 0);
    assert!(!shift);
}

#[test]
fn toggle_three_times_presses_again() {
    let mut keys = KeyStates::new();
    let mut shift = false;
    play_event(note_on(60), &mut keys, true, &mut shift);
    play_event(note_on(60), &mut keys, true, &mut shift);
    let third = play_event(note_on(60), &mut keys, true, &mut shift);
    assert_eq!(third, vec![Action::PressKey { key: 't' }]);
    assert_eq!(keys.held_count(), 1);
}

#[test]
fn toggle_tracks_each_key_on_its_own() {
    let mut keys = KeyStates::new();
    let mut shift = false;
    let first = play_event(note_on(60), &mut keys, true, &mut shift);
    let second = play_event(note_on(62), &mut keys, true, &mut shift);
    assert_eq!(first, vec![Action::PressKey { key: 't' }]);
    assert_eq!(second, vec![Action::PressKey { key: 'y' }]);
    assert!(keys.is_held('t'));
    assert!(keys.is_held('y'));
    assert_eq!(keys.held_count(), 2);
}

#[test]
fn unmapped_note_on_plays_nothing() {
    for toggle in [true, false] {
        for pitch in [0u8, 35, 97, 127, 200] {
            let mut keys = KeyStates::new();
            let mut shift = true;
            let actions = play_event(note_on(pitch), &mut keys, toggle, &mut shift);
            assert!(actions.is_empty());
            assert_eq!(keys.held_count(), 0);
            assert!(shift);
        }
    }
}

#[test]
fn unmapped_note_off_plays_nothing() {
    let mut keys = KeyStates::new();
    let mut shift = false;
    play_event(note_on(60), &mut keys, false, &mut shift);
    let actions = play_event(note_off(97), &mut keys, false, &mut shift);
    assert!(actions.is_empty());
    assert_eq!(keys.held_count(), 1);
    assert!(!shift);
}

#[test]
fn other_events_play_nothing() {
    let mut keys = KeyStates::new();
    let mut shift = true;
    play_event(note_on(61), &mut keys, true, &mut shift);
    let other = play_event(Event::Other, &mut keys, true, &mut shift);
    let tempo = play_event(Event::TempoChange { micros_per_beat: 400_000 }, &mut keys, true, &mut shift);
    assert!(other.is_empty());
    assert!(tempo.is_empty());
    assert_eq!(keys.held_count(), 1);
    assert!(shift);
}

#[test]
fn shifted_key_presses_the_modifier_first() {
    let mut keys = KeyStates::new();
    let mut shift = false;
    let actions = play_event(note_on(54), &mut keys, true, &mut shift);
    assert_eq!(
        actions,
        vec![
            Action::Wait { micros: 12_000 },
            Action::PressModifier,
            Action::PressKey { key: 'Q' },
        ]
    );
    assert!(shift);
    assert!(keys.is_held('Q'));
}

#[test]
fn shifted_symbol_presses_the_modifier_first() {
    let mut keys = KeyStates::new();
    let mut shift = false;
    let actions = play_event(note_on(37), &mut keys, false, &mut shift);
    assert_eq!(
        actions,
        vec![
            Action::Wait { micros: 12_000 },
            Action::PressModifier,
            Action::PressKey { key: '!' },
        ]
    );
    assert!(shift);
}

#[test]
fn shifted_key_with_modifier_held_only_presses() {
    let mut keys = KeyStates::new();
    let mut shift = true;
    let actions = play_event(note_on(56), &mut keys, true, &mut shift);
    assert_eq!(actions, vec![Action::PressKey { key: 'W' }]);
    assert!(shift);
}

#[test]
fn plain_key_releases_the_modifier_first() {
    let mut keys = KeyStates::new();
    let mut shift = true;
    let actions = play_event(note_on(53), &mut keys, true, &mut shift);
    assert_eq!(
        actions,
        vec![
            Action::Wait { micros: 12_000 },
            Action::ReleaseModifier,
            Action::PressKey { key: 'q' },
        ]
    );
    assert!(!shift);
}

#[test]
fn toggling_a_shifted_key_off_keeps_the_modifier() {
    let mut keys = KeyStates::new();
    let mut shift = false;
    play_event(note_on(54), &mut keys, true, &mut shift);
    let off = play_event(note_on(54), &mut keys, true, &mut shift);
    assert_eq!(off, vec![Action::ReleaseKey { key: 'Q' }]);
    assert!(shift);
    let rest = release_all(&mut keys, &mut shift);
    assert_eq!(rest, vec![Action::ReleaseModifier]);
    assert!(!shift);
}

#[test]
fn modifier_is_released_after_the_shifted_key() {
    let mut keys = KeyStates::new();
    let mut shift = false;
    let mut all = play_event(note_on(54), &mut keys, false, &mut shift);
    all.extend(play_event(note_off(54), &mut keys, false, &mut shift));
    all.extend(play_event(note_on(53), &mut keys, false, &mut shift));
    assert_eq!(
        all,
        vec![
            Action::Wait { micros: 12_000 },
            Action::PressModifier,
            Action::PressKey { key: 'Q' },
            Action::ReleaseKey { key: 'Q' },
            Action::Wait { micros: 12_000 },
            Action::ReleaseModifier,
            Action::PressKey { key: 'q' },
        ]
    );
}

#[test]
fn paired_note_on_presses_and_note_off_releases() {
    let mut keys = KeyStates::new();
    let mut shift = false;
    let on = play_event(note_on(60), &mut keys, false, &mut shift);
    assert_eq!(on, vec![Action::PressKey { key: 't' }]);
    assert!(keys.is_held('t'));
    let off = play_event(note_off(60), &mut keys, false, &mut shift);
    assert_eq!(off, vec![Action::ReleaseKey { key: 't' }]);
    assert!(!keys.is_held('t'));
}

#[test]
fn paired_note_on_while_held_presses_again() {
    let mut keys = KeyStates::new();
    let mut shift = false;
    play_event(note_on(60), &mut keys, false, &mut shift);
    let again = play_event(note_on(60), &mut keys, false, &mut shift);
    assert_eq!(again, vec![Action::PressKey { key: 't' }]);
    assert_eq!(keys.held_count(), 1);
}

#[test]
fn note_off_while_released_releases_again() {
    let mut keys = KeyStates::new();
    let mut shift = false;
    let off = play_event(note_off(60), &mut keys, false, &mut shift);
    assert_eq!(off, vec![Action::ReleaseKey { key: 't' }]);
    assert_eq!(keys.held_count(), 0);
}

#[test]
fn note_off_leaves_the_modifier_alone() {
    let mut keys = KeyStates::new();
    let mut shift = false;
    play_event(note_on(54), &mut keys, false, &mut shift);
    let off = play_event(note_off(54), &mut keys, false, &mut shift);
    assert_eq!(off, vec![Action::ReleaseKey { key: 'Q' }]);
    assert!(shift);
}

#[test]
fn release_all_releases_keys_in_press_order_then_modifier() {
    let mut keys = KeyStates::new();
    let mut shift = false;
    play_event(note_on(56), &mut keys, true, &mut shift);
    play_event(note_on(54), &mut keys, true, &mut shift);
    play_event(note_on(58), &mut keys, true, &mut shift);
    let actions = release_all(&mut keys, &mut shift);
    assert_eq!(
        actions,
        vec![
            Action::ReleaseKey { key: 'W' },
            Action::ReleaseKey { key: 'Q' },
            Action::ReleaseKey { key: 'E' },
            Action::ReleaseModifier,
        ]
    );
    assert_eq!(keys.held_count(), 0);
    assert!(!shift);
}

#[test]
fn release_all_with_nothing_held_does_nothing() {
    let mut keys = KeyStates::new();
    let mut shift = false;
    let actions = release_all(&mut keys, &mut shift);
    assert!(actions.is_empty());
    assert!(!shift);
}

#[test]
fn key_states_hold_each_key_once() {
    let mut keys = KeyStates::new();
    keys.hold('a');
    keys.hold('b');
    keys.hold('a');
    assert_eq!(keys.held_count(), 2);
    keys.let_go('a');
    assert!(!keys.is_held('a'));
    assert!(keys.is_held('b'));
    keys.let_go('a');
    assert_eq!(keys.held_count(), 1);
    assert_eq!(keys.let_go_all(), vec!['b']);
    assert_eq!(keys.held_count(), 0);
}
