//! What one event does: which keys it presses or releases, and how the
//! shift modifier is moved out of the way first.

use vstd::prelude::*;
use crate::keymap::{key_for_pitch, mapped_key, needs_shift, requires_shift};
use crate::keys::{
    held_with, held_without, lemma_held_with_distinct, lemma_held_without_distinct, Action,
    KeyStates, SETTLE_MICROS,
};
use crate::score::Event;

verus! {

/// The action that moves an emulated key: a press if `down`, else a release.
pub open spec fn key_action(key: char, down: bool) -> Action {
    if down {
        Action::PressKey { key }
    } else {
        Action::ReleaseKey { key }
    }
}

/// What has to happen to the shift modifier before `key` moves: nothing if
/// it is held exactly when `key` needs it; else the settle time passes and
/// the modifier changes.
pub open spec fn modifier_actions(key: char, shift: bool) -> Seq<Action> {
    if needs_shift(key) && !shift {
        seq![Action::Wait { micros: SETTLE_MICROS }, Action::PressModifier]
    } else if !needs_shift(key) && shift {
        seq![Action::Wait { micros: SETTLE_MICROS }, Action::ReleaseModifier]
    } else {
        Seq::empty()
    }
}

/// The key that an event moves: that of its pitch for the start or the end
/// of a note on a pitch that the layout maps, none for any other event.
pub open spec fn note_key(event: Event) -> Option<char> {
    match event {
        Event::NoteOn { pitch, velocity } => mapped_key(pitch),
        Event::NoteOff { pitch } => mapped_key(pitch),
        _ => None,
    }
}

/// Whether an event presses `key`, the key that it moves: the end of a note
/// never does; the start of a note does, but in a toggling score with the
/// key held, where it releases the key.
pub open spec fn presses(event: Event, key: char, held: Seq<char>, toggle: bool) -> bool {
    event is NoteOn && !(toggle && held.contains(key))
}

/// The actions that an event asks for, in order, with `held` the keys held
/// and `shift` the state of the modifier before it.
///
/// An event that moves no key asks for nothing. The start of a note first
/// moves the modifier to where its key needs it, then presses the key, or
/// releases it where a toggling score has it held. The end of a note only
/// releases its key.
pub open spec fn event_actions(event: Event, held: Seq<char>, toggle: bool, shift: bool) -> Seq<
    Action,
> {
    match note_key(event) {
        Some(key) => if event is NoteOn {
            modifier_actions(key, shift).push(key_action(key, presses(event, key, held, toggle)))
        } else {
            seq![key_action(key, false)]
        },
        None => Seq::empty(),
    }
}

/// The keys held after an event.
pub open spec fn held_after(event: Event, held: Seq<char>, toggle: bool) -> Seq<char> {
    match note_key(event) {
        Some(key) => if presses(event, key, held, toggle) {
            held_with(held, key)
        } else {
            held_without(held, key)
        },
        None => held,
    }
}

/// Whether the modifier is held after an event: the start of a note leaves
/// it as its key needs it, nothing else touches it.
pub open spec fn shift_after(event: Event, shift: bool) -> bool {
    match note_key(event) {
        Some(key) => if event is NoteOn {
            needs_shift(key)
        } else {
            shift
        },
        None => shift,
    }
}

/// The releases of the given keys, in their order.
pub open spec fn key_releases(held: Seq<char>) -> Seq<Action> {
    Seq::new(held.len(), |i: int| key_action(held[i], false))
}

/// The actions that release everything: each held key, first pressed first,
/// then the modifier if it is held.
pub open spec fn release_actions(held: Seq<char>, shift: bool) -> Seq<Action> {
    if shift {
        key_releases(held).push(Action::ReleaseModifier)
    } else {
        key_releases(held)
    }
}

/// The action that presses (`down`) or releases an emulated key.
pub fn send_event(key: char, down: bool) -> (action: Action)
    ensures
        action == key_action(key, down),
{
    if down {
        Action::PressKey { key }
    } else {
        Action::ReleaseKey { key }
    }
}

/// Plays one event: updates the held keys and the modifier, and returns the
/// actions to perform, in order. An event that moves no key, such as a note
/// on a pitch that the layout does not map, asks for nothing and changes
/// nothing.
pub fn play_event(event: Event, keys: &mut KeyStates, toggle: bool, shift: &mut bool) -> (actions:
    Vec<Action>)
    requires
        old(keys).wf(),
    ensures
        final(keys).wf(),
        actions@ == event_actions(event, old(keys)@, toggle, *old(shift)),
        final(keys)@ == held_after(event, old(keys)@, toggle),
        *final(shift) == shift_after(event, *old(shift)),
        note_key(event) is None ==> {
            &&& actions@.len() == 0
            &&& final(keys)@ == old(keys)@
            &&& *final(shift) == *old(shift)
        },
{
    let mut actions: Vec<Action> = Vec::new();
    match event {
        Event::NoteOn { pitch, .. } => {
            if let Some(key) = key_for_pitch(pitch) {
                let up = requires_shift(key);
                if up && !*shift {
                    actions.push(Action::Wait { micros: SETTLE_MICROS });
                    actions.push(Action::PressModifier);
                    *shift = true;
                } else if !up && *shift {
                    actions.push(Action::Wait { micros: SETTLE_MICROS });
                    actions.push(Action::ReleaseModifier);
                    *shift = false;
                }
                if toggle && keys.is_held(key) {
                    keys.let_go(key);
                    actions.push(send_event(key, false));
                } else {
                    keys.hold(key);
                    actions.push(send_event(key, true));
                }
            }
        },
        Event::NoteOff { pitch } => {
            if let Some(key) = key_for_pitch(pitch) {
                keys.let_go(key);
                actions.push(send_event(key, false));
            }
        },
        _ => {},
    }
    actions
}

/// Releases everything: marks every key and the modifier as not held, and
/// returns the releases to perform, the keys first.
pub fn release_all(keys: &mut KeyStates, shift: &mut bool) -> (actions: Vec<Action>)
    ensures
        final(keys).wf(),
        final(keys)@ == Seq::<char>::empty(),
        !*final(shift),
        actions@ == release_actions(old(keys)@, *old(shift)),
{
    let held = keys.let_go_all();
    let mut actions: Vec<Action> = Vec::new();
    let mut i: usize = 0;
    while i < held.len()
        invariant
            i <= held.len(),
            actions@.len() == i,
            forall|j: int| 0 <= j < i ==> #[trigger] actions@[j] == key_action(held@[j], false),
        decreases held.len() - i,
    {
        actions.push(send_event(held[i], false));
        i += 1;
    }
    assert(actions@ =~= key_releases(held@));
    if *shift {
        actions.push(Action::ReleaseModifier);
        *shift = false;
    }
    actions
}

/// An event leaves the held keys all different.
pub proof fn lemma_held_after_distinct(event: Event, held: Seq<char>, toggle: bool)
    requires
        held.no_duplicates(),
    ensures
        held_after(event, held, toggle).no_duplicates(),
{
    if let Some(key) = note_key(event) {
        lemma_held_with_distinct(held, key);
        lemma_held_without_distinct(held, key);
    }
}

/// In a toggling score, two starts of a note in a row on the same mapped
/// pitch, the key not held before them, press the key once and then release
/// it once: the first moves the modifier where the key needs it and presses,
/// the second only releases, and the same keys are held afterwards as
/// before.
pub proof fn law_toggle_presses_then_releases(
    pitch: u8,
    first_velocity: u8,
    second_velocity: u8,
    held: Seq<char>,
    shift: bool,
)
    requires
        held.no_duplicates(),
        mapped_key(pitch) is Some,
        !held.contains(mapped_key(pitch).unwrap()),
    ensures
        ({
            let key = mapped_key(pitch).unwrap();
            let first = Event::NoteOn { pitch, velocity: first_velocity };
            let second = Event::NoteOn { pitch, velocity: second_velocity };
            let held_between = held_after(first, held, true);
            let shift_between = shift_after(first, shift);
            &&& event_actions(first, held, true, shift) == modifier_actions(key, shift).push(
                key_action(key, true),
            )
            &&& held_between == held.push(key)
            &&& event_actions(second, held_between, true, shift_between) == seq![
                key_action(key, false),
            ]
            &&& held_after(second, held_between, true) == held
            &&& shift_after(second, shift_between) == shift_between
        }),
{
    let key = mapped_key(pitch).unwrap();
    let between = held.push(key);
    assert(between[held.len() as int] == key);
    assert(between.contains(key));
    let at = between.index_of(key);
    if at < held.len() {
        assert(held[at] == key);
        assert(held.contains(key));
    }
    assert(between.remove(at) =~= held);
}

} // verus!

