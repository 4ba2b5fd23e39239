//! The playback scheduler: one session plays one score, event by event, and
//! says before each what the player has to do.

use vstd::prelude::*;
use crate::dispatch::{
    event_actions, held_after, lemma_held_after_distinct, play_event, release_actions, release_all,
    shift_after,
};
use crate::keys::{Action, KeyStates, SETTLE_MICROS};
use crate::merge::{
    is_merge_of, lemma_merged_event_from_track, merge_tracks, merged_events, order_of,
    taken_from, MergedEvent,
};
use crate::score::{
    check_tracks, end_tick, event_tempo, has_note_off, is_toggle_score, score_problem,
    tempo_above_max, tempo_of, timing_supported, tracks_playable, tracks_view, Score, ScoreError,
    ScoreView, TimedEvent, Timing, MAX_TICK,
};
use crate::tempo::{
    initial_map, law_conversion_monotonic, lemma_after_wf, lemma_micros_at_bounds,
    tempo_in_range, TempoConverter, TempoMap,
};

verus! {

/// The tempo map after the first `n` events of a merged sequence.
pub open spec fn map_after(timing: Timing, events: Seq<MergedEvent>, n: int) -> TempoMap
    decreases n,
{
    if n <= 0 {
        initial_map(timing)
    } else {
        map_after(timing, events, n - 1).after(events[n - 1].tick, tempo_of(events[n - 1].event))
    }
}

/// The time of event `k` of a merged sequence, in microseconds from the
/// start of the score, under the tempo changes before it; zero for a
/// negative `k`.
pub open spec fn elapsed_at(timing: Timing, events: Seq<MergedEvent>, k: int) -> int {
    if k < 0 {
        0
    } else {
        map_after(timing, events, k).micros_at(events[k].tick as int)
    }
}

/// The time to let pass before an event that is due at `elapsed`, the one
/// before it having been due at `previous`: the time between the two less
/// the settle time, and nothing where that is not positive.
pub open spec fn pause(previous: int, elapsed: int) -> int {
    if elapsed - previous > SETTLE_MICROS {
        elapsed - previous - SETTLE_MICROS
    } else {
        0
    }
}

/// A merged sequence can be played: its ticks never decrease, none is after
/// `MAX_TICK`, and its tempos fit in 24 bits.
pub open spec fn events_playable(events: Seq<MergedEvent>) -> bool {
    &&& forall|j: int, k: int| 0 <= j <= k < events.len() ==> events[j].tick <= events[k].tick
    &&& forall|k: int|
        0 <= k < events.len() ==> (#[trigger] events[k]).tick <= MAX_TICK && tempo_in_range(
            tempo_of(events[k].event),
        )
}

/// A session as a mathematical value.
pub struct SessionView {
    /// Whether the score toggles its keys.
    pub toggle: bool,
    /// The time division of the score.
    pub timing: Timing,
    /// The events of the score, merged.
    pub events: Seq<MergedEvent>,
    /// How many of the events have been played.
    pub cursor: int,
    /// The keys that are held, first pressed first.
    pub held: Seq<char>,
    /// Whether the shift modifier is held.
    pub shift: bool,
    /// Whether the session has ended.
    pub finished: bool,
}

impl SessionView {
    /// What holds of every session: a session that has ended holds no key
    /// and no modifier.
    pub open spec fn wf(self) -> bool {
        &&& 0 <= self.cursor <= self.events.len()
        &&& timing_supported(self.timing)
        &&& events_playable(self.events)
        &&& self.held.no_duplicates()
        &&& self.finished ==> self.held.len() == 0 && !self.shift
    }

    /// The actions of the next step, and none once the session has ended.
    ///
    /// A step that finds the cancellation signal set, or no event left,
    /// releases everything. Any other step plays the next event: the time
    /// until it is due passes, then what the event asks for happens.
    pub open spec fn step_actions(self, cancel: bool) -> Option<Seq<Action>> {
        if self.finished {
            None
        } else if cancel || self.cursor >= self.events.len() {
            Some(release_actions(self.held, self.shift))
        } else {
            Some(
                seq![
                    Action::Wait {
                        micros: pause(
                            elapsed_at(self.timing, self.events, self.cursor - 1),
                            elapsed_at(self.timing, self.events, self.cursor),
                        ) as u64,
                    },
                ] + event_actions(
                    self.events[self.cursor].event,
                    self.held,
                    self.toggle,
                    self.shift,
                ),
            )
        }
    }

    /// The session after the next step.
    pub open spec fn step_state(self, cancel: bool) -> SessionView {
        if self.finished {
            self
        } else if cancel || self.cursor >= self.events.len() {
            SessionView { held: Seq::empty(), shift: false, finished: true, ..self }
        } else {
            SessionView {
                cursor: self.cursor + 1,
                held: held_after(self.events[self.cursor].event, self.held, self.toggle),
                shift: shift_after(self.events[self.cursor].event, self.shift),
                ..self
            }
        }
    }

    /// The session after one step for each of the given cancellation
    /// signals, in their order.
    pub open spec fn run(self, cancels: Seq<bool>) -> SessionView
        decreases cancels.len(),
    {
        if cancels.len() == 0 {
            self
        } else {
            self.step_state(cancels[0]).run(cancels.drop_first())
        }
    }
}

/// The session that starts on a score.
pub open spec fn initial_view(score: ScoreView) -> SessionView {
    SessionView {
        toggle: !has_note_off(score.tracks),
        timing: score.timing,
        events: merged_events(score.tracks),
        cursor: 0,
        held: Seq::empty(),
        shift: false,
        finished: false,
    }
}

/// One playback session.
pub struct Session {
    toggle: bool,
    events: Vec<MergedEvent>,
    cursor: usize,
    converter: TempoConverter,
    previous_elapsed: u64,
    keys: KeyStates,
    shift: bool,
    finished: bool,
}

impl View for Session {
    type V = SessionView;

    closed spec fn view(&self) -> SessionView {
        SessionView {
            toggle: self.toggle,
            timing: self.converter@.timing,
            events: self.events@,
            cursor: self.cursor as int,
            held: self.keys@,
            shift: self.shift,
            finished: self.finished,
        }
    }
}

/// The time to let pass before an event that is due at `elapsed`
/// microseconds, the one before it having been due at `previous`.
pub fn pause_before(previous: u64, elapsed: u64) -> (micros: u64)
    ensures
        micros == pause(previous as int, elapsed as int),
{
    if elapsed > previous && elapsed - previous > SETTLE_MICROS {
        elapsed - previous - SETTLE_MICROS
    } else {
        0
    }
}

impl Session {
    /// What holds of every session between two steps.
    pub closed spec fn wf(&self) -> bool {
        &&& self@.wf()
        &&& self.keys.wf()
        &&& self.converter.wf()
        &&& self.converter@ == map_after(self@.timing, self.events@, self.cursor as int)
        &&& self.previous_elapsed == elapsed_at(self@.timing, self.events@, self.cursor - 1)
    }

    /// Starts a session on a score: checks that the score can be played,
    /// decides its encoding and merges its tracks. Nothing is held yet.
    pub fn start(score: &Score) -> (started: Result<Session, ScoreError>)
        ensures
            match started {
                Ok(session) => {
                    &&& score_problem(score@) is None
                    &&& session.wf()
                    &&& session@.wf()
                    &&& session@ == initial_view(score@)
                    &&& is_merge_of(session@.events, score@.tracks)
                },
                Err(error) => score_problem(score@) == Some(error),
            },
    {
        let converter = match TempoConverter::new(score.timing) {
            Ok(converter) => converter,
            Err(error) => {
                return Err(error);
            },
        };
        match check_tracks(&score.tracks) {
            Ok(_) => {},
            Err(error) => {
                return Err(error);
            },
        }
        let toggle = is_toggle_score(&score.tracks);
        let events = merge_tracks(&score.tracks);
        proof {
            lemma_merge_playable(events@, tracks_view(score.tracks@));
        }
        Ok(
            Session {
                toggle,
                events,
                cursor: 0,
                converter,
                previous_elapsed: 0,
                keys: KeyStates::new(),
                shift: false,
                finished: false,
            },
        )
    }

    /// Makes the next step of the session and returns its actions, in the
    /// order in which they are to be performed; `None` once the session has
    /// ended. `cancel` says whether the cancellation signal is set.
    ///
    /// A session that ends, on the signal or after its last event, releases
    /// every held key and the modifier in its last step.
    pub fn next(&mut self, cancel: bool) -> (actions: Option<Vec<Action>>)
        requires
            old(self).wf(),
        ensures
            final(self).wf(),
            final(self)@.wf(),
            final(self)@ == old(self)@.step_state(cancel),
            match actions {
                Some(actions) => old(self)@.step_actions(cancel) == Some(actions@),
                None => old(self)@.step_actions(cancel) is None,
            },
            final(self)@.finished ==> final(self)@.held.len() == 0 && !final(self)@.shift,
    {
        if self.finished {
            return None;
        }
        if cancel || self.cursor >= self.events.len() {
            let actions = release_all(&mut self.keys, &mut self.shift);
            self.finished = true;
            return Some(actions);
        }
        let merged = self.events[self.cursor];
        let tempo = event_tempo(merged.event);
        proof {
            lemma_map_after_wf(self@.timing, self.events@, self.cursor as int);
        }
        let elapsed = self.converter.convert(merged.tick, tempo);
        let mut actions: Vec<Action> = Vec::new();
        actions.push(Action::Wait { micros: pause_before(self.previous_elapsed, elapsed) });
        self.previous_elapsed = elapsed;
        let mut played = play_event(merged.event, &mut self.keys, self.toggle, &mut self.shift);
        let ghost first = actions@;
        let ghost rest = played@;
        actions.append(&mut played);
        self.cursor = self.cursor + 1;
        proof {
            assert(actions@ =~= first + rest);
        }
        Some(actions)
    }

    /// Whether the session has ended.
    pub fn is_finished(&self) -> (finished: bool)
        ensures
            finished == self@.finished,
    {
        self.finished
    }

    /// Whether the score toggles its keys: whether it holds no end of a
    /// note.
    pub fn is_toggle(&self) -> (toggle: bool)
        ensures
            toggle == self@.toggle,
    {
        self.toggle
    }

    /// How many events are left to play.
    pub fn remaining(&self) -> (left: usize)
        requires
            self.wf(),
        ensures
            left == self@.events.len() - self@.cursor,
    {
        self.events.len() - self.cursor
    }

    /// How many keys are held.
    pub fn held_count(&self) -> (count: usize)
        ensures
            count == self@.held.len(),
    {
        self.keys.held_count()
    }

    /// Whether the shift modifier is held.
    pub fn shift_held(&self) -> (held: bool)
        ensures
            held == self@.shift,
    {
        self.shift
    }
}

/// The events of a merge of playable tracks can be played.
pub proof fn lemma_merge_playable(merged: Seq<MergedEvent>, tracks: Seq<Seq<TimedEvent>>)
    requires
        is_merge_of(merged, tracks),
        tracks_playable(tracks),
    ensures
        events_playable(merged),
{
    assert forall|j: int, k: int| 0 <= j <= k < merged.len() implies merged[j].tick
        <= merged[k].tick by {
        assert(order_of(merged)[j].0 <= order_of(merged)[k].0);
    }
    assert forall|k: int| 0 <= k < merged.len() implies (#[trigger] merged[k]).tick <= MAX_TICK
        && tempo_in_range(tempo_of(merged[k].event)) by {
        lemma_merged_event_from_track(merged, tracks, k);
        let track = merged[k].track as int;
        let index = taken_from(order_of(merged), track, k);
        assert(end_tick(tracks[track]) <= MAX_TICK);
        assert(!tempo_above_max(tracks[track][index].event));
    }
}

/// The tempo map after some events of a playable sequence is well formed,
/// is that of the same time division, and has the tick of the last of those
/// events as its last tick.
pub proof fn lemma_map_after_wf(timing: Timing, events: Seq<MergedEvent>, n: int)
    requires
        timing_supported(timing),
        events_playable(events),
        0 <= n <= events.len(),
    ensures
        map_after(timing, events, n).wf(),
        map_after(timing, events, n).timing == timing,
        map_after(timing, events, n).last_tick == if n == 0 {
            0
        } else {
            events[n - 1].tick
        },
    decreases n,
{
    if n > 0 {
        lemma_map_after_wf(timing, events, n - 1);
        lemma_after_wf(
            map_after(timing, events, n - 1),
            events[n - 1].tick,
            tempo_of(events[n - 1].event),
        );
    }
}

/// The times of the events of a playable sequence are in the order of the
/// events: no event is due before an earlier one, whatever tempo changes
/// stand between the two.
pub proof fn law_event_times_ascend(timing: Timing, events: Seq<MergedEvent>, j: int, k: int)
    requires
        timing_supported(timing),
        events_playable(events),
        0 <= j <= k < events.len(),
    ensures
        0 <= elapsed_at(timing, events, j) <= elapsed_at(timing, events, k) <= u64::MAX,
    decreases k - j,
{
    lemma_map_after_wf(timing, events, k);
    lemma_micros_at_bounds(map_after(timing, events, k), events[k].tick as int);
    if j < k {
        law_event_times_ascend(timing, events, j, k - 1);
        lemma_map_after_wf(timing, events, k - 1);
        law_conversion_monotonic(
            map_after(timing, events, k - 1),
            events[k - 1].tick,
            tempo_of(events[k - 1].event),
            events[k].tick,
        );
    }
}

/// A step keeps what holds of every session.
pub proof fn lemma_step_keeps_wf(session: SessionView, cancel: bool)
    requires
        session.wf(),
    ensures
        session.step_state(cancel).wf(),
{
    if !session.finished && !cancel && session.cursor < session.events.len() {
        lemma_held_after_distinct(session.events[session.cursor].event, session.held, session.toggle);
    }
}

/// Every session ends with nothing held: after more steps than it has
/// events left, whatever the cancellation signals were, the session has
/// ended, no key is held and the modifier is not held.
pub proof fn law_session_ends_released(session: SessionView, cancels: Seq<bool>)
    requires
        session.wf(),
        cancels.len() > session.events.len() - session.cursor,
    ensures
        session.run(cancels).wf(),
        session.run(cancels).finished,
        session.run(cancels).held.len() == 0,
        !session.run(cancels).shift,
    decreases cancels.len(),
{
    let next = session.step_state(cancels[0]);
    lemma_step_keeps_wf(session, cancels[0]);
    if next.finished {
        lemma_finished_stays(next, cancels.drop_first());
    } else {
        law_session_ends_released(next, cancels.drop_first());
    }
}

/// A session that has ended stays as it is.
pub proof fn lemma_finished_stays(session: SessionView, cancels: Seq<bool>)
    requires
        session.finished,
    ensures
        session.run(cancels) == session,
    decreases cancels.len(),
{
    if cancels.len() > 0 {
        lemma_finished_stays(session, cancels.drop_first());
    }
}

} // verus!
