//! The score: tracks of timed events and the header's time division.

use vstd::prelude::*;

verus! {

/// The largest delta that an event can carry (28 bits).
pub const MAX_DELTA: u32 = 0x0FFF_FFFF;

/// The largest tempo, in microseconds per beat, that an event can carry
/// (24 bits).
pub const MAX_TEMPO: u32 = 0x00FF_FFFF;

/// The largest number of ticks per beat that a header can declare (15 bits).
pub const MAX_TICKS_PER_BEAT: u16 = 0x7FFF;

/// The latest tick at which a playable track may end. Up to it the times of
/// the events, in microseconds, stay well within 64 bits at any tempo.
pub const MAX_TICK: u64 = 0xFFFF_FFFF;

/// What happens at one point of a track.
#[derive(Clone, Copy, Debug, PartialEq, Eq, Structural)]
pub enum Event {
    /// A note starts.
    NoteOn { pitch: u8, velocity: u8 },
    /// A note ends.
    NoteOff { pitch: u8 },
    /// From here on a beat lasts this many microseconds.
    TempoChange { micros_per_beat: u32 },
    /// Anything else; it plays nothing.
    Other,
}

/// An event and the number of ticks between it and the event before it on
/// the same track.
#[derive(Clone, Copy, Debug, PartialEq, Eq, Structural)]
pub struct TimedEvent {
    pub delta: u32,
    pub event: Event,
}

/// The frame rates of a timecode-based time division.
#[derive(Clone, Copy, Debug, PartialEq, Eq, Structural)]
pub enum FrameRate {
    Fps24,
    Fps25,
    /// 30 / 1.001 frames per second.
    Fps29,
    Fps30,
}

/// The time division of a score: what one tick means.
#[derive(Clone, Copy, Debug, PartialEq, Eq, Structural)]
pub enum Timing {
    /// A beat is divided into this many ticks.
    Metrical { ticks_per_beat: u16 },
    /// A second is divided into frames, a frame into this many ticks.
    Timecode { frame_rate: FrameRate, ticks_per_frame: u8 },
}

/// Why a score cannot be played.
#[derive(Clone, Copy, Debug, PartialEq, Eq, Structural)]
pub enum ScoreError {
    /// The time division is zero, or does not fit in 15 bits.
    UnsupportedTiming,
    /// Some event's delta is above `MAX_DELTA`.
    DeltaOutOfRange,
    /// Some tempo change is above `MAX_TEMPO`.
    TempoOutOfRange,
    /// Some track ends after `MAX_TICK`.
    TooLong,
}

/// A score: the time division and the tracks, each in the order of its
/// events.
#[derive(Debug)]
pub struct Score {
    pub timing: Timing,
    pub tracks: Vec<Vec<TimedEvent>>,
}

/// A score as a mathematical value.
pub struct ScoreView {
    pub timing: Timing,
    pub tracks: Seq<Seq<TimedEvent>>,
}

/// The tracks of a score as sequences.
pub open spec fn tracks_view(tracks: Seq<Vec<TimedEvent>>) -> Seq<Seq<TimedEvent>> {
    Seq::new(tracks.len(), |t: int| tracks[t]@)
}

impl View for Score {
    type V = ScoreView;

    open spec fn view(&self) -> ScoreView {
        ScoreView { timing: self.timing, tracks: tracks_view(self.tracks@) }
    }
}

/// Whether a time division can be played: it is not zero, and a number of
/// ticks per beat fits in 15 bits.
pub open spec fn timing_supported(timing: Timing) -> bool {
    match timing {
        Timing::Metrical { ticks_per_beat } => 0 < ticks_per_beat <= MAX_TICKS_PER_BEAT,
        Timing::Timecode { frame_rate, ticks_per_frame } => 0 < ticks_per_frame,
    }
}

/// The tempo that an event sets, if it sets one.
pub open spec fn tempo_of(event: Event) -> Option<u32> {
    match event {
        Event::TempoChange { micros_per_beat } => Some(micros_per_beat),
        _ => None,
    }
}

/// The ticks that the first `n` events of a track take: the sum of their
/// deltas.
pub open spec fn ticks_through(track: Seq<TimedEvent>, n: int) -> int
    decreases n,
{
    if n <= 0 {
        0
    } else {
        ticks_through(track, n - 1) + track[n - 1].delta
    }
}

/// The tick of event `i` of a track, counted from the track's start: the sum
/// of the deltas up to and including its own.
pub open spec fn tick_at(track: Seq<TimedEvent>, i: int) -> int {
    ticks_through(track, i + 1)
}

/// The tick at which a track ends: that of its last event, zero if it has
/// none.
pub open spec fn end_tick(track: Seq<TimedEvent>) -> int {
    ticks_through(track, track.len() as int)
}

/// Whether some event of some track is the end of a note.
pub open spec fn has_note_off(tracks: Seq<Seq<TimedEvent>>) -> bool {
    exists|t: int, i: int|
        0 <= t < tracks.len() && 0 <= i < tracks[t].len() && (#[trigger] tracks[t][i]).event is NoteOff
}

/// Whether some event of some track has a delta above `MAX_DELTA`.
pub open spec fn has_wide_delta(tracks: Seq<Seq<TimedEvent>>) -> bool {
    exists|t: int, i: int|
        0 <= t < tracks.len() && 0 <= i < tracks[t].len() && (#[trigger] tracks[t][i]).delta > MAX_DELTA
}

/// Whether some event of some track sets a tempo above `MAX_TEMPO`.
pub open spec fn has_wide_tempo(tracks: Seq<Seq<TimedEvent>>) -> bool {
    exists|t: int, i: int|
        0 <= t < tracks.len() && 0 <= i < tracks[t].len() && tempo_above_max(
            (#[trigger] tracks[t][i]).event,
        )
}

/// Whether an event sets a tempo above `MAX_TEMPO`.
pub open spec fn tempo_above_max(event: Event) -> bool {
    event matches Event::TempoChange { micros_per_beat } && micros_per_beat > MAX_TEMPO
}

/// Whether some track ends after `MAX_TICK`.
pub open spec fn has_long_track(tracks: Seq<Seq<TimedEvent>>) -> bool {
    exists|t: int| 0 <= t < tracks.len() && end_tick(#[trigger] tracks[t]) > MAX_TICK
}

/// What is wrong with a set of tracks, if anything: the first of a delta
/// out of range, a tempo out of range, a track that is too long.
pub open spec fn tracks_problem(tracks: Seq<Seq<TimedEvent>>) -> Option<ScoreError> {
    if has_wide_delta(tracks) {
        Some(ScoreError::DeltaOutOfRange)
    } else if has_wide_tempo(tracks) {
        Some(ScoreError::TempoOutOfRange)
    } else if has_long_track(tracks) {
        Some(ScoreError::TooLong)
    } else {
        None
    }
}

/// Whether a set of tracks can be played.
pub open spec fn tracks_playable(tracks: Seq<Seq<TimedEvent>>) -> bool {
    tracks_problem(tracks) is None
}

/// What is wrong with a score, if anything: an unsupported time division
/// first, then what `tracks_problem` finds.
pub open spec fn score_problem(score: ScoreView) -> Option<ScoreError> {
    if !timing_supported(score.timing) {
        Some(ScoreError::UnsupportedTiming)
    } else {
        tracks_problem(score.tracks)
    }
}

/// The ticks of a track never decrease.
pub proof fn lemma_ticks_through_monotonic(track: Seq<TimedEvent>, m: int, n: int)
    requires
        m <= n,
    ensures
        0 <= ticks_through(track, m) <= ticks_through(track, n),
    decreases n - m,
{
    if m < n {
        lemma_ticks_through_monotonic(track, m, n - 1);
    } else {
        lemma_ticks_through_nonnegative(track, m);
    }
}

/// No tick is negative.
pub proof fn lemma_ticks_through_nonnegative(track: Seq<TimedEvent>, n: int)
    ensures
        0 <= ticks_through(track, n),
    decreases n,
{
    if n > 0 {
        lemma_ticks_through_nonnegative(track, n - 1);
    }
}

/// The tempo that an event sets, if it sets one.
pub fn event_tempo(event: Event) -> (tempo: Option<u32>)
    ensures
        tempo == tempo_of(event),
{
    match event {
        Event::TempoChange { micros_per_beat } => Some(micros_per_beat),
        _ => None,
    }
}

fn any_wide_delta(tracks: &Vec<Vec<TimedEvent>>) -> (found: bool)
    ensures
        found == has_wide_delta(tracks_view(tracks@)),
{
    let mut t: usize = 0;
    while t < tracks.len()
        invariant
            t <= tracks.len(),
            forall|u: int, i: int|
                0 <= u < t && 0 <= i < tracks@[u]@.len() ==> (#[trigger] tracks_view(
                    tracks@,
                )[u][i]).delta <= MAX_DELTA,
        decreases tracks.len() - t,
    {
        let track = &tracks[t];
        let mut i: usize = 0;
        while i < track.len()
            invariant
                t < tracks.len(),
                track@ == tracks@[t as int]@,
                i <= track.len(),
                forall|j: int|
                    0 <= j < i ==> (#[trigger] tracks_view(tracks@)[t as int][j]).delta <= MAX_DELTA,
            decreases track.len() - i,
        {
            if track[i].delta > MAX_DELTA {
                assert(tracks_view(tracks@)[t as int][i as int].delta > MAX_DELTA);
                return true;
            }
            i += 1;
        }
        t += 1;
    }
    false
}

fn any_wide_tempo(tracks: &Vec<Vec<TimedEvent>>) -> (found: bool)
    ensures
        found == has_wide_tempo(tracks_view(tracks@)),
{
    let mut t: usize = 0;
    while t < tracks.len()
        invariant
            t <= tracks.len(),
            forall|u: int, i: int|
                0 <= u < t && 0 <= i < tracks@[u]@.len() ==> !tempo_above_max(
                    (#[trigger] tracks_view(tracks@)[u][i]).event,
                ),
        decreases tracks.len() - t,
    {
        let track = &tracks[t];
        let mut i: usize = 0;
        while i < track.len()
            invariant
                t < tracks.len(),
                track@ == tracks@[t as int]@,
                i <= track.len(),
                forall|j: int|
                    0 <= j < i ==> !tempo_above_max(
                        (#[trigger] tracks_view(tracks@)[t as int][j]).event,
                    ),
            decreases track.len() - i,
        {
            if let Some(micros_per_beat) = event_tempo(track[i].event) {
                if micros_per_beat > MAX_TEMPO {
                    assert(tempo_above_max(tracks_view(tracks@)[t as int][i as int].event));
                    return true;
                }
            }
            i += 1;
        }
        t += 1;
    }
    false
}

fn any_long_track(tracks: &Vec<Vec<TimedEvent>>) -> (found: bool)
    requires
        !has_wide_delta(tracks_view(tracks@)),
    ensures
        found == has_long_track(tracks_view(tracks@)),
{
    let mut t: usize = 0;
    while t < tracks.len()
        invariant
            t <= tracks.len(),
            !has_wide_delta(tracks_view(tracks@)),
            forall|u: int| 0 <= u < t ==> end_tick(#[trigger] tracks_view(tracks@)[u]) <= MAX_TICK,
        decreases tracks.len() - t,
    {
        let track = &tracks[t];
        let mut tick: u64 = 0;
        let mut i: usize = 0;
        while i < track.len()
            invariant
                t < tracks.len(),
                track@ == tracks@[t as int]@,
                !has_wide_delta(tracks_view(tracks@)),
                i <= track.len(),
                tick == ticks_through(track@, i as int),
                tick <= MAX_TICK,
            decreases track.len() - i,
        {
            assert(tracks_view(tracks@)[t as int][i as int].delta <= MAX_DELTA);
            tick = tick + track[i].delta as u64;
            i += 1;
            if tick > MAX_TICK {
                proof {
                    lemma_ticks_through_monotonic(track@, i as int, track@.len() as int);
                    assert(end_tick(tracks_view(tracks@)[t as int]) > MAX_TICK);
                }
                return true;
            }
        }
        t += 1;
    }
    false
}

/// Checks that a set of tracks can be played, and says what is wrong with
/// it where it cannot.
pub fn check_tracks(tracks: &Vec<Vec<TimedEvent>>) -> (checked: Result<(), ScoreError>)
    ensures
        match checked {
            Ok(_) => tracks_problem(tracks_view(tracks@)) is None,
            Err(error) => tracks_problem(tracks_view(tracks@)) == Some(error),
        },
{
    if any_wide_delta(tracks) {
        Err(ScoreError::DeltaOutOfRange)
    } else if any_wide_tempo(tracks) {
        Err(ScoreError::TempoOutOfRange)
    } else if any_long_track(tracks) {
        Err(ScoreError::TooLong)
    } else {
        Ok(())
    }
}

/// Decides the encoding of a score before it is played: with no end of a
/// note anywhere in it, a start of a note toggles its key; with one, starts
/// press and ends release.
pub fn is_toggle_score(tracks: &Vec<Vec<TimedEvent>>) -> (toggle: bool)
    ensures
        toggle == !has_note_off(tracks_view(tracks@)),
{
    let mut t: usize = 0;
    while t < tracks.len()
        invariant
            t <= tracks.len(),
            forall|u: int, i: int|
                0 <= u < t && 0 <= i < tracks@[u]@.len() ==> !((#[trigger] tracks_view(
                    tracks@,
                )[u][i]).event is NoteOff),
        decreases tracks.len() - t,
    {
        let track = &tracks[t];
        let mut i: usize = 0;
        while i < track.len()
            invariant
                t < tracks.len(),
                track@ == tracks@[t as int]@,
                i <= track.len(),
                forall|j: int|
                    0 <= j < i ==> !((#[trigger] tracks_view(tracks@)[t as int][j]).event is NoteOff),
            decreases track.len() - i,
        {
            match track[i].event {
                Event::NoteOff { .. } => {
                    assert(tracks_view(tracks@)[t as int][i as int].event is NoteOff);
                    return false;
                },
                _ => {},
            }
            i += 1;
        }
        t += 1;
    }
    true
}

} // verus!
