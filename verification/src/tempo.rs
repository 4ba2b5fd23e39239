//! The tempo converter: from ticks to microseconds since the start of the
//! score, under the tempo changes met so far.
//!
//! A score is a row of stretches, each played at one tempo. The ticks of a
//! stretch are turned into microseconds by a converter of the
//! `midi-reader-writer` crate that is made for that stretch; the contracts
//! of the two calls into the crate say what is taken from it without proof.
//! What is proved here is what is built on them: how the stretches add up,
//! that a later tick never has an earlier time, and that within a stretch
//! the time follows the tempo.

use vstd::prelude::*;
use vstd::arithmetic::div_mod::{lemma_div_is_ordered, lemma_fundamental_div_mod};
use midi_reader_writer::{ConvertTicksToMicroseconds, TimeConversionError};
use midly::num::{u15, u24};
use midly::{Format, Fps, Header, MetaMessage, TrackEventKind};
use crate::score::{
    timing_supported, FrameRate, ScoreError, Timing, MAX_TEMPO, MAX_TICK, MAX_TICKS_PER_BEAT,
};

verus! {

/// The tempo of a score until it sets one: 120 beats per minute, in
/// microseconds per beat.
pub const DEFAULT_TEMPO: u32 = 500_000;

/// The most microseconds that any time division and tempo give to the
/// ticks counted by `pace_ticks`.
pub const MAX_PACE_MICROS: u64 = 1_001_000_000;

/// The number of frames per second that a frame rate stands for, rounded
/// down.
pub open spec fn frames_per_second(frame_rate: FrameRate) -> int {
    match frame_rate {
        FrameRate::Fps24 => 24,
        FrameRate::Fps25 => 25,
        FrameRate::Fps29 => 29,
        FrameRate::Fps30 => 30,
    }
}

/// The ticks that take `pace_micros` microseconds: a beat's in a metrical
/// time division, a second's in a timecode-based one (30000 frames' at
/// 30 / 1.001 frames per second).
pub open spec fn pace_ticks(timing: Timing) -> int {
    match timing {
        Timing::Metrical { ticks_per_beat } => ticks_per_beat as int,
        Timing::Timecode { frame_rate: FrameRate::Fps29, ticks_per_frame } => 30_000
            * ticks_per_frame,
        Timing::Timecode { frame_rate, ticks_per_frame } => frames_per_second(frame_rate)
            * ticks_per_frame,
    }
}

/// The microseconds that `pace_ticks` ticks take: a beat's at the given
/// tempo in a metrical time division, and in a timecode-based one, where
/// the tempo does not count, a second's (1001 seconds' at 30 / 1.001 frames
/// per second).
pub open spec fn pace_micros(timing: Timing, tempo: u32) -> int {
    match timing {
        Timing::Metrical { ticks_per_beat } => tempo as int,
        Timing::Timecode { frame_rate: FrameRate::Fps29, ticks_per_frame } => 1_001_000_000,
        Timing::Timecode { frame_rate, ticks_per_frame } => 1_000_000,
    }
}

/// The microseconds that `ticks` ticks take at one tempo, rounded to the
/// nearest microsecond, a half upwards.
pub open spec fn scaled(timing: Timing, tempo: u32, ticks: int) -> int {
    (2 * ticks * pace_micros(timing, tempo) + pace_ticks(timing)) / (2 * pace_ticks(timing))
}

/// The converter of `midi-reader-writer`. Nothing of what it holds is seen
/// here.
#[verifier::external_type_specification]
#[verifier::external_body]
pub struct OutsideConverter(ConvertTicksToMicroseconds);

/// The error of `midi-reader-writer` for a time division that it cannot
/// convert.
#[verifier::external_type_specification]
#[verifier::external_body]
pub struct OutsideConversionError(TimeConversionError);

/// What the contracts say of a converter of `midi-reader-writer`: the time
/// division that it was made for, the tempo that it was last given (the
/// default before that), and the last tick that it converted (zero before
/// that).
pub struct ConverterView {
    pub timing: Timing,
    pub tempo: u32,
    pub last_tick: u64,
}

/// What a converter of `midi-reader-writer` holds, as far as its results
/// depend on it.
pub uninterp spec fn converter_view(converter: ConvertTicksToMicroseconds) -> ConverterView;

/// Calls `ConvertTicksToMicroseconds::try_from` of `midi-reader-writer` on a
/// header with the given time division.
///
/// Claimed of it: it fails exactly on a time division of zero (zero ticks
/// per beat, zero ticks per frame), and a converter that it makes starts at
/// the default tempo and has converted no tick yet. The number of ticks per
/// beat must fit in 15 bits: the header would cut off a higher bit.
#[verifier::external_body]
fn outside_converter(timing: Timing) -> (made: Result<
    ConvertTicksToMicroseconds,
    TimeConversionError,
>)
    requires
        timing matches Timing::Metrical { ticks_per_beat } ==> ticks_per_beat <= MAX_TICKS_PER_BEAT,
    ensures
        made is Ok <==> timing_supported(timing),
        made matches Ok(converter) ==> converter_view(converter) == (ConverterView {
            timing,
            tempo: DEFAULT_TEMPO,
            last_tick: 0,
        }),
{
    let division = match timing {
        Timing::Metrical { ticks_per_beat: n } => midly::Timing::Metrical(u15::new(n)),
        Timing::Timecode { frame_rate: FrameRate::Fps24, ticks_per_frame: n } => midly::Timing::Timecode(Fps::Fps24, n),
        Timing::Timecode { frame_rate: FrameRate::Fps25, ticks_per_frame: n } => midly::Timing::Timecode(Fps::Fps25, n),
        Timing::Timecode { frame_rate: FrameRate::Fps29, ticks_per_frame: n } => midly::Timing::Timecode(Fps::Fps29, n),
        Timing::Timecode { frame_rate: FrameRate::Fps30, ticks_per_frame: n } => midly::Timing::Timecode(Fps::Fps30, n),
    };
    ConvertTicksToMicroseconds::try_from(Header::new(Format::Parallel, division))
}

/// Calls `ConvertTicksToMicroseconds::convert` of `midi-reader-writer` with
/// `tick` and an event that sets `tempo`, or one that sets none.
///
/// Claimed of it, for the two ways in which it is called here:
/// - With no tempo, at a tick that is not before the last one. The crate
///   then returns the tick times its factor, rounded to the nearest
///   integer, a half upwards (with the factor `n / d` in lowest terms it
///   divides `tick * n + d / 2` by `d`), and keeps its factor. The factor
///   is `pace_micros / pace_ticks` for the time division that the
///   converter was made for and the tempo that it was last given.
/// - With a tempo, at tick zero, before any later tick. The crate then
///   returns zero, and in a metrical time division takes the tempo into
///   its factor; in a timecode-based one it leaves the tempo aside.
///
/// It is not called with a tempo at a later tick: there the crate carries
/// its rounding error on in floating point, and asserts of it, in a debug
/// build, what does not hold on every input. The tick is at most
/// `MAX_TICK`, so that the crate's products stay within 64 bits, and the
/// tempo fits in 24 bits, as that of the crate's event does.
#[verifier::external_body]
fn outside_convert(converter: &mut ConvertTicksToMicroseconds, tick: u64, tempo: Option<u32>) -> (micros:
    u64)
    requires
        timing_supported(converter_view(*old(converter)).timing),
        converter_view(*old(converter)).last_tick <= tick <= MAX_TICK,
        tempo matches Some(micros_per_beat) ==> micros_per_beat <= MAX_TEMPO && tick == 0,
    ensures
        micros == scaled(
            converter_view(*old(converter)).timing,
            converter_view(*old(converter)).tempo,
            tick as int,
        ),
        converter_view(*final(converter)) == (ConverterView {
            timing: converter_view(*old(converter)).timing,
            tempo: match tempo {
                Some(micros_per_beat) => micros_per_beat,
                None => converter_view(*old(converter)).tempo,
            },
            last_tick: tick,
        }),
{
    let event = match tempo {
        Some(micros_per_beat) => TrackEventKind::Meta(MetaMessage::Tempo(u24::new(micros_per_beat))),
        None => TrackEventKind::Meta(MetaMessage::EndOfTrack),
    };
    converter.convert(tick, &event)
}

/// Whether a tempo fits in 24 bits.
pub open spec fn tempo_in_range(tempo: Option<u32>) -> bool {
    tempo matches Some(micros_per_beat) ==> micros_per_beat <= MAX_TEMPO
}

/// The tempo map of a score up to some tick, as far as later times depend
/// on it: the tempo in effect, the tick at which it came into effect (the
/// start of the stretch), and the time of that tick.
pub struct TempoMap {
    /// The time division of the score.
    pub timing: Timing,
    /// The tempo in effect, in microseconds per beat.
    pub tempo: u32,
    /// The tick at which the stretch at this tempo starts.
    pub stretch_tick: u64,
    /// The time of that tick, in microseconds from the start of the score.
    pub stretch_micros: u64,
    /// The last tick converted.
    pub last_tick: u64,
}

impl TempoMap {
    /// What holds of every tempo map: its time division is supported, its
    /// tempo fits in 24 bits, its ticks are in order and not after
    /// `MAX_TICK`, and the time of the start of its stretch is what the
    /// fastest pace allows at most.
    pub open spec fn wf(self) -> bool {
        &&& timing_supported(self.timing)
        &&& self.tempo <= MAX_TEMPO
        &&& self.stretch_tick <= self.last_tick <= MAX_TICK
        &&& self.stretch_micros <= self.stretch_tick * MAX_PACE_MICROS
    }

    /// The time of `tick`, in microseconds from the start of the score: the
    /// time of the start of the stretch, and the ticks since then at the
    /// tempo in effect.
    pub open spec fn micros_at(self, tick: int) -> int {
        self.stretch_micros + scaled(self.timing, self.tempo, tick - self.stretch_tick)
    }

    /// Whether an event that sets `tempo` starts a new stretch: it does
    /// where the time division is metrical and the tempo is another than
    /// the one in effect.
    pub open spec fn changes_tempo(self, tempo: Option<u32>) -> bool {
        self.timing is Metrical && tempo is Some && tempo != Some(self.tempo)
    }

    /// The tempo map after an event at `tick` that sets `tempo`, if it sets
    /// one. A new tempo is in effect from the tick of its event on.
    pub open spec fn after(self, tick: u64, tempo: Option<u32>) -> TempoMap {
        if self.changes_tempo(tempo) {
            TempoMap {
                timing: self.timing,
                tempo: tempo.unwrap(),
                stretch_tick: tick,
                stretch_micros: self.micros_at(tick as int) as u64,
                last_tick: tick,
            }
        } else {
            TempoMap { last_tick: tick, ..self }
        }
    }
}

/// The tempo map at the start of a score.
pub open spec fn initial_map(timing: Timing) -> TempoMap {
    TempoMap { timing, tempo: DEFAULT_TEMPO, stretch_tick: 0, stretch_micros: 0, last_tick: 0 }
}

/// Converts the ticks of a score's events, handed over in ascending order,
/// into microseconds since the start of the score.
pub struct TempoConverter {
    timing: Timing,
    tempo: u32,
    stretch: ConvertTicksToMicroseconds,
    stretch_tick: u64,
    stretch_micros: u64,
    last_tick: u64,
}

impl View for TempoConverter {
    type V = TempoMap;

    closed spec fn view(&self) -> TempoMap {
        TempoMap {
            timing: self.timing,
            tempo: self.tempo,
            stretch_tick: self.stretch_tick,
            stretch_micros: self.stretch_micros,
            last_tick: self.last_tick,
        }
    }
}

impl TempoConverter {
    /// What holds of every converter: its tempo map is well formed, and
    /// the outside converter of its stretch counts the ticks from the start
    /// of the stretch, at the tempo in effect.
    pub closed spec fn wf(&self) -> bool {
        &&& self@.wf()
        &&& converter_view(self.stretch) == (ConverterView {
            timing: self.timing,
            tempo: self.tempo,
            last_tick: (self.last_tick - self.stretch_tick) as u64,
        })
    }

    /// Makes a converter for a score with the given time division. A time
    /// division that is not supported is an error.
    pub fn new(timing: Timing) -> (made: Result<TempoConverter, ScoreError>)
        ensures
            made is Ok <==> timing_supported(timing),
            made matches Ok(converter) ==> converter.wf() && converter@.wf() && converter@
                == initial_map(timing),
            made matches Err(error) ==> error == ScoreError::UnsupportedTiming,
    {
        if let Timing::Metrical { ticks_per_beat } = timing {
            if ticks_per_beat > MAX_TICKS_PER_BEAT {
                return Err(ScoreError::UnsupportedTiming);
            }
        }
        match outside_converter(timing) {
            Ok(stretch) => Ok(
                TempoConverter {
                    timing,
                    tempo: DEFAULT_TEMPO,
                    stretch,
                    stretch_tick: 0,
                    stretch_micros: 0,
                    last_tick: 0,
                },
            ),
            Err(_) => Err(ScoreError::UnsupportedTiming),
        }
    }

    /// Converts `tick`, the tick of an event that sets `tempo` if it sets
    /// one, into the microseconds from the start of the score to that tick.
    /// A tempo applies from its tick on, so not to the result of the call
    /// that hands it over.
    ///
    /// Ticks are handed over in ascending order. The times that come back
    /// are then in ascending order too.
    pub fn convert(&mut self, tick: u64, tempo: Option<u32>) -> (micros: u64)
        requires
            old(self).wf(),
            old(self)@.last_tick <= tick <= MAX_TICK,
            tempo_in_range(tempo),
        ensures
            final(self).wf(),
            final(self)@.wf(),
            micros == old(self)@.micros_at(tick as int),
            final(self)@ == old(self)@.after(tick, tempo),
            old(self)@.micros_at(old(self)@.last_tick as int) <= micros,
    {
        proof {
            lemma_micros_at_bounds(self@, tick as int);
            lemma_micros_at_monotonic(self@, self@.last_tick as int, tick as int);
            lemma_after_wf(self@, tick, tempo);
        }
        let since = outside_convert(&mut self.stretch, tick - self.stretch_tick, None);
        let micros = self.stretch_micros + since;
        self.last_tick = tick;
        if let Timing::Metrical { .. } = self.timing {
            if let Some(micros_per_beat) = tempo {
                if micros_per_beat != self.tempo {
                    match outside_converter(self.timing) {
                        Ok(mut stretch) => {
                            outside_convert(&mut stretch, 0, tempo);
                            self.stretch = stretch;
                            self.tempo = micros_per_beat;
                            self.stretch_tick = tick;
                            self.stretch_micros = micros;
                        },
                        // The time division was accepted when `self` was made.
                        Err(_) => {},
                    }
                }
            }
        }
        micros
    }
}

/// What one tempo gives to some ticks is not negative, and at most the
/// ticks times the microseconds of the pace.
pub proof fn lemma_scaled_bounds(timing: Timing, tempo: u32, ticks: int)
    requires
        timing_supported(timing),
        tempo <= MAX_TEMPO,
        0 <= ticks,
    ensures
        0 <= scaled(timing, tempo, ticks) <= ticks * pace_micros(timing, tempo),
        0 <= pace_micros(timing, tempo) <= MAX_PACE_MICROS,
        scaled(timing, tempo, 0) == 0,
{
    let n = pace_micros(timing, tempo);
    let d = pace_ticks(timing);
    assert(d >= 1 && n >= 0);
    let q = (2 * ticks * n + d) / (2 * d);
    assert(0 <= q <= ticks * n) by (nonlinear_arith)
        requires
            q == (2 * ticks * n + d) / (2 * d),
            d >= 1,
            n >= 0,
            ticks >= 0,
    ;
    assert(d / (2 * d) == 0) by (nonlinear_arith)
        requires
            d >= 1,
    ;
    assert(2 * 0 * n + d == d) by (nonlinear_arith);
}

/// More ticks take no less time.
pub proof fn lemma_scaled_monotonic(timing: Timing, tempo: u32, fewer: int, more: int)
    requires
        timing_supported(timing),
        fewer <= more,
    ensures
        scaled(timing, tempo, fewer) <= scaled(timing, tempo, more),
{
    let n = pace_micros(timing, tempo);
    let d = pace_ticks(timing);
    assert(2 * fewer * n + d <= 2 * more * n + d) by (nonlinear_arith)
        requires
            fewer <= more,
            n >= 0,
    ;
    lemma_div_is_ordered(2 * fewer * n + d, 2 * more * n + d, 2 * d);
}

/// The time of a tick at or after the start of the stretch is not before
/// the time of that start, and at most what the fastest pace allows.
pub proof fn lemma_micros_at_bounds(map: TempoMap, tick: int)
    requires
        map.wf(),
        map.stretch_tick <= tick <= MAX_TICK,
    ensures
        map.stretch_micros <= map.micros_at(tick) <= tick * MAX_PACE_MICROS,
        tick * MAX_PACE_MICROS <= u64::MAX,
{
    let since = tick - map.stretch_tick;
    lemma_scaled_bounds(map.timing, map.tempo, since);
    let n = pace_micros(map.timing, map.tempo);
    assert(since * n <= since * MAX_PACE_MICROS) by (nonlinear_arith)
        requires
            0 <= since,
            0 <= n <= MAX_PACE_MICROS,
    ;
    assert(map.stretch_tick * MAX_PACE_MICROS + since * MAX_PACE_MICROS == tick * MAX_PACE_MICROS)
        by (nonlinear_arith)
        requires
            since == tick - map.stretch_tick,
    ;
    assert(tick * MAX_PACE_MICROS <= u64::MAX) by (nonlinear_arith)
        requires
            0 <= tick <= MAX_TICK,
    ;
}

/// An event in the order of the ticks leaves the tempo map well formed.
pub proof fn lemma_after_wf(map: TempoMap, tick: u64, tempo: Option<u32>)
    requires
        map.wf(),
        map.last_tick <= tick <= MAX_TICK,
        tempo_in_range(tempo),
    ensures
        map.after(tick, tempo).wf(),
        map.after(tick, tempo).timing == map.timing,
        map.after(tick, tempo).last_tick == tick,
{
    lemma_micros_at_bounds(map, tick as int);
}

/// Under one tempo map a later tick has no earlier time.
pub proof fn lemma_micros_at_monotonic(map: TempoMap, earlier: int, later: int)
    requires
        map.wf(),
        earlier <= later,
    ensures
        map.micros_at(earlier) <= map.micros_at(later),
{
    lemma_scaled_monotonic(
        map.timing,
        map.tempo,
        earlier - map.stretch_tick,
        later - map.stretch_tick,
    );
}

/// The times of two ticks converted one after the other are in the order
/// of the ticks, whatever tempo the event at the first of them sets.
pub proof fn law_conversion_monotonic(map: TempoMap, first: u64, tempo: Option<u32>, second: u64)
    requires
        map.wf(),
        map.last_tick <= first <= second <= MAX_TICK,
        tempo_in_range(tempo),
    ensures
        map.micros_at(first as int) <= map.after(first, tempo).micros_at(second as int),
{
    lemma_micros_at_bounds(map, first as int);
    lemma_after_wf(map, first, tempo);
    let next = map.after(first, tempo);
    if map.changes_tempo(tempo) {
        lemma_micros_at_bounds(next, second as int);
    } else {
        lemma_micros_at_monotonic(map, first as int, second as int);
    }
}

/// Within a stretch the time follows the tempo in effect: the microseconds
/// since the start of the stretch are those that the ticks since then take
/// at that tempo, to the nearest microsecond. With `pace_micros`
/// microseconds to `pace_ticks` ticks, the two differ by half a microsecond
/// at most.
pub proof fn law_conversion_follows_tempo(map: TempoMap, tick: int)
    requires
        map.wf(),
        map.stretch_tick <= tick,
    ensures
        ({
            let ticks = tick - map.stretch_tick;
            let micros = map.micros_at(tick) - map.stretch_micros;
            let exact = ticks * pace_micros(map.timing, map.tempo);
            let rounded = micros * pace_ticks(map.timing);
            -pace_ticks(map.timing) <= 2 * (exact - rounded) < pace_ticks(map.timing)
        }),
{
    let n = pace_micros(map.timing, map.tempo);
    let d = pace_ticks(map.timing);
    let ticks = tick - map.stretch_tick;
    let x = 2 * ticks * n + d;
    lemma_fundamental_div_mod(x, 2 * d);
    assert(0 <= x % (2 * d) < 2 * d) by (nonlinear_arith)
        requires
            d >= 1,
    ;
    let q = x / (2 * d);
    assert(2 * (ticks * n - q * d) == x - d - (2 * d) * q) by (nonlinear_arith)
        requires
            x == 2 * ticks * n + d,
    ;
}

} // verus!
