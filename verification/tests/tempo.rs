use midi_keys::score::{FrameRate, ScoreError, Timing};
use midi_keys::tempo::TempoConverter;

fn metrical(ticks_per_beat: u16) -> TempoConverter {
    TempoConverter::new(Timing::Metrical { ticks_per_beat }).unwrap()
}

#[test]
fn zero_ticks_per_beat_is_rejected() {
    let made = TempoConverter::new(Timing::Metrical { ticks_per_beat: 0 });
    assert!(matches!(made, Err(ScoreError::UnsupportedTiming)));
}

#[test]
fn ticks_per_beat_above_fifteen_bits_are_rejected() {
    let made = TempoConverter::new(Timing::Metrical { ticks_per_beat: 0x8000 });
    assert!(matches!(made, Err(ScoreError::UnsupportedTiming)));
    let made = TempoConverter::new(Timing::Metrical { ticks_per_beat: 0xFFFF });
    assert!(matches!(made, Err(ScoreError::UnsupportedTiming)));
}

#[test]
fn largest_ticks_per_beat_is_accepted() {
    assert!(TempoConverter::new(Timing::Metrical { ticks_per_beat: 0x7FFF }).is_ok());
}

#[test]
fn zero_ticks_per_frame_is_rejected() {
    for frame_rate in [FrameRate::Fps24, FrameRate::Fps25, FrameRate::Fps29, FrameRate::Fps30] {
        let made = TempoConverter::new(Timing::Timecode { frame_rate, ticks_per_frame: 0 });
        assert!(matches!(made, Err(ScoreError::UnsupportedTiming)));
    }
}

#[test]
fn default_tempo_is_half_a_second_per_beat() {
    let mut converter = metrical(480);
    assert_eq!(converter.convert(0, None), 0);
    assert_eq!(converter.convert(480, None), 500_000);
    assert_eq!(converter.convert(960, None), 1_000_000);
    assert_eq!(converter.convert(1200, None), 1_250_000);
}

#[test]
fn tempo_at_the_start_sets_the_pace() {
    let mut converter = metrical(32);
    assert_eq!(converter.convert(0, Some(500_000)), 0);
    assert_eq!(converter.convert(64, None), 1_000_000);
}

#[test]
fn tempo_change_applies_from_its_tick_on() {
    let mut converter = metrical(480);
    assert_eq!(converter.convert(480, Some(250_000)), 500_000);
    assert_eq!(converter.convert(960, None), 750_000);
    assert_eq!(converter.convert(960, Some(1_000_000)), 750_000);
    assert_eq!(converter.convert(1200, None), 1_250_000);
}

#[test]
fn conversion_never_goes_back_in_time() {
    let mut converter = metrical(96);
    let tempos = [None, Some(300_000), None, Some(700_000), None, None, Some(100_000), None];
    let mut last = 0u64;
    let mut tick = 0u64;
    for (step, tempo) in tempos.iter().enumerate() {
        tick += 37 * step as u64;
        let micros = converter.convert(tick, *tempo);
        assert!(micros >= last);
        last = micros;
    }
}

#[test]
fn timecode_counts_frames() {
    let timing = Timing::Timecode { frame_rate: FrameRate::Fps25, ticks_per_frame: 40 };
    let mut converter = TempoConverter::new(timing).unwrap();
    assert_eq!(converter.convert(1000, None), 1_000_000);
    assert_eq!(converter.convert(1500, Some(250_000)), 1_500_000);
    assert_eq!(converter.convert(2000, None), 2_000_000);
}

#[test]
fn timecode_at_twenty_four_and_thirty_frames() {
    let timing = Timing::Timecode { frame_rate: FrameRate::Fps24, ticks_per_frame: 100 };
    let mut converter = TempoConverter::new(timing).unwrap();
    assert_eq!(converter.convert(2400, None), 1_000_000);
    let timing = Timing::Timecode { frame_rate: FrameRate::Fps30, ticks_per_frame: 100 };
    let mut converter = TempoConverter::new(timing).unwrap();
    assert_eq!(converter.convert(3000, None), 1_000_000);
}

#[test]
fn timecode_at_drop_frame_rate() {
    let timing = Timing::Timecode { frame_rate: FrameRate::Fps29, ticks_per_frame: 100 };
    let mut converter = TempoConverter::new(timing).unwrap();
    assert_eq!(converter.convert(3000, None), 1_001_000);
}

#[test]
fn largest_tempo_and_tick_are_accepted() {
    let mut converter = metrical(1);
    assert_eq!(converter.convert(0, Some(0x00FF_FFFF)), 0);
    assert_eq!(converter.convert(0xFFFF_FFFF, None), 0xFFFF_FFFF * 0x00FF_FFFF);
}

#[test]
fn times_are_rounded_to_the_nearest_microsecond() {
    let mut converter = metrical(3);
    assert_eq!(converter.convert(1, None), 166_667);
    assert_eq!(converter.convert(2, None), 333_333);
    assert_eq!(converter.convert(3, None), 500_000);
    assert_eq!(converter.convert(4, None), 666_667);
}

#[test]
fn half_a_microsecond_is_rounded_up() {
    let mut converter = metrical(2);
    assert_eq!(converter.convert(0, Some(1)), 0);
    assert_eq!(converter.convert(1, None), 1);
    assert_eq!(converter.convert(2, None), 1);
    assert_eq!(converter.convert(3, None), 2);
    assert_eq!(converter.convert(5, None), 3);
    let mut converter = metrical(4);
    assert_eq!(converter.convert(0, Some(1)), 0);
    assert_eq!(converter.convert(1, None), 0);
    assert_eq!(converter.convert(2, None), 1);
    assert_eq!(converter.convert(3, None), 1);
    assert_eq!(converter.convert(4, None), 1);
    assert_eq!(converter.convert(6, None), 2);
}

#[test]
fn each_stretch_is_rounded_from_its_start() {
    let mut converter = metrical(12);
    assert_eq!(converter.convert(7, Some(1_468_961)), 291_667);
    assert_eq!(converter.convert(9, Some(58)), 536_494);
    assert_eq!(converter.convert(10, None), 536_499);
    assert_eq!(converter.convert(22, None), 536_557);
}

#[test]
fn same_tempo_again_starts_no_stretch() {
    let mut converter = metrical(3);
    assert_eq!(converter.convert(1, Some(500_000)), 166_667);
    assert_eq!(converter.convert(2, None), 333_333);
    let mut converter = metrical(3);
    assert_eq!(converter.convert(0, Some(100_000)), 0);
    assert_eq!(converter.convert(1, Some(100_000)), 33_333);
    assert_eq!(converter.convert(2, Some(100_000)), 66_667);
}

#[test]
fn tempo_of_zero_stops_the_clock() {
    let mut converter = metrical(480);
    assert_eq!(converter.convert(480, Some(0)), 500_000);
    assert_eq!(converter.convert(100_000, None), 500_000);
    assert_eq!(converter.convert(100_000, Some(500_000)), 500_000);
    assert_eq!(converter.convert(100_480, None), 1_000_000);
}

#[test]
fn timecode_ignores_tempo_changes() {
    let timing = Timing::Timecode { frame_rate: FrameRate::Fps29, ticks_per_frame: 1 };
    let mut converter = TempoConverter::new(timing).unwrap();
    assert_eq!(converter.convert(1, Some(1)), 33_367);
    assert_eq!(converter.convert(2, Some(2)), 66_733);
    assert_eq!(converter.convert(3, None), 100_100);
}

fn next_random(state: &mut u64) -> u64 {
    *state = state.wrapping_mul(6_364_136_223_846_793_005).wrapping_add(1_442_695_040_888_963_407);
    *state >> 33
}

fn nearest(ticks: u64, micros: u64, per_ticks: u64) -> u64 {
    ((2 * ticks as u128 * micros as u128 + per_ticks as u128) / (2 * per_ticks as u128)) as u64
}

#[test]
fn metrical_times_add_up_stretch_by_stretch() {
    let mut state = 7u64;
    for _ in 0..2_000 {
        let ticks_per_beat = (next_random(&mut state) % 0x7FFF + 1) as u16;
        let mut converter = metrical(ticks_per_beat);
        let mut tempo = 500_000u64;
        let mut tick = 0u64;
        let mut stretch_tick = 0u64;
        let mut stretch_micros = 0u64;
        for _ in 0..40 {
            tick += next_random(&mut state) % 5_000;
            let change = match next_random(&mut state) % 4 {
                0 => Some((next_random(&mut state) % 0x0100_0000) as u32),
                1 => Some((next_random(&mut state) % 16) as u32),
                _ => None,
            };
            let expected = stretch_micros + nearest(tick - stretch_tick, tempo, ticks_per_beat as u64);
            assert_eq!(converter.convert(tick, change), expected);
            if let Some(new_tempo) = change {
                if new_tempo as u64 != tempo {
                    tempo = new_tempo as u64;
                    stretch_tick = tick;
                    stretch_micros = expected;
                }
            }
        }
    }
}

#[test]
fn timecode_times_follow_the_frame_rate() {
    let mut state = 11u64;
    let rates = [
        (FrameRate::Fps24, 1_000_000u64, 24u64),
        (FrameRate::Fps25, 1_000_000, 25),
        (FrameRate::Fps29, 1_001_000_000, 30_000),
        (FrameRate::Fps30, 1_000_000, 30),
    ];
    for _ in 0..2_000 {
        let (frame_rate, micros, frames) = rates[(next_random(&mut state) % 4) as usize];
        let ticks_per_frame = (next_random(&mut state) % 255 + 1) as u8;
        let timing = Timing::Timecode { frame_rate, ticks_per_frame };
        let mut converter = TempoConverter::new(timing).unwrap();
        let mut tick = 0u64;
        for _ in 0..20 {
            tick = (tick + next_random(&mut state) % 300_000_000).min(0xFFFF_FFFF);
            let change = if next_random(&mut state) % 3 == 0 { Some(250_000) } else { None };
            let expected = nearest(tick, micros, frames * ticks_per_frame as u64);
            assert_eq!(converter.convert(tick, change), expected);
        }
    }
}

#[test]
fn times_up_to_the_last_tick_fit() {
    let timing = Timing::Timecode { frame_rate: FrameRate::Fps29, ticks_per_frame: 1 };
    let mut converter = TempoConverter::new(timing).unwrap();
    assert_eq!(converter.convert(0xFFFF_FFFF, None), 143_308_742_076_500);
    let mut converter = metrical(1);
    assert_eq!(converter.convert(0, Some(0x00FF_FFFF)), 0);
    assert_eq!(converter.convert(0xFFFF_FFFE, None), 0xFFFF_FFFE * 0x00FF_FFFF);
    assert_eq!(converter.convert(0xFFFF_FFFF, Some(0x00FF_FFFE)), 0xFFFF_FFFF * 0x00FF_FFFF);
    assert_eq!(converter.convert(0xFFFF_FFFF, None), 0xFFFF_FFFF * 0x00FF_FFFF);
}
