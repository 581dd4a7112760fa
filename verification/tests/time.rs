use generic_daw_core::clip_fades::fit_fades;
use generic_daw_core::time::beat_range::BeatRange;
use generic_daw_core::time::beat_span::BeatSpan;
use generic_daw_core::time::beat_time::BeatTime;
use generic_daw_core::time::fixed_point::{FixedPoint, FACTOR};
use generic_daw_core::time::offset_beat_range::OffsetBeatRange;
use generic_daw_core::time::offset_beat_span::OffsetBeatSpan;
use generic_daw_core::time::seconds_time::SecondsTime;
use generic_daw_core::transport::Transport;

fn transport(sample_rate: u32, bpm: u16, numerator: u8) -> Transport {
    Transport::new(sample_rate, bpm, numerator).unwrap()
}

fn beats(bits: u64) -> BeatTime {
    BeatTime::from_bits(bits)
}

#[test]
fn transport_rejects_zero_fields() {
    assert!(Transport::new(0, 120, 4).is_none());
    assert!(Transport::new(44100, 0, 4).is_none());
    assert!(Transport::new(44100, 120, 0).is_none());
    let t = transport(44100, 120, 4);
    assert_eq!(t.sample_rate(), 44100);
    assert_eq!(t.bpm(), 120);
    assert_eq!(t.numerator(), 4);
}

#[test]
fn transport_setters_replace_one_field() {
    let mut t = transport(44100, 120, 4);
    t.set_bpm(90);
    t.set_numerator(3);
    t.set_sample_rate(48000);
    assert_eq!((t.sample_rate(), t.bpm(), t.numerator()), (48000, 90, 3));
}

#[test]
fn fixed_point_units_and_ticks() {
    let x = FixedPoint::new(2, 5);
    assert_eq!(x.to_bits(), 2 * 28_224_000 + 5);
    assert_eq!(x.unit(), 2);
    assert_eq!(x.tick(), 5);
    assert_eq!(FixedPoint::from_bits(FACTOR - 1).unit(), 0);
    assert_eq!(FixedPoint::from_bits(FACTOR - 1).tick(), FACTOR - 1);
}

#[test]
fn fixed_point_rounding() {
    let four = FixedPoint::from_bits(4);
    assert_eq!(FixedPoint::from_bits(10).floor(four).to_bits(), 8);
    assert_eq!(FixedPoint::from_bits(10).ceil(four).to_bits(), 12);
    assert_eq!(FixedPoint::from_bits(8).ceil(four).to_bits(), 8);
    assert_eq!(FixedPoint::from_bits(10).round(four).to_bits(), 12);
    assert_eq!(FixedPoint::from_bits(9).round(four).to_bits(), 8);
    assert_eq!(FixedPoint::from_bits(11).round(four).to_bits(), 12);
}

#[test]
fn fixed_point_round_to_single_tick_steps_up() {
    // With a step of one tick the remainder is 0, which is not below 1 / 2 == 0.
    let one = FixedPoint::from_bits(1);
    assert_eq!(FixedPoint::from_bits(5).round(one).to_bits(), 6);
    assert_eq!(FixedPoint::from_bits(5).floor(one).to_bits(), 5);
    assert_eq!(FixedPoint::from_bits(5).ceil(one).to_bits(), 5);
}

#[test]
fn fixed_point_subtraction() {
    let a = FixedPoint::from_bits(3);
    let b = FixedPoint::from_bits(5);
    assert_eq!(a.checked_sub(b), None);
    assert_eq!(b.checked_sub(a), Some(FixedPoint::from_bits(2)));
    assert_eq!(a.saturating_sub(b).to_bits(), 0);
    assert_eq!(b.saturating_sub(a).to_bits(), 2);
    assert_eq!(a.abs_diff(b).to_bits(), 2);
    assert_eq!(b.abs_diff(a).to_bits(), 2);
    assert_eq!((a + b).to_bits(), 8);
    assert_eq!((b - a).to_bits(), 2);
}

#[test]
fn beat_time_bars_and_beats() {
    let t = transport(44100, 120, 4);
    let x = BeatTime::new(9, 7);
    assert_eq!(x.beat(), 9);
    assert_eq!(x.tick(), 7);
    assert_eq!(x.bar(&t), 2);
    assert_eq!(x.beat_in_bar(&t), 1);
    assert_eq!(BeatTime::bar_length(&t), BeatTime::new(4, 0));
    assert_eq!(BeatTime::zero().to_bits(), 0);
    assert_eq!(BeatTime::one_beat().to_bits(), FACTOR);
    assert_eq!(BeatTime::one_tick().to_bits(), 1);
}

#[test]
fn beat_time_snapping() {
    let t = transport(44100, 120, 3);
    let x = BeatTime::new(4, FACTOR / 2);
    assert_eq!(x.beat_floor(), BeatTime::new(4, 0));
    assert_eq!(x.beat_ceil(), BeatTime::new(5, 0));
    assert_eq!(x.beat_round(), BeatTime::new(5, 0));
    assert_eq!(BeatTime::new(4, FACTOR / 2 - 1).beat_round(), BeatTime::new(4, 0));
    assert_eq!(x.bar_floor(&t), BeatTime::new(3, 0));
    assert_eq!(x.bar_ceil(&t), BeatTime::new(6, 0));
    assert_eq!(x.bar_round(&t), BeatTime::new(6, 0));
    assert_eq!(BeatTime::new(4, 0).bar_round(&t), BeatTime::new(3, 0));
}

#[test]
fn beat_time_to_seconds_rounds_up() {
    let t = transport(44100, 120, 4);
    assert_eq!(BeatTime::new(1, 0).to_seconds_time(&t).to_bits(), FACTOR / 2);
    // One tick of a beat is half a tick of a second at 120 bpm; it rounds up to one.
    assert_eq!(beats(1).to_seconds_time(&t).to_bits(), 1);
    let slow = transport(44100, 7, 4);
    assert_eq!(beats(7).to_seconds_time(&slow).to_bits(), 60);
    assert_eq!(beats(8).to_seconds_time(&slow).to_bits(), 69);
}

#[test]
fn seconds_to_beats_rounds_down() {
    let t = transport(44100, 120, 4);
    assert_eq!(SecondsTime::new(1, 0).to_beat_time(&t), BeatTime::new(2, 0));
    let slow = transport(44100, 7, 4);
    assert_eq!(SecondsTime::from_bits(69).to_beat_time(&slow).to_bits(), 8);
    assert_eq!(SecondsTime::from_bits(60).to_beat_time(&slow).to_bits(), 7);
}

#[test]
fn frames_conversions() {
    let t = transport(44100, 120, 4);
    assert_eq!(SecondsTime::from_frames(44100, &t), SecondsTime::new(1, 0));
    assert_eq!(SecondsTime::from_frames(1, &t).to_bits(), 640);
    assert_eq!(SecondsTime::new(1, 0).to_frames(&t), 44100);
    assert_eq!(BeatTime::from_frames(22050, &t), BeatTime::new(1, 0));
    let t48 = transport(48000, 120, 4);
    assert_eq!(BeatTime::new(1, 0).to_frames(&t48), 24000);
    assert_eq!(SecondsTime::from_frames(48000, &t48).to_frames(&t48), 48000);
    assert_eq!(SecondsTime::from_bits(587).to_frames(&t48), 0);
    assert_eq!(SecondsTime::from_bits(588).to_frames(&t48), 1);
}

#[test]
fn seconds_time_snapping_and_subtraction() {
    let x = SecondsTime::new(2, FACTOR / 2);
    assert_eq!(x.second(), 2);
    assert_eq!(x.tick(), FACTOR / 2);
    assert_eq!(x.second_floor(), SecondsTime::new(2, 0));
    assert_eq!(x.second_ceil(), SecondsTime::new(3, 0));
    assert_eq!(x.second_round(), SecondsTime::new(3, 0));
    assert_eq!(SecondsTime::one_second().checked_sub(x), None);
    assert_eq!(x.saturating_sub(SecondsTime::new(5, 0)), SecondsTime::zero());
    assert_eq!(x.abs_diff(SecondsTime::new(3, 0)).to_bits(), FACTOR / 2);
    assert_eq!((x + SecondsTime::one_tick()).to_bits(), x.to_bits() + 1);
}

#[test]
fn beat_range_new_keeps_one_tick() {
    let r = BeatRange::new(beats(10), beats(3));
    assert_eq!((r.start(), r.end()), (beats(10), beats(11)));
    let r = BeatRange::new(beats(10), beats(20));
    assert_eq!((r.start(), r.end(), r.len()), (beats(10), beats(20), beats(10)));
    let d = BeatRange::default();
    assert_eq!((d.start(), d.end()), (beats(0), beats(1)));
}

#[test]
fn beat_range_trims_and_moves() {
    let mut r = BeatRange::new(beats(10), beats(20));
    r.trim_start_to(beats(25));
    assert_eq!((r.start(), r.end()), (beats(19), beats(20)));
    r.trim_start_to(beats(2));
    assert_eq!((r.start(), r.end()), (beats(2), beats(20)));
    r.trim_end_to(beats(1));
    assert_eq!((r.start(), r.end()), (beats(2), beats(3)));
    r.trim_end_to(beats(30));
    r.move_to(beats(100));
    assert_eq!((r.start(), r.end()), (beats(100), beats(128)));
    let moved = r + beats(5);
    assert_eq!((moved.start(), moved.end()), (beats(105), beats(133)));
}

#[test]
fn beat_range_saturating_sub_and_clamp() {
    let r = BeatRange::new(beats(10), beats(20));
    let s = r.saturating_sub(beats(15)).unwrap();
    assert_eq!((s.start(), s.end()), (beats(0), beats(5)));
    assert!(r.saturating_sub(beats(20)).is_none());
    let w = BeatRange::new(beats(12), beats(30));
    let c = r.clamp(w).unwrap();
    assert_eq!((c.start(), c.end()), (beats(12), beats(20)));
    assert!(r.clamp(BeatRange::new(beats(20), beats(25))).is_none());
}

#[test]
fn beat_range_snapping_branches() {
    let m = beats(10);
    // Ends land on different grid points.
    let r = BeatRange::new(beats(12), beats(27)).floor(m);
    assert_eq!((r.start(), r.end()), (beats(10), beats(20)));
    // Both land on the same point; the start moved less, so the range grows forward.
    let r = BeatRange::new(beats(21), beats(28)).floor(m);
    assert_eq!((r.start(), r.end()), (beats(20), beats(30)));
    // Both land on the same point; the end moved less, so the range grows backward.
    let r = BeatRange::new(beats(22), beats(29)).ceil(m);
    assert_eq!((r.start(), r.end()), (beats(20), beats(30)));
    let r = BeatRange::new(beats(14), beats(16)).round(m);
    assert_eq!((r.start(), r.end()), (beats(10), beats(20)));
    let t = transport(44100, 120, 4);
    let r = BeatRange::new(BeatTime::new(1, 0), BeatTime::new(6, 0)).bar_round(&t);
    assert_eq!((r.start(), r.end()), (BeatTime::new(0, 0), BeatTime::new(8, 0)));
    let r = BeatRange::new(BeatTime::new(1, 1), BeatTime::new(2, 1)).beat_ceil();
    assert_eq!((r.start(), r.end()), (BeatTime::new(2, 0), BeatTime::new(3, 0)));
}

#[test]
fn beat_range_to_samples() {
    let t = transport(48000, 120, 4);
    let r = BeatRange::new(BeatTime::new(1, 0), BeatTime::new(2, 0));
    assert_eq!(r.to_samples(&t), (24000, 48000));
}

#[test]
fn offset_beat_range_trim_start_keeps_content_anchored() {
    let mut r = OffsetBeatRange::new(BeatRange::new(beats(10), beats(20)), beats(5));
    r.trim_start_to(beats(13));
    assert_eq!((r.start(), r.end(), r.offset()), (beats(13), beats(20), beats(8)));
    r.trim_start_to(beats(2));
    assert_eq!((r.start(), r.end(), r.offset()), (beats(5), beats(20), beats(0)));
    r.trim_end_to(beats(9));
    assert_eq!((r.start(), r.end(), r.len()), (beats(5), beats(9), beats(4)));
    r.move_to(beats(50));
    assert_eq!((r.start(), r.end(), r.offset()), (beats(50), beats(54), beats(0)));
    let from = OffsetBeatRange::from(BeatRange::new(beats(1), beats(2)));
    assert_eq!((from.start(), from.offset()), (beats(1), beats(0)));
    assert_eq!(from.position(), BeatRange::new(beats(1), beats(2)));
}

#[test]
fn beat_span_ends_follow_tempo() {
    let t = transport(44100, 120, 4);
    let span = BeatSpan::new(BeatTime::new(2, 0), SecondsTime::new(1, 0));
    assert_eq!(span.start(), BeatTime::new(2, 0));
    assert_eq!(span.len(), SecondsTime::new(1, 0));
    assert_eq!(span.end(&t), BeatTime::new(4, 0));
    let mut moved = span;
    moved.move_to(BeatTime::new(10, 0));
    assert_eq!(moved.end(&t), BeatTime::new(12, 0));
    let mut trimmed = span;
    trimmed.trim_end_to(BeatTime::new(3, 0), &t);
    assert_eq!(trimmed.len(), SecondsTime::from_bits(FACTOR / 2));
    let mut trimmed = span;
    trimmed.trim_start_to(BeatTime::new(3, 0), &t);
    assert_eq!(trimmed.start(), BeatTime::new(3, 0));
    assert_eq!(trimmed.end(&t), BeatTime::new(4, 0));
}

#[test]
fn offset_beat_span_trims_end() {
    let t = transport(44100, 120, 4);
    let mut span = OffsetBeatSpan::new(
        BeatSpan::new(BeatTime::new(2, 0), SecondsTime::new(2, 0)),
        SecondsTime::new(1, 0),
    );
    span.trim_end_to(BeatTime::new(4, 0), &t);
    assert_eq!(span.len(), SecondsTime::new(1, 0));
    assert_eq!(span.offset(), SecondsTime::new(1, 0));
    span.move_to(BeatTime::new(0, 0));
    assert_eq!(span.start(), BeatTime::new(0, 0));
    assert_eq!(span.end(&t), BeatTime::new(2, 0));
}

#[test]
fn fades_fit_into_a_trimmed_clip() {
    let s = SecondsTime::from_bits;
    assert_eq!(fit_fades(s(30), s(50), s(60)), (s(30), s(30)));
    assert_eq!(fit_fades(s(80), s(5), s(60)), (s(60), s(0)));
    assert_eq!(fit_fades(s(10), s(20), s(60)), (s(10), s(20)));
}
