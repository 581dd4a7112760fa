use generic_daw_core::offset_position::OffsetPosition;
use generic_daw_core::position::{MusicalTime, Position};
use generic_daw_core::transport::Transport;

fn t(bits: u64) -> MusicalTime {
    MusicalTime::from_bits(bits)
}

#[test]
fn position_basics() {
    let p = Position::new(t(4), t(2));
    assert_eq!((p.start(), p.end(), p.len()), (t(4), t(5), t(1)));
    let d = Position::default();
    assert_eq!((d.start(), d.end()), (t(0), t(1)));
    let moved = Position::new(t(4), t(10)) + t(6);
    assert_eq!((moved.start(), moved.end()), (t(10), t(16)));
}

#[test]
fn position_moves_both_ways() {
    let mut p = Position::new(t(10), t(15));
    p.move_to(t(30));
    assert_eq!((p.start(), p.end()), (t(30), t(35)));
    p.move_to(t(2));
    assert_eq!((p.start(), p.end()), (t(2), t(7)));
}

#[test]
fn position_trims() {
    let mut p = Position::new(t(10), t(15));
    p.trim_start_to(t(40));
    assert_eq!((p.start(), p.end()), (t(14), t(15)));
    p.trim_end_to(t(3));
    assert_eq!((p.start(), p.end()), (t(14), t(15)));
    p.trim_end_to(t(20));
    assert_eq!((p.start(), p.end()), (t(14), t(20)));
}

#[test]
fn position_sub_and_clamp() {
    let p = Position::new(t(10), t(15));
    let s = p.saturating_sub(t(12)).unwrap();
    assert_eq!((s.start(), s.end()), (t(0), t(3)));
    assert!(p.saturating_sub(t(100)).is_none());
    let c = p.clamp(Position::new(t(0), t(12))).unwrap();
    assert_eq!((c.start(), c.end()), (t(10), t(12)));
    assert!(p.clamp(Position::new(t(15), t(20))).is_none());
}

#[test]
fn position_snapping() {
    let tr = Transport::new(44100, 120, 4).unwrap();
    let beat = MusicalTime::one_beat().to_bits();
    let p = Position::new(t(beat + 5), t(2 * beat - 5));
    let f = p.beat_floor();
    assert_eq!((f.start(), f.end()), (t(beat), t(2 * beat)));
    let c = p.beat_ceil();
    assert_eq!((c.start(), c.end()), (t(beat), t(2 * beat)));
    let r = p.beat_round();
    assert_eq!((r.start(), r.end()), (t(beat), t(2 * beat)));
    let b = p.bar_floor(&tr);
    assert_eq!((b.start(), b.end()), (t(0), t(4 * beat)));
    let p = Position::new(t(10), t(19));
    let r = p.round(t(10));
    assert_eq!((r.start(), r.end()), (t(10), t(20)));
    let f = p.floor(t(10));
    assert_eq!((f.start(), f.end()), (t(10), t(20)));
    let c = p.ceil(t(10));
    assert_eq!((c.start(), c.end()), (t(10), t(20)));
}

#[test]
fn offset_position_trim_start_shifts_offset() {
    let mut o = OffsetPosition::new(Position::new(t(10), t(20)), t(3));
    o.trim_start_to(t(0));
    assert_eq!((o.start(), o.end(), o.offset()), (t(7), t(20), t(0)));
    o.trim_start_to(t(12));
    assert_eq!((o.start(), o.offset(), o.len()), (t(12), t(5), t(8)));
    o.trim_end_to(t(30));
    o.move_to(t(100));
    assert_eq!((o.start(), o.end(), o.offset()), (t(100), t(118), t(5)));
    assert_eq!(o.position(), Position::new(t(100), t(118)));
    let from = OffsetPosition::from(Position::new(t(1), t(2)));
    assert_eq!(from.offset(), t(0));
}
