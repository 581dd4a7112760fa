use generic_daw_core::pattern::{select_all, select_inverse, Pattern, PatternAction, PatternNote};
use generic_daw_core::time::beat_range::BeatRange;
use generic_daw_core::time::beat_time::BeatTime;
use std::collections::HashSet;

fn bt(bits: u64) -> BeatTime {
    BeatTime::from_bits(bits)
}

fn note(key: u8, start: u64, end: u64) -> PatternNote<f32> {
    PatternNote { key, velocity: 0.5, position: BeatRange::new(bt(start), bt(end)) }
}

fn view(p: &Pattern<f32>) -> Vec<(u8, u64, u64)> {
    (0..p.note_count())
        .map(|i| {
            let n = p.note(i);
            (n.key, n.position.start().to_bits(), n.position.end().to_bits())
        })
        .collect()
}

#[test]
fn pattern_edits() {
    let mut p = Pattern::new(7, vec![note(60, 0, 10)]);
    assert_eq!(p.id(), 7);
    p.apply(PatternAction::Add(note(62, 5, 25)));
    p.apply(PatternAction::ChangeKey(0, 61));
    p.apply(PatternAction::MoveTo(0, bt(40)));
    assert_eq!(view(&p), vec![(61, 40, 50), (62, 5, 25)]);
    p.apply(PatternAction::TrimStartTo(1, bt(30)));
    assert_eq!(view(&p)[1], (62, 24, 25));
    p.apply(PatternAction::TrimEndTo(1, bt(0)));
    assert_eq!(view(&p)[1], (62, 24, 25));
    p.apply(PatternAction::TrimEndTo(1, bt(100)));
    assert_eq!(p.end(), bt(100));
    p.apply(PatternAction::Remove(1));
    assert_eq!(view(&p), vec![(61, 40, 50)]);
    assert_eq!(p.end(), bt(50));
    assert_eq!(p.note(0).velocity, 0.5);
    p.apply(PatternAction::Remove(0));
    assert_eq!(p.end(), bt(0));
}

#[test]
fn split_at_cuts_selected_notes() {
    let mut p = Pattern::new(
        1,
        vec![note(60, 0, 10), note(61, 5, 20), note(62, 20, 30), note(63, 12, 18), note(64, 14, 15)],
    );
    let mut primary: HashSet<usize> = [0, 1, 2, 3].into_iter().collect();
    let mut secondary: HashSet<usize> = [9].into_iter().collect();
    p.split_at(bt(14), &mut primary, &mut secondary);
    // Note 0 ends before 14 and drops out; notes 1 and 3 are cut; note 2 is untouched by 14
    // and drops out too; note 4 was not selected.
    assert_eq!(
        view(&p),
        vec![
            (60, 0, 10),
            (61, 5, 14),
            (61, 14, 20),
            (62, 20, 30),
            (63, 12, 14),
            (63, 14, 18),
            (64, 14, 15)
        ]
    );
    let mut prim: Vec<usize> = primary.into_iter().collect();
    prim.sort();
    let mut sec: Vec<usize> = secondary.into_iter().collect();
    sec.sort();
    assert_eq!(prim, vec![1, 4]);
    assert_eq!(sec, vec![2, 5, 9]);
}

#[test]
fn split_at_an_edge_keeps_the_note_whole() {
    let mut p = Pattern::new(1, vec![note(60, 0, 10), note(61, 10, 20)]);
    let mut primary: HashSet<usize> = [0, 1].into_iter().collect();
    let mut secondary: HashSet<usize> = HashSet::new();
    p.split_at(bt(10), &mut primary, &mut secondary);
    assert_eq!(view(&p), vec![(60, 0, 10), (61, 10, 20)]);
    assert_eq!(primary.into_iter().collect::<Vec<_>>(), vec![0]);
    assert_eq!(secondary.into_iter().collect::<Vec<_>>(), vec![1]);
}

#[test]
fn drag_split_moves_the_meeting_point_within_bounds() {
    let make = || {
        Pattern::new(
            1,
            vec![note(60, 0, 10), note(60, 10, 20), note(61, 5, 8), note(61, 30, 40), note(62, 0, 5)],
        )
    };
    let left: HashSet<usize> = [0, 2].into_iter().collect();
    let right: HashSet<usize> = [1, 3].into_iter().collect();

    let mut p = make();
    p.drag_split(bt(15), &left, &right);
    assert_eq!(
        view(&p),
        vec![(60, 0, 15), (60, 15, 20), (61, 5, 15), (61, 15, 40), (62, 0, 5)]
    );

    let mut p = make();
    p.drag_split(bt(25), &left, &right);
    assert_eq!(view(&p)[..2], [(60, 0, 19), (60, 19, 20)]);
    assert_eq!(view(&p)[2..4], [(61, 5, 25), (61, 25, 40)]);

    let mut p = make();
    p.drag_split(bt(0), &left, &right);
    assert_eq!(view(&p)[..4], [(60, 0, 1), (60, 1, 20), (61, 5, 6), (61, 6, 40)]);
}

#[test]
fn quantize_rounds_selected_notes() {
    let mut p = Pattern::new(1, vec![note(60, 12, 27), note(61, 3, 9)]);
    p.quantize(&[0].into_iter().collect(), bt(10));
    assert_eq!(view(&p), vec![(60, 10, 30), (61, 3, 9)]);
}

#[test]
fn select_all_and_inverse() {
    let mut s: HashSet<usize> = [1, 7].into_iter().collect();
    select_inverse(&mut s, 4);
    let mut v: Vec<usize> = s.iter().copied().collect();
    v.sort();
    assert_eq!(v, vec![0, 2, 3, 7]);
    select_all(&mut s, 3);
    let mut v: Vec<usize> = s.into_iter().collect();
    v.sort();
    assert_eq!(v, vec![0, 1, 2]);
}

#[test]
fn delete_selected_notes() {
    let mut p = Pattern::new(1, vec![note(60, 0, 1), note(61, 0, 1), note(62, 0, 1)]);
    let mut sel: HashSet<usize> = [0, 2].into_iter().collect();
    p.delete_selected(&mut sel);
    assert_eq!(view(&p), vec![(61, 0, 1)]);
    assert!(sel.is_empty());
}
