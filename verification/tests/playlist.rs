use generic_daw_core::playlist::{drag, duplicate, selection_span, Clip, Delta, TrackClips};
use generic_daw_core::selection::selection_after_removing;
use generic_daw_core::time::beat_range::BeatRange;
use generic_daw_core::time::beat_span::BeatSpan;
use generic_daw_core::time::beat_time::BeatTime;
use generic_daw_core::time::offset_beat_range::OffsetBeatRange;
use generic_daw_core::time::offset_beat_span::OffsetBeatSpan;
use generic_daw_core::time::seconds_time::SecondsTime;
use generic_daw_core::transport::Transport;
use std::collections::HashSet;

fn bt(bits: u64) -> BeatTime {
    BeatTime::from_bits(bits)
}

fn midi(start: u64, end: u64, offset: u64) -> Clip {
    Clip::Midi(OffsetBeatRange::new(BeatRange::new(bt(start), bt(end)), bt(offset)))
}

fn audio(start: u64, seconds: u64) -> Clip {
    Clip::Audio(OffsetBeatSpan::new(BeatSpan::new(bt(start), SecondsTime::from_bits(seconds)), SecondsTime::zero()))
}

fn view(t: &TrackClips, transport: &Transport) -> Vec<(char, u64, u64, u64)> {
    (0..t.clip_count())
        .map(|i| match t.clip(i) {
            Clip::Midi(r) => ('m', r.start().to_bits(), r.end().to_bits(), r.offset().to_bits()),
            Clip::Audio(s) => ('a', s.start().to_bits(), s.end(transport).to_bits(), s.offset().to_bits()),
        })
        .collect()
}

fn set(items: &[usize]) -> HashSet<usize> {
    items.iter().copied().collect()
}

fn transport() -> Transport {
    Transport::new(44100, 120, 4).unwrap()
}

#[test]
fn trims_move_selected_clip_edges() {
    let tr = transport();
    let mut t = TrackClips::new(vec![midi(10, 20, 5), midi(30, 40, 0), audio(50, 10)]);
    t.trim_end(&set(&[0, 2]), Delta::Later(bt(5)), &tr);
    assert_eq!(view(&t, &tr)[..2], [('m', 10, 25, 5), ('m', 30, 40, 0)]);
    // 25 beats are 12.5 seconds' ticks at 120 bpm, rounded up to 13, which reach 26 beats.
    assert_eq!(view(&t, &tr)[2], ('a', 50, 76, 0));
    let requests = t.trim_start(&set(&[0, 1, 2]), Delta::Earlier(bt(2)));
    // The second clip has no offset left to move its start earlier into.
    assert_eq!(view(&t, &tr)[..2], [('m', 8, 25, 3), ('m', 30, 40, 0)]);
    assert_eq!(requests, vec![(2, bt(48))]);
}

#[test]
fn clone_appends_copies_and_selects_them() {
    let tr = transport();
    let mut t = TrackClips::new(vec![midi(0, 10, 0), midi(10, 20, 0), midi(20, 30, 0)]);
    let mut primary = set(&[2, 0]);
    t.clone_selected(&mut primary);
    assert_eq!(view(&t, &tr)[3..], [('m', 0, 10, 0), ('m', 20, 30, 0)]);
    assert_eq!(primary, set(&[3, 4]));
}

#[test]
fn split_cuts_clips_and_leaves_audio_starts_to_the_caller() {
    let tr = transport();
    let mut t = TrackClips::new(vec![midi(0, 20, 4), audio(5, 10), midi(30, 40, 0)]);
    let mut primary = set(&[0, 1, 2]);
    let mut secondary = HashSet::new();
    let requests = t.split_at(bt(10), &mut primary, &mut secondary, &tr);
    let v = view(&t, &tr);
    assert_eq!(v[0], ('m', 0, 10, 4));
    assert_eq!(v[1], ('m', 10, 20, 14));
    assert_eq!(v[2].1, 5);
    assert_eq!(v[3], ('a', 5, 25, 0));
    assert_eq!(v[4], ('m', 30, 40, 0));
    assert_eq!(requests, vec![3]);
    assert_eq!(primary, set(&[0, 2]));
    assert_eq!(secondary, set(&[1, 3]));
}

#[test]
fn drag_split_meets_within_bounds() {
    let tr = transport();
    let mut t = TrackClips::new(vec![midi(0, 10, 0), midi(10, 20, 10)]);
    let (requests, point) = t.drag_split(bt(25), &set(&[0]), &set(&[1]), &tr);
    assert!(requests.is_empty());
    assert_eq!(point, bt(19));
    assert_eq!(view(&t, &tr), vec![('m', 0, 19, 0), ('m', 19, 20, 19)]);
}

#[test]
fn delete_keeps_the_other_clips_in_order() {
    let tr = transport();
    let mut t = TrackClips::new(vec![midi(0, 10, 0), midi(10, 20, 0), midi(20, 30, 0), midi(30, 40, 0)]);
    let mut primary = set(&[1, 3, 9]);
    t.delete_selected(&mut primary);
    assert_eq!(view(&t, &tr), vec![('m', 0, 10, 0), ('m', 20, 30, 0)]);
    assert!(primary.is_empty());
}

#[test]
fn selection_after_removing_clips() {
    let removed = set(&[0, 2, 5]);
    assert_eq!(selection_after_removing((1, 4), 1, &removed), Some((1, 2)));
    assert_eq!(selection_after_removing((1, 2), 1, &removed), None);
    assert_eq!(selection_after_removing((0, 4), 1, &removed), Some((0, 4)));
}

fn starts(t: &TrackClips, transport: &Transport) -> Vec<(char, u64)> {
    view(t, transport).iter().map(|&(k, s, _, _)| (k, s)).collect()
}

#[test]
fn drag_to_later_tracks_moves_clips_and_appends_them() {
    let tr = transport();
    let mut tracks = vec![
        TrackClips::new(vec![midi(0, 10, 0), midi(20, 30, 0), audio(40, 10)]),
        TrackClips::new(vec![midi(5, 6, 0)]),
        TrackClips::new(vec![]),
    ];
    let selected = vec![set(&[0, 2]), set(&[0]), set(&[])];
    let placed = drag(&mut tracks, &selected, 1, Delta::Later(bt(3)));
    assert_eq!(view(&tracks[0], &tr), [('m', 20, 30, 0)]);
    assert_eq!(starts(&tracks[1], &tr), [('a', 43), ('m', 3)]);
    assert_eq!(view(&tracks[1], &tr)[1], ('m', 3, 13, 0));
    // The last track is as far as a clip goes.
    assert_eq!(view(&tracks[2], &tr), [('m', 8, 9, 0)]);
    assert_eq!(placed, vec![(2, 0), (1, 0), (1, 1)]);
}

#[test]
fn drag_to_earlier_tracks_stops_at_the_first_and_at_zero() {
    let tr = transport();
    let mut tracks = vec![
        TrackClips::new(vec![midi(2, 4, 1)]),
        TrackClips::new(vec![midi(10, 12, 0), midi(1, 3, 0)]),
    ];
    let selected = vec![set(&[0]), set(&[0, 1])];
    let placed = drag(&mut tracks, &selected, -1, Delta::Earlier(bt(5)));
    assert_eq!(view(&tracks[0], &tr), [('m', 0, 2, 1), ('m', 0, 2, 0), ('m', 5, 7, 0)]);
    assert_eq!(view(&tracks[1], &tr), []);
    assert_eq!(placed, vec![(0, 0), (0, 1), (0, 2)]);
}

#[test]
fn drag_within_tracks_keeps_clip_indices() {
    let tr = transport();
    let mut tracks = vec![TrackClips::new(vec![midi(0, 4, 0), audio(8, 2), midi(16, 20, 2)])];
    let selected = vec![set(&[1, 2])];
    let placed = drag(&mut tracks, &selected, 0, Delta::Later(bt(4)));
    assert_eq!(starts(&tracks[0], &tr), [('m', 0), ('a', 12), ('m', 20)]);
    assert_eq!(view(&tracks[0], &tr)[2], ('m', 20, 24, 2));
    assert_eq!(placed, vec![(0, 2), (0, 1)]);
}

#[test]
fn selection_span_runs_from_earliest_start_to_latest_end() {
    let tr = transport();
    let tracks = vec![
        TrackClips::new(vec![midi(4, 10, 0), midi(20, 30, 0)]),
        TrackClips::new(vec![midi(2, 8, 0), midi(12, 16, 1)]),
    ];
    let span = selection_span(&tracks, &vec![set(&[0]), set(&[1])], &tr);
    assert_eq!(span, Some((bt(4), bt(16))));
    assert_eq!(selection_span(&tracks, &vec![set(&[]), set(&[])], &tr), None);
}

#[test]
fn duplicate_places_copies_after_the_selection() {
    let tr = transport();
    let mut tracks = vec![
        TrackClips::new(vec![midi(0, 10, 0), midi(20, 30, 0)]),
        TrackClips::new(vec![midi(12, 16, 1)]),
    ];
    let mut selected = vec![set(&[0]), set(&[0])];
    let r = duplicate(&mut tracks, &mut selected, &tr);
    assert_eq!(r, Some((bt(16), vec![(0, 2), (1, 1)])));
    assert_eq!(view(&tracks[0], &tr), [('m', 0, 10, 0), ('m', 20, 30, 0), ('m', 16, 26, 0)]);
    assert_eq!(view(&tracks[1], &tr), [('m', 12, 16, 1), ('m', 28, 32, 1)]);
    assert_eq!(selected, vec![set(&[2]), set(&[1])]);
}

#[test]
fn duplicate_without_a_selection_changes_nothing() {
    let tr = transport();
    let mut tracks = vec![TrackClips::new(vec![midi(0, 10, 0)])];
    let mut selected = vec![set(&[])];
    assert_eq!(duplicate(&mut tracks, &mut selected, &tr), None);
    assert_eq!(view(&tracks[0], &tr), [('m', 0, 10, 0)]);
}
