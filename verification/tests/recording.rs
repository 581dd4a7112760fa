use generic_daw_core::midi_input::MidiAction;
use generic_daw_core::midi_recording::MidiRecording;
use generic_daw_core::solo::TrackMutes;
use generic_daw_core::time::beat_time::BeatTime;
use generic_daw_core::transport::Transport;

fn bt(bits: u64) -> BeatTime {
    BeatTime::from_bits(bits)
}

fn notes_of(notes: &[generic_daw_core::midi_recording::RecordedNote]) -> Vec<(u8, u8, u64, u64)> {
    notes
        .iter()
        .map(|n| (n.key, n.velocity, n.position.start().to_bits(), n.position.end().to_bits()))
        .collect()
}

#[test]
fn recording_writes_notes_as_they_end() {
    let transport = Transport::new(44100, 120, 4).unwrap();
    let mut rec = MidiRecording::new(bt(100));
    rec.recorded(
        &[
            (bt(110), MidiAction::NoteOn(0, 60, 100)),
            (bt(150), MidiAction::NoteOff(0, 60, 0)),
            (bt(160), MidiAction::NoteOn(1, 62, 50)),
            (bt(170), MidiAction::NoteOn(1, 62, 70)),
            (bt(175), MidiAction::NoteOff(5, 1, 0)),
        ],
        4,
    );
    rec.recorded(&[(bt(180), MidiAction::NoteOn(2, 64, 30))], 6);
    assert_eq!(rec.len(&transport).to_bits(), 12800);
    assert_eq!(rec.end(&transport).to_bits(), 12900);
    let (range, notes) = rec.finalize(&transport);
    assert_eq!((range.start().to_bits(), range.end().to_bits()), (100, 12900));
    assert_eq!(
        notes_of(&notes),
        vec![
            (60, 100, 10, 50),
            (62, 50, 60, 70),
            (62, 70, 70, 12800),
            (64, 30, 80, 12800),
        ]
    );
}

#[test]
fn zero_length_notes_last_one_tick() {
    let transport = Transport::new(48000, 60, 4).unwrap();
    let mut rec = MidiRecording::new(bt(0));
    rec.recorded(
        &[(bt(5), MidiAction::NoteOn(0, 1, 1)), (bt(5), MidiAction::NoteOff(0, 1, 0))],
        0,
    );
    let (range, notes) = rec.finalize(&transport);
    assert_eq!((range.start().to_bits(), range.end().to_bits()), (0, 1));
    assert_eq!(notes_of(&notes), vec![(1, 1, 5, 6)]);
}

#[test]
fn solo_and_unsolo() {
    let mut m = TrackMutes::new();
    m.push_track();
    m.push_track();
    m.push_track();
    m.toggle_solo(1);
    assert_eq!(m.soloed(), Some(1));
    assert_eq!((m.enabled(0), m.enabled(1), m.enabled(2)), (false, true, false));
    m.toggle_solo(2);
    assert_eq!((m.enabled(0), m.enabled(1), m.enabled(2)), (false, false, true));
    m.toggle_solo(2);
    assert_eq!(m.soloed(), None);
    assert_eq!((m.enabled(0), m.enabled(1), m.enabled(2)), (true, true, true));
}

#[test]
fn toggling_a_track_ends_the_solo() {
    let mut m = TrackMutes::new();
    m.push_track();
    m.push_track();
    m.toggle_solo(0);
    m.toggle_enabled(0);
    assert_eq!(m.soloed(), None);
    assert_eq!((m.enabled(0), m.enabled(1)), (false, false));
    m.toggle_enabled(1);
    assert!(m.enabled(1));
}

#[test]
fn tracks_added_during_a_solo_stay_silent() {
    let mut m = TrackMutes::new();
    m.push_track();
    m.push_track();
    m.toggle_solo(1);
    m.push_track();
    assert_eq!(m.soloed(), Some(1));
    assert_eq!((m.enabled(0), m.enabled(1), m.enabled(2)), (false, true, false));
    m.remove_track(0);
    assert_eq!(m.soloed(), Some(0));
    assert_eq!((m.enabled(0), m.enabled(1)), (true, false));
    m.remove_track(0);
    assert_eq!(m.soloed(), None);
    assert!(!m.enabled(0));
}
