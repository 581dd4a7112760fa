use generic_daw_core::live_midi::{KeyCode, LiveMidiState, NoteEvent, NoteId};

#[test]
fn external_note_off_matches_oldest_active_voice() {
    let mut state = LiveMidiState::default();
    let first = state.note_on(0, 60, NoteId(1));
    let second = state.note_on(0, 60, NoteId(2));

    let Some(NoteEvent::Off { note_id, .. }) = state.note_off(0, 60) else {
        panic!("missing note off");
    };
    let NoteEvent::On { note_id: first_id, .. } = first else {
        unreachable!();
    };
    let NoteEvent::On { note_id: second_id, .. } = second else {
        unreachable!();
    };

    assert_eq!(note_id, first_id);

    let Some(NoteEvent::Off { note_id, .. }) = state.note_off(0, 60) else {
        panic!("missing second note off");
    };
    assert_eq!(note_id, second_id);
}

#[test]
fn typing_keyboard_tracks_press_and_release() {
    let mut state = LiveMidiState::default();

    let Some(NoteEvent::On { key, note_id }) = state.typing_press(KeyCode::KeyA, NoteId(7)) else {
        panic!("missing note on");
    };
    assert_eq!(key, 60);

    assert!(state.typing_press(KeyCode::KeyA, NoteId(8)).is_none());

    let Some(NoteEvent::Off { key: off_key, note_id: off_note_id }) =
        state.typing_release(KeyCode::KeyA)
    else {
        panic!("missing note off");
    };
    assert_eq!(off_key, key);
    assert_eq!(off_note_id, note_id);
}

#[test]
fn note_off_without_note_on_gives_nothing() {
    let mut state = LiveMidiState::default();
    state.note_on(1, 60, NoteId(1));
    assert!(state.note_off(0, 60).is_none());
    assert!(state.note_off(1, 61).is_none());
    assert_eq!(state.note_off(1, 60), Some(NoteEvent::Off { key: 60, note_id: NoteId(1) }));
    assert!(state.note_off(1, 60).is_none());
}

#[test]
fn octave_keys_shift_the_typed_notes_and_stop_at_the_ends() {
    let mut state = LiveMidiState::default();
    assert!(state.typing_press(KeyCode::KeyX, NoteId(0)).is_none());
    assert_eq!(
        state.typing_press(KeyCode::KeyA, NoteId(1)),
        Some(NoteEvent::On { key: 72, note_id: NoteId(1) })
    );
    for _ in 0..20 {
        state.typing_press(KeyCode::KeyZ, NoteId(0));
    }
    assert_eq!(
        state.typing_press(KeyCode::KeyS, NoteId(2)),
        Some(NoteEvent::On { key: 2, note_id: NoteId(2) })
    );
    for _ in 0..20 {
        state.typing_press(KeyCode::KeyX, NoteId(0));
    }
    // At octave 8, `K` would be key 120 and `J` key 119; both are MIDI keys.
    assert_eq!(
        state.typing_press(KeyCode::KeyK, NoteId(3)),
        Some(NoteEvent::On { key: 120, note_id: NoteId(3) })
    );
    assert!(state.typing_press(KeyCode::Other, NoteId(4)).is_none());
}

#[test]
fn release_all_stops_typed_notes_first_then_external_ones() {
    let mut state = LiveMidiState::default();
    state.note_on(0, 50, NoteId(1));
    state.typing_press(KeyCode::KeyD, NoteId(2));
    state.note_on(3, 51, NoteId(3));
    let events = state.release_all();
    assert_eq!(
        events,
        vec![
            NoteEvent::Off { key: 64, note_id: NoteId(2) },
            NoteEvent::Off { key: 50, note_id: NoteId(1) },
            NoteEvent::Off { key: 51, note_id: NoteId(3) },
        ]
    );
    assert!(state.release_all().is_empty());
    assert!(state.typing_release(KeyCode::KeyD).is_none());
}
