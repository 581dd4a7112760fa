use generic_daw_core::midi_input::{midi_action, LiveMessage, MidiAction, MidiClock, MidiInputDecoder, TimedMidiAction};
use generic_daw_core::track_input::{take_input_channels, listens, live_note_id, replay_held, routed_midi, HeldNote, PolyphonyWatch, TrackInput};
use generic_daw_core::stream::Channels;

#[test]
fn note_on_with_zero_velocity_stops_the_note() {
    assert_eq!(
        midi_action(LiveMessage::NoteOn { channel: 2, key: 60, vel: 0 }),
        Some(MidiAction::NoteOff(2, 60, 0))
    );
    assert_eq!(
        midi_action(LiveMessage::NoteOn { channel: 2, key: 60, vel: 90 }),
        Some(MidiAction::NoteOn(2, 60, 90))
    );
    assert_eq!(
        midi_action(LiveMessage::NoteOff { channel: 1, key: 61, vel: 64 }),
        Some(MidiAction::NoteOff(1, 61, 64))
    );
    assert_eq!(midi_action(LiveMessage::Other), None);
    assert_eq!(midi_action(LiveMessage::Invalid), None);
    assert_eq!(MidiAction::NoteOff(7, 1, 1).channel(), 7);
}

#[test]
fn decoder_parses_raw_bytes_and_times_from_first_message() {
    let mut d = MidiInputDecoder::new();
    assert_eq!(
        d.decode(1000, &[0x90, 60, 100]),
        Some(TimedMidiAction { ts: 0, action: MidiAction::NoteOn(0, 60, 100) })
    );
    assert_eq!(
        d.decode(1500, &[0x93, 60, 0]),
        Some(TimedMidiAction { ts: 500, action: MidiAction::NoteOff(3, 60, 0) })
    );
    assert_eq!(
        d.decode(2000, &[0x81, 62, 64]),
        Some(TimedMidiAction { ts: 1000, action: MidiAction::NoteOff(1, 62, 64) })
    );
    assert_eq!(d.decode(2500, &[0xB0, 7, 100]), None);
    assert_eq!(d.decode(3000, &[]), None);
}

#[test]
fn decoder_first_message_fixes_the_origin_even_when_ignored() {
    let mut d = MidiInputDecoder::new();
    assert_eq!(d.decode(40, &[0xB0, 7, 100]), None);
    assert_eq!(
        d.decode(100, &[0x90, 1, 2]),
        Some(TimedMidiAction { ts: 60, action: MidiAction::NoteOn(0, 1, 2) })
    );
}

#[test]
fn clock_places_messages_within_the_block() {
    let mut c = MidiClock::new();
    assert_eq!(c.place(0, 48000, 512), 0);
    c.advance(512);
    assert_eq!(c.place(20_000, 48000, 512), 448);
    // A message that arrives later than the block can hold pulls the block forward.
    assert_eq!(c.place(40_000, 48000, 512), 511);
    // One that arrives earlier than the block's start pulls it back.
    assert_eq!(c.place(5_000, 48000, 512), 0);
}

#[test]
fn clock_without_messages_does_not_advance() {
    let mut c = MidiClock::new();
    c.advance(512);
    assert_eq!(c.place(1_000_000, 44100, 64), 0);
}

#[test]
fn channel_mask_bits() {
    assert!(listens(0b101, 0));
    assert!(!listens(0b101, 1));
    assert!(listens(0b101, 2));
    assert!(listens(0x8000, 15));
    assert!(!listens(0x7fff, 15));
}

#[test]
fn live_note_ids_count_down_from_i32_max() {
    assert_eq!(live_note_id(0), i32::MAX as u32 - 1);
    assert_eq!(live_note_id(15), i32::MAX as u32 - 16);
}

#[test]
fn routing_keeps_actions_on_listened_channels_in_order() {
    let actions = [
        MidiAction::NoteOn(0, 60, 100),
        MidiAction::NoteOn(1, 61, 100),
        MidiAction::NoteOff(3, 61, 0),
        MidiAction::NoteOff(1, 61, 0),
    ];
    assert_eq!(
        routed_midi(0b1010, &actions),
        vec![
            MidiAction::NoteOn(1, 61, 100),
            MidiAction::NoteOff(3, 61, 0),
            MidiAction::NoteOff(1, 61, 0)
        ]
    );
    assert!(routed_midi(0, &actions).is_empty());
}

#[test]
fn held_notes_replay_on_new_channels() {
    let held = [
        HeldNote { channel: 0, key: 60, vel: 90 },
        HeldNote { channel: 4, key: 64, vel: 80 },
    ];
    assert_eq!(replay_held(0b1_0000, &held), vec![MidiAction::NoteOn(4, 64, 80)]);

    let mut input = TrackInput::new(Channels::base(2));
    let change = input.set_midi_recording(true, &held);
    assert!(!change.midi_interrupted && change.replay.is_empty());

    let change = input.set_channels(Channels::base(2).midi(0b1_0001), &held);
    assert!(change.midi_interrupted);
    assert!(!change.audio_interrupted);
    assert_eq!(
        change.replay,
        vec![MidiAction::NoteOn(0, 60, 90), MidiAction::NoteOn(4, 64, 80)]
    );
    assert_eq!(input.channels.midi, 0b1_0001);

    let change = input.set_midi_recording(true, &held);
    assert_eq!(change.replay.len(), 2);
    assert!(input.set_midi_recording(false, &held).midi_interrupted);
}

#[test]
fn audio_recording_is_cut_when_audio_channels_move() {
    let mut input = TrackInput::new(Channels::base(2));
    assert!(!input.set_channels(Channels::base(2).left(1), &[]).audio_interrupted);
    assert!(!input.set_audio_recording(true));
    assert!(!input.set_channels(Channels::base(2).left(1).midi(3), &[]).audio_interrupted);
    assert!(input.set_channels(Channels::base(2), &[]).audio_interrupted);
    assert!(input.set_audio_recording(false));
}

#[test]
fn polyphony_reports_only_changes() {
    let mut w = PolyphonyWatch::default();
    assert_eq!(w.observe(0), None);
    assert_eq!(w.observe(3), Some(3));
    assert_eq!(w.observe(3), None);
    assert_eq!(w.observe(1), Some(1));
}

#[test]
fn input_channels_are_taken_from_interleaved_frames() {
    let input = [10, 11, 12, 20, 21, 22, 30, 31];
    let mut out = vec![[0, 0]; 4];
    take_input_channels(&input, 3, 2, 0, &mut out);
    assert_eq!(out, vec![[12, 10], [22, 20], [0, 0], [0, 0]]);
    let mut short = vec![[9, 9]; 1];
    take_input_channels(&input, 2, 1, 1, &mut short);
    assert_eq!(short, vec![[11, 11]]);
}

#[test]
fn decoder_reads_notes_only_from_whole_note_messages() {
    let mut d = MidiInputDecoder::new();
    assert_eq!(d.decode(0, &[0x9F, 64, 1, 0x40]), Some(TimedMidiAction { ts: 0, action: MidiAction::NoteOn(15, 64, 1) }));
    // A data byte with its top bit set cuts the message short.
    assert_eq!(d.decode(10, &[0x90, 0x80, 1]), None);
    assert_eq!(d.decode(20, &[0x90, 60, 0x80]), None);
    assert_eq!(d.decode(30, &[0x90, 60]), None);
    assert_eq!(d.decode(40, &[60, 100]), None);
}
