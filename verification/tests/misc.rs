use generic_daw_core::arrangement_view::{
    added_midi_clip_range, keybinds, select_next, select_prev, view_step, NodeId, NodeType, Tab,
    ViewAction, ViewMessage, ViewState,
};
use generic_daw_core::playlist::Delta;
use generic_daw_core::time::beat_time::BeatTime;
use generic_daw_core::commands::{ArrangementMessage, KeyPress, Modifiers, NamedKey};
use generic_daw_core::daw::{daw_keybinds, DawMessage};
use generic_daw_core::resample::gcd;
use generic_daw_core::selection::update_selection;
use generic_daw_core::text::{contains, is_whitespace, lower, trimmed_lower};

fn named(k: NamedKey) -> KeyPress {
    KeyPress { named: Some(k), latin: None }
}

fn latin(c: char) -> KeyPress {
    KeyPress { named: None, latin: Some(c) }
}

const PLAIN: Modifiers = Modifiers { command: false, shift: false, alt: false };
const CMD: Modifiers = Modifiers { command: true, shift: false, alt: false };

#[test]
fn plain_keys() {
    assert_eq!(keybinds(named(NamedKey::Tab), PLAIN, false), Some(ArrangementMessage::CycleTabForwards));
    assert_eq!(keybinds(named(NamedKey::Backspace), PLAIN, false), Some(ArrangementMessage::Delete));
    assert_eq!(keybinds(named(NamedKey::Escape), PLAIN, false), Some(ArrangementMessage::UnselectAll));
    assert_eq!(keybinds(named(NamedKey::ArrowUp), PLAIN, false), Some(ArrangementMessage::ArrowUp));
    assert_eq!(keybinds(named(NamedKey::Space), PLAIN, false), None);
}

#[test]
fn held_keys_repeat_only_some_bindings() {
    assert_eq!(keybinds(named(NamedKey::Delete), PLAIN, true), Some(ArrangementMessage::Delete));
    assert_eq!(keybinds(named(NamedKey::ArrowLeft), PLAIN, true), Some(ArrangementMessage::ArrowLeft));
    assert_eq!(keybinds(named(NamedKey::Tab), PLAIN, true), None);
    assert_eq!(keybinds(named(NamedKey::Escape), PLAIN, true), None);
    assert_eq!(keybinds(latin('d'), CMD, true), Some(ArrangementMessage::Duplicate));
    assert_eq!(keybinds(latin('a'), CMD, true), None);
}

#[test]
fn modified_keys() {
    assert_eq!(keybinds(latin('a'), CMD, false), Some(ArrangementMessage::SelectAll));
    assert_eq!(keybinds(latin('i'), CMD, false), Some(ArrangementMessage::SelectInverse));
    assert_eq!(keybinds(named(NamedKey::ArrowDown), CMD, false), Some(ArrangementMessage::TransposeOctDown));
    let shift = Modifiers { command: false, shift: true, alt: false };
    assert_eq!(keybinds(named(NamedKey::Tab), shift, false), Some(ArrangementMessage::CycleTabBackwards));
    let alt = Modifiers { command: false, shift: false, alt: true };
    assert_eq!(keybinds(latin('q'), alt, false), Some(ArrangementMessage::Quantize));
    assert_eq!(keybinds(latin('q'), alt, true), None);
    let all = Modifiers { command: true, shift: true, alt: true };
    assert_eq!(keybinds(latin('a'), all, false), None);
}

#[test]
fn selection_moves_between_tracks() {
    let tracks = [NodeId(10), NodeId(20), NodeId(30)];
    let channels = [NodeId(40), NodeId(50)];
    let master = NodeId(1);
    assert_eq!(select_next(NodeId(10), false, &tracks, &channels, master), NodeId(20));
    assert_eq!(select_next(NodeId(30), false, &tracks, &channels, master), NodeId(40));
    assert_eq!(select_next(NodeId(30), false, &tracks, &[], master), NodeId(30));
    assert_eq!(select_prev(NodeId(20), false, &tracks, &channels, master), NodeId(10));
    assert_eq!(select_prev(NodeId(10), false, &tracks, &channels, master), master);
}

#[test]
fn selection_moves_between_channels() {
    let tracks = [NodeId(10), NodeId(20)];
    let channels = [NodeId(40), NodeId(50)];
    let master = NodeId(1);
    assert_eq!(select_next(NodeId(40), true, &tracks, &channels, master), NodeId(50));
    assert_eq!(select_next(NodeId(50), true, &tracks, &channels, master), NodeId(50));
    assert_eq!(select_prev(NodeId(50), true, &tracks, &channels, master), NodeId(40));
    assert_eq!(select_prev(NodeId(40), true, &tracks, &channels, master), NodeId(20));
    assert_eq!(select_prev(NodeId(40), true, &[], &channels, master), master);
    assert_eq!(select_next(NodeId(1), true, &[], &[], master), master);
}

#[test]
fn selection_after_removing_a_track() {
    assert_eq!(update_selection((2, 5), 2, None), None);
    assert_eq!(update_selection((2, 5), 1, None), Some((1, 5)));
    assert_eq!(update_selection((2, 5), 3, None), Some((2, 5)));
}

#[test]
fn selection_after_removing_a_clip() {
    assert_eq!(update_selection((2, 5), 2, Some(5)), None);
    assert_eq!(update_selection((2, 5), 2, Some(3)), Some((2, 4)));
    assert_eq!(update_selection((2, 5), 2, Some(7)), Some((2, 5)));
    assert_eq!(update_selection((2, 5), 1, Some(0)), Some((1, 5)));
}

#[test]
fn gcd_of_sample_rates() {
    assert_eq!(gcd(44100, 48000), 300);
    assert_eq!(gcd(48000, 96000), 48000);
    assert_eq!(gcd(7, 0), 7);
    assert_eq!(gcd(0, 9), 9);
    assert_eq!(gcd(0, 0), 0);
}

#[test]
fn text_helpers() {
    assert!(is_whitespace(' '));
    assert!(is_whitespace('\u{3000}'));
    assert!(!is_whitespace('x'));
    assert_eq!(trimmed_lower("  Save AS\t"), "save as".chars().collect::<Vec<_>>());
    assert_eq!(lower("ÄbC"), "Äbc".chars().collect::<Vec<_>>());
    let hay: Vec<char> = "export project".chars().collect();
    assert!(contains(&hay, &"proj".chars().collect()));
    assert!(contains(&hay, &Vec::new()));
    assert!(!contains(&hay, &"pro j".chars().collect()));
}

#[test]
fn main_window_keys() {
    let shift = Modifiers { command: false, shift: true, alt: false };
    let cmd_shift = Modifiers { command: true, shift: true, alt: false };
    let alt = Modifiers { command: false, shift: false, alt: true };
    let shift_alt = Modifiers { command: false, shift: true, alt: true };
    assert_eq!(daw_keybinds(named(NamedKey::Space), PLAIN, false), Some(DawMessage::TogglePlayback));
    assert_eq!(daw_keybinds(named(NamedKey::Space), shift, false), Some(DawMessage::Stop));
    assert_eq!(daw_keybinds(named(NamedKey::Space), PLAIN, true), None);
    assert_eq!(daw_keybinds(latin('s'), CMD, false), Some(DawMessage::SaveFile));
    assert_eq!(daw_keybinds(latin('s'), cmd_shift, false), Some(DawMessage::SaveAsFileDialog));
    assert_eq!(daw_keybinds(latin('3'), CMD, false), Some(DawMessage::ToggleGridTriplets));
    assert_eq!(daw_keybinds(named(NamedKey::ArrowDown), alt, false), Some(DawMessage::BottomSelected(true)));
    assert_eq!(daw_keybinds(named(NamedKey::ArrowUp), shift_alt, false), Some(DawMessage::MovePaneUp));
    assert_eq!(daw_keybinds(latin('x'), CMD, false), None);
}

#[test]
fn view_step_cycles_tabs_and_dispatches() {
    let mut s = ViewState {
        tab: Tab::Playlist,
        midi_clip: None,
        selected: NodeId(7),
        selected_type: NodeType::Track,
        soloed: None,
    };
    assert_eq!(view_step(&mut s, ViewMessage::CycleTabForwards), vec![ViewAction::FinishPlaylist]);
    assert_eq!(s.tab, Tab::Mixer);
    assert!(view_step(&mut s, ViewMessage::CycleTabForwards).is_empty());
    assert_eq!(s.tab, Tab::Playlist);
    s.midi_clip = Some((0, 1));
    view_step(&mut s, ViewMessage::CycleTabBackwards);
    assert_eq!(s.tab, Tab::PianoRoll);
    assert_eq!(
        view_step(&mut s, ViewMessage::Delete),
        vec![ViewAction::FinishPianoRoll, ViewAction::DeletePianoRollSelection]
    );
    view_step(&mut s, ViewMessage::ChangedTab(Tab::Mixer));
    assert_eq!(view_step(&mut s, ViewMessage::Delete), vec![ViewAction::RemoveTrack(NodeId(7))]);
    assert!(view_step(&mut s, ViewMessage::UnselectAll).is_empty());
}

#[test]
fn view_step_solo() {
    let mut s = ViewState {
        tab: Tab::Mixer,
        midi_clip: None,
        selected: NodeId(1),
        selected_type: NodeType::Master,
        soloed: None,
    };
    assert_eq!(view_step(&mut s, ViewMessage::TrackToggleSolo(NodeId(3))), vec![ViewAction::SoloTrack(NodeId(3))]);
    assert_eq!(s.soloed, Some(NodeId(3)));
    assert_eq!(view_step(&mut s, ViewMessage::TrackToggleSolo(NodeId(3))), vec![ViewAction::EnableAllTracks]);
    assert_eq!(s.soloed, None);
    view_step(&mut s, ViewMessage::TrackToggleSolo(NodeId(4)));
    assert_eq!(
        view_step(&mut s, ViewMessage::TrackToggleEnabled(NodeId(5))),
        vec![ViewAction::ToggleChannelEnabled(NodeId(5))]
    );
    assert_eq!(s.soloed, None);
    assert!(view_step(&mut s, ViewMessage::Delete).is_empty());
}

#[test]
fn added_midi_clips_last_at_least_a_bar() {
    let t = generic_daw_core::transport::Transport::new(44100, 120, 3).unwrap();
    let beat = BeatTime::one_beat().to_bits();
    let r = added_midi_clip_range(BeatTime::from_bits(beat), BeatTime::from_bits(10), &t);
    assert_eq!((r.start().to_bits(), r.end().to_bits()), (10, 10 + 3 * beat));
    let r = added_midi_clip_range(BeatTime::from_bits(5 * beat), BeatTime::from_bits(0), &t);
    assert_eq!(r.end().to_bits(), 5 * beat);
}

#[test]
fn arrows_drag_or_move_the_selection() {
    let step = BeatTime::from_bits(5);
    let mut s = ViewState {
        tab: Tab::Playlist,
        midi_clip: None,
        selected: NodeId(1),
        selected_type: NodeType::Track,
        soloed: None,
    };
    assert_eq!(
        view_step(&mut s, ViewMessage::ArrowUp),
        vec![ViewAction::FinishPlaylist, ViewAction::DragPlaylist(-1, Delta::Later(BeatTime::zero()))]
    );
    assert_eq!(
        view_step(&mut s, ViewMessage::ArrowLeft(step)),
        vec![ViewAction::FinishPlaylist, ViewAction::DragPlaylist(0, Delta::Earlier(step))]
    );
    assert!(view_step(&mut s, ViewMessage::TransposeOctUp).is_empty());
    s.tab = Tab::Mixer;
    assert_eq!(view_step(&mut s, ViewMessage::ArrowRight(step)), vec![ViewAction::SelectNextNode]);
    assert!(view_step(&mut s, ViewMessage::ArrowUp).is_empty());
    s.tab = Tab::PianoRoll;
    assert_eq!(
        view_step(&mut s, ViewMessage::TransposeOctDown),
        vec![ViewAction::FinishPianoRoll, ViewAction::DragPianoRoll(-12, Delta::Later(BeatTime::zero()))]
    );
}
