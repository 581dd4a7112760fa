use generic_daw_core::arrangement_view::Tab;
use generic_daw_core::commands::{
    available, command_spec, dispatch, matches_query, matching_shortcut, ArrangementMessage,
    CommandId, Context, KeyPress, Message, Modifiers, NamedKey,
};

fn playlist_context() -> Context {
    Context {
        config_open: false,
        has_midi_clip: false,
        tab: Tab::Playlist,
        audio_clip_inspector_open: false,
        armed_track: false,
        midi_recording: false,
    }
}

fn named(key: NamedKey) -> KeyPress {
    KeyPress { named: Some(key), latin: None }
}

fn latin(c: char) -> KeyPress {
    KeyPress { named: None, latin: Some(c) }
}

const COMMAND: Modifiers = Modifiers { command: true, shift: false, alt: false };

#[test]
fn config_escape_closes_settings_before_selection() {
    let command = matching_shortcut(
        Context { config_open: true, ..playlist_context() },
        named(NamedKey::Escape),
        Modifiers::default(),
        false,
    );

    assert_eq!(command, Some(CommandId::CloseSettings));
}

#[test]
fn save_shortcut_dispatches_from_registry() {
    let command = matching_shortcut(playlist_context(), latin('s'), COMMAND, false);

    assert_eq!(command, Some(CommandId::SaveProject));
    assert!(matches!(dispatch(command.unwrap()), Message::SaveFile));
}

#[test]
fn audio_clip_commands_follow_context() {
    let available = available(Context { audio_clip_inspector_open: true, ..playlist_context() })
        .into_iter()
        .map(|command| command.id)
        .collect::<Vec<_>>();

    assert!(available.contains(&CommandId::CloseClipInspector));
    assert!(available.contains(&CommandId::ResetClipEdits));
    assert!(available.contains(&CommandId::ToggleClipReverse));
    assert!(!available.contains(&CommandId::CloseSettings));
}

#[test]
fn escape_goes_to_the_inspector_then_the_selection() {
    let ctx = Context { audio_clip_inspector_open: true, ..playlist_context() };
    assert_eq!(
        matching_shortcut(ctx, named(NamedKey::Escape), Modifiers::default(), false),
        Some(CommandId::CloseClipInspector)
    );
    assert_eq!(
        matching_shortcut(playlist_context(), named(NamedKey::Escape), Modifiers::default(), false),
        Some(CommandId::UnselectAll)
    );
    let mixer = Context { tab: Tab::Mixer, ..playlist_context() };
    assert_eq!(
        matching_shortcut(mixer, named(NamedKey::Escape), Modifiers::default(), false),
        None
    );
}

#[test]
fn held_keys_repeat_only_repeatable_commands() {
    assert_eq!(matching_shortcut(playlist_context(), latin('s'), COMMAND, true), None);
    assert_eq!(
        matching_shortcut(playlist_context(), latin('d'), COMMAND, true),
        Some(CommandId::DuplicateSelection)
    );
    assert_eq!(
        matching_shortcut(
            playlist_context(),
            named(NamedKey::Backspace),
            Modifiers::default(),
            true
        ),
        Some(CommandId::DeleteSelection)
    );
}

#[test]
fn modifiers_must_match_exactly() {
    let shift_command = Modifiers { command: true, shift: true, alt: false };
    assert_eq!(
        matching_shortcut(playlist_context(), latin('s'), shift_command, false),
        Some(CommandId::SaveProjectAs)
    );
    assert_eq!(matching_shortcut(playlist_context(), latin('s'), Modifiers::default(), false), None);
    let shift = Modifiers { command: false, shift: true, alt: false };
    assert_eq!(
        matching_shortcut(playlist_context(), named(NamedKey::Tab), shift, false),
        Some(CommandId::CycleTabBackward)
    );
}

#[test]
fn dispatch_sends_arrangement_messages() {
    assert_eq!(
        dispatch(CommandId::FocusMixer),
        Message::Arrangement(ArrangementMessage::ChangedTab(Tab::Mixer))
    );
    assert_eq!(dispatch(CommandId::CloseSettings), Message::CloseConfigView);
}

#[test]
fn queries_match_labels_and_shortcuts() {
    let save = command_spec(CommandId::SaveProject);
    assert!(matches_query(&save, ""));
    assert!(matches_query(&save, "   "));
    assert!(matches_query(&save, "  SAVE proj "));
    assert!(matches_query(&save, "ctrl+s"));
    assert!(!matches_query(&save, "open"));
    let stop = command_spec(CommandId::StopPlayback);
    assert!(matches_query(&stop, "st"));
    assert!(!matches_query(&stop, "space"));
    assert!(matches_query(&command_spec(CommandId::TogglePlayback), "space"));
}
