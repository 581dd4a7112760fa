use vstd::prelude::*;
use crate::commands::{KeyPress, Modifiers, NamedKey};

verus! {

/// The panes that the main window can show.
#[derive(Clone, Copy, Debug, PartialEq, Eq, Structural, Hash)]
pub enum Tab {
    Playlist,
    Mixer,
    PianoRoll,
}

/// The messages of the main window that its own key bindings send.
#[derive(Clone, Copy, Debug, PartialEq, Eq, Structural)]
pub enum DawMessage {
    TogglePlayback,
    Stop,
    ToggleFullscreen,
    CycleForwards,
    CycleBackwards,
    ToggleConfigView,
    ToggleMetronome,
    NewFile,
    OpenFileDialog,
    OpenLastFile,
    RenderFileDialog,
    SaveFile,
    SaveAsFileDialog,
    NarrowedGrid,
    WidenedGrid,
    ToggleGridTriplets,
    ToggleGrid,
    /// Selects the bottom pane (`true`) or the top one (`false`).
    BottomSelected(bool),
    MovePaneUp,
    MovePaneDown,
}

/// The message that the main window's key bindings give for a key press held with the
/// modifiers (command, shift, alt); a key held down and repeating gives none.
pub open spec fn daw_keybind_spec(press: KeyPress, m: Modifiers, repeat: bool) -> Option<DawMessage> {
    let named = press.named;
    let latin = press.latin;
    match (m.command, m.shift, m.alt, repeat) {
        (false, false, false, false) => match named {
            Some(NamedKey::Space) => Some(DawMessage::TogglePlayback),
            Some(NamedKey::F11) => Some(DawMessage::ToggleFullscreen),
            Some(NamedKey::Tab) => Some(DawMessage::CycleForwards),
            _ => None,
        },
        (true, false, false, false) => match latin {
            Some(',') => Some(DawMessage::ToggleConfigView),
            Some('m') => Some(DawMessage::ToggleMetronome),
            Some('n') => Some(DawMessage::NewFile),
            Some('o') => Some(DawMessage::OpenFileDialog),
            Some('r') => Some(DawMessage::RenderFileDialog),
            Some('s') => Some(DawMessage::SaveFile),
            Some('1') => Some(DawMessage::NarrowedGrid),
            Some('2') => Some(DawMessage::WidenedGrid),
            Some('3') => Some(DawMessage::ToggleGridTriplets),
            Some('4') => Some(DawMessage::ToggleGrid),
            _ => None,
        },
        (false, true, false, false) => match named {
            Some(NamedKey::Space) => Some(DawMessage::Stop),
            Some(NamedKey::Tab) => Some(DawMessage::CycleBackwards),
            _ => None,
        },
        (true, true, false, false) => match latin {
            Some('o') => Some(DawMessage::OpenLastFile),
            Some('s') => Some(DawMessage::SaveAsFileDialog),
            _ => None,
        },
        (false, false, true, false) => match named {
            Some(NamedKey::ArrowUp) => Some(DawMessage::BottomSelected(false)),
            Some(NamedKey::ArrowDown) => Some(DawMessage::BottomSelected(true)),
            _ => None,
        },
        (false, true, true, false) => match named {
            Some(NamedKey::ArrowUp) => Some(DawMessage::MovePaneUp),
            Some(NamedKey::ArrowDown) => Some(DawMessage::MovePaneDown),
            _ => None,
        },
        _ => None,
    }
}

/// The message, if any, that the main window's key bindings give for a key press.
pub fn daw_keybinds(press: KeyPress, modifiers: Modifiers, repeat: bool) -> (r: Option<DawMessage>)
    ensures
        r == daw_keybind_spec(press, modifiers, repeat),
{
    let named = press.named;
    let latin = press.latin;
    match (modifiers.command, modifiers.shift, modifiers.alt, repeat) {
        (false, false, false, false) => match named {
            Some(NamedKey::Space) => Some(DawMessage::TogglePlayback),
            Some(NamedKey::F11) => Some(DawMessage::ToggleFullscreen),
            Some(NamedKey::Tab) => Some(DawMessage::CycleForwards),
            _ => None,
        },
        (true, false, false, false) => match latin {
            Some(',') => Some(DawMessage::ToggleConfigView),
            Some('m') => Some(DawMessage::ToggleMetronome),
            Some('n') => Some(DawMessage::NewFile),
            Some('o') => Some(DawMessage::OpenFileDialog),
            Some('r') => Some(DawMessage::RenderFileDialog),
            Some('s') => Some(DawMessage::SaveFile),
            Some('1') => Some(DawMessage::NarrowedGrid),
            Some('2') => Some(DawMessage::WidenedGrid),
            Some('3') => Some(DawMessage::ToggleGridTriplets),
            Some('4') => Some(DawMessage::ToggleGrid),
            _ => None,
        },
        (false, true, false, false) => match named {
            Some(NamedKey::Space) => Some(DawMessage::Stop),
            Some(NamedKey::Tab) => Some(DawMessage::CycleBackwards),
            _ => None,
        },
        (true, true, false, false) => match latin {
            Some('o') => Some(DawMessage::OpenLastFile),
            Some('s') => Some(DawMessage::SaveAsFileDialog),
            _ => None,
        },
        (false, false, true, false) => match named {
            Some(NamedKey::ArrowUp) => Some(DawMessage::BottomSelected(false)),
            Some(NamedKey::ArrowDown) => Some(DawMessage::BottomSelected(true)),
            _ => None,
        },
        (false, true, true, false) => match named {
            Some(NamedKey::ArrowUp) => Some(DawMessage::MovePaneUp),
            Some(NamedKey::ArrowDown) => Some(DawMessage::MovePaneDown),
            _ => None,
        },
        _ => None,
    }
}

/// A key held down and repeating never sends a main-window message: holding a shortcut runs
/// it once.
pub proof fn lemma_daw_bindings_ignore_repeats(press: KeyPress, modifiers: Modifiers)
    ensures
        daw_keybind_spec(press, modifiers, true) is None,
{
}

} // verus!
