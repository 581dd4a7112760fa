use vstd::prelude::*;
use crate::arrangement_view::{keybind_spec, Tab};
use crate::daw::{daw_keybind_spec, DawMessage};
use crate::text::{ascii_lower, contains, contains_spec, lower, trim_spec, trimmed_lower};

verus! {

/// A command that the user can run from a shortcut or the command list.
#[derive(Clone, Copy, Debug, PartialEq, Eq, Structural)]
pub enum CommandId {
    NewProject,
    OpenProject,
    SaveProject,
    SaveProjectAs,
    ExportProject,
    OpenSettings,
    ToggleFullscreen,
    TogglePlayback,
    StopPlayback,
    ToggleMidiRecording,
    FocusPlaylist,
    FocusMixer,
    FocusPianoRoll,
    MoveLeft,
    MoveRight,
    CycleTabForward,
    CycleTabBackward,
    SelectAll,
    UnselectAll,
    DuplicateSelection,
    DeleteSelection,
    CloseSettings,
    CloseClipInspector,
    ResetClipEdits,
    ToggleClipReverse,
}

/// The state of the application that decides which commands are available.
#[derive(Clone, Copy, Debug, PartialEq, Eq, Structural)]
pub struct Context {
    pub config_open: bool,
    pub has_midi_clip: bool,
    pub tab: Tab,
    pub audio_clip_inspector_open: bool,
    pub armed_track: bool,
    pub midi_recording: bool,
}

/// The rule that decides when a command is available.
#[derive(Clone, Copy, Debug, PartialEq, Eq, Structural)]
pub enum Availability {
    Always,
    WhenArrangementActive,
    WhenPlaylistHidden,
    WhenMixerHidden,
    WhenConfigClosedAndMidiClip,
    WhenConfigOpen,
    WhenClipInspectorOpen,
    WhenMidiRecordingAvailable,
    WhenEditableArrangementTab,
    WhenSelectionCanClear,
}

/// Whether a command under `rule` is available in `ctx`.
pub open spec fn enabled_spec(rule: Availability, ctx: Context) -> bool {
    match rule {
        Availability::Always => true,
        Availability::WhenArrangementActive => !ctx.config_open,
        Availability::WhenPlaylistHidden => !ctx.config_open && ctx.tab != Tab::Playlist,
        Availability::WhenMixerHidden => !ctx.config_open && ctx.tab != Tab::Mixer,
        Availability::WhenConfigClosedAndMidiClip => !ctx.config_open && ctx.has_midi_clip
            && ctx.tab != Tab::PianoRoll,
        Availability::WhenConfigOpen => ctx.config_open,
        Availability::WhenClipInspectorOpen => !ctx.config_open && ctx.audio_clip_inspector_open,
        Availability::WhenMidiRecordingAvailable => !ctx.config_open && (ctx.midi_recording
            || ctx.armed_track),
        Availability::WhenEditableArrangementTab => !ctx.config_open && ctx.tab != Tab::Mixer,
        Availability::WhenSelectionCanClear => !ctx.config_open && !ctx.audio_clip_inspector_open
            && ctx.tab != Tab::Mixer,
    }
}

impl Availability {
    pub fn enabled(self, ctx: Context) -> (r: bool)
        ensures
            r == enabled_spec(self, ctx),
    {
        match self {
            Availability::Always => true,
            Availability::WhenArrangementActive => !ctx.config_open,
            Availability::WhenPlaylistHidden => !ctx.config_open && !is_tab(ctx.tab, Tab::Playlist),
            Availability::WhenMixerHidden => !ctx.config_open && !is_tab(ctx.tab, Tab::Mixer),
            Availability::WhenConfigClosedAndMidiClip => !ctx.config_open && ctx.has_midi_clip
                && !is_tab(ctx.tab, Tab::PianoRoll),
            Availability::WhenConfigOpen => ctx.config_open,
            Availability::WhenClipInspectorOpen => !ctx.config_open
                && ctx.audio_clip_inspector_open,
            Availability::WhenMidiRecordingAvailable => !ctx.config_open && (ctx.midi_recording
                || ctx.armed_track),
            Availability::WhenEditableArrangementTab => !ctx.config_open && !is_tab(
                ctx.tab,
                Tab::Mixer,
            ),
            Availability::WhenSelectionCanClear => !ctx.config_open
                && !ctx.audio_clip_inspector_open && !is_tab(ctx.tab, Tab::Mixer),
        }
    }
}

fn is_tab(tab: Tab, other: Tab) -> (r: bool)
    ensures
        r == (tab == other),
{
    match (tab, other) {
        (Tab::Playlist, Tab::Playlist) => true,
        (Tab::Mixer, Tab::Mixer) => true,
        (Tab::PianoRoll, Tab::PianoRoll) => true,
        _ => false,
    }
}

/// The named keys that shortcuts use.
#[derive(Clone, Copy, Debug, PartialEq, Eq, Structural, Hash)]
pub enum NamedKey {
    F11,
    Space,
    ArrowUp,
    ArrowDown,
    ArrowLeft,
    ArrowRight,
    Tab,
    Escape,
    Delete,
    Backspace,
}

/// The key of a shortcut: a named key, any of two named keys, or a latin letter.
#[derive(Clone, Copy, Debug, PartialEq, Eq, Structural)]
pub enum ShortcutKey {
    Named(NamedKey),
    Nameds(NamedKey, NamedKey),
    Latin(char),
}

/// A key combination that runs a command, with the text that shows it.
#[derive(Clone, Copy, Debug)]
pub struct Shortcut {
    pub command: bool,
    pub shift: bool,
    pub alt: bool,
    pub key: ShortcutKey,
    pub display: &'static str,
}

/// A command with its label, shortcut, whether holding the shortcut repeats it, and when it
/// is available.
#[derive(Clone, Copy, Debug)]
pub struct CommandSpec {
    pub id: CommandId,
    pub label: &'static str,
    pub shortcut: Option<Shortcut>,
    pub allow_repeat: bool,
    pub enabled: Availability,
}

/// A key press: the named key it is, if any, and the latin letter it stands for, if any.
#[derive(Clone, Copy, Debug, PartialEq, Eq, Structural)]
pub struct KeyPress {
    pub named: Option<NamedKey>,
    pub latin: Option<char>,
}

/// The modifier keys held during a key press.
#[derive(Clone, Copy, Debug, Default, PartialEq, Eq, Structural)]
pub struct Modifiers {
    pub command: bool,
    pub shift: bool,
    pub alt: bool,
}

pub open spec fn shortcut_of(
    command: bool,
    shift: bool,
    alt: bool,
    key: ShortcutKey,
    display: &'static str,
) -> Option<Shortcut> {
    Some(Shortcut { command, shift, alt, key, display })
}

pub open spec fn entry(
    id: CommandId,
    label: &'static str,
    shortcut: Option<Shortcut>,
    allow_repeat: bool,
    enabled: Availability,
) -> CommandSpec {
    CommandSpec { id, label, shortcut, allow_repeat, enabled }
}

/// The registry entry of each command.
pub open spec fn spec_of(id: CommandId) -> CommandSpec {
    match id {
        CommandId::NewProject => entry(
            id,
            "New Project",
            shortcut_of(true, false, false, ShortcutKey::Latin('n'), "Cmd/Ctrl+N"),
            false,
            Availability::Always,
        ),
        CommandId::OpenProject => entry(
            id,
            "Open Project",
            shortcut_of(true, false, false, ShortcutKey::Latin('o'), "Cmd/Ctrl+O"),
            false,
            Availability::Always,
        ),
        CommandId::SaveProject => entry(
            id,
            "Save Project",
            shortcut_of(true, false, false, ShortcutKey::Latin('s'), "Cmd/Ctrl+S"),
            false,
            Availability::Always,
        ),
        CommandId::SaveProjectAs => entry(
            id,
            "Save Project As",
            shortcut_of(true, true, false, ShortcutKey::Latin('s'), "Cmd/Ctrl+Shift+S"),
            false,
            Availability::Always,
        ),
        CommandId::ExportProject => entry(
            id,
            "Export Project",
            shortcut_of(true, false, false, ShortcutKey::Latin('e'), "Cmd/Ctrl+E"),
            false,
            Availability::Always,
        ),
        CommandId::OpenSettings => entry(
            id,
            "Open Settings",
            None,
            false,
            Availability::WhenArrangementActive,
        ),
        CommandId::ToggleFullscreen => entry(
            id,
            "Toggle Fullscreen",
            shortcut_of(false, false, false, ShortcutKey::Named(NamedKey::F11), "F11"),
            false,
            Availability::Always,
        ),
        CommandId::TogglePlayback => entry(
            id,
            "Play / Pause",
            shortcut_of(false, false, false, ShortcutKey::Named(NamedKey::Space), "Space"),
            false,
            Availability::Always,
        ),
        CommandId::StopPlayback => entry(id, "Stop", None, false, Availability::Always),
        CommandId::ToggleMidiRecording => entry(
            id,
            "Toggle MIDI Recording",
            None,
            false,
            Availability::WhenMidiRecordingAvailable,
        ),
        CommandId::FocusPlaylist => entry(
            id,
            "Show Playlist",
            None,
            false,
            Availability::WhenPlaylistHidden,
        ),
        CommandId::FocusMixer => entry(
            id,
            "Show Mixer",
            None,
            false,
            Availability::WhenMixerHidden,
        ),
        CommandId::FocusPianoRoll => entry(
            id,
            "Show Piano Roll",
            None,
            false,
            Availability::WhenConfigClosedAndMidiClip,
        ),
        CommandId::MoveLeft => entry(
            id,
            "Step Left",
            shortcut_of(
                false,
                false,
                false,
                ShortcutKey::Named(NamedKey::ArrowLeft),
                "Left Arrow",
            ),
            true,
            Availability::WhenArrangementActive,
        ),
        CommandId::MoveRight => entry(
            id,
            "Step Right",
            shortcut_of(
                false,
                false,
                false,
                ShortcutKey::Named(NamedKey::ArrowRight),
                "Right Arrow",
            ),
            true,
            Availability::WhenArrangementActive,
        ),
        CommandId::CycleTabForward => entry(
            id,
            "Next Tab",
            shortcut_of(false, false, false, ShortcutKey::Named(NamedKey::Tab), "Tab"),
            false,
            Availability::WhenArrangementActive,
        ),
        CommandId::CycleTabBackward => entry(
            id,
            "Previous Tab",
            shortcut_of(false, true, false, ShortcutKey::Named(NamedKey::Tab), "Shift+Tab"),
            false,
            Availability::WhenArrangementActive,
        ),
        CommandId::SelectAll => entry(
            id,
            "Select All",
            shortcut_of(true, false, false, ShortcutKey::Latin('a'), "Cmd/Ctrl+A"),
            false,
            Availability::WhenEditableArrangementTab,
        ),
        CommandId::CloseSettings => entry(
            id,
            "Close Settings",
            shortcut_of(false, false, false, ShortcutKey::Named(NamedKey::Escape), "Esc"),
            false,
            Availability::WhenConfigOpen,
        ),
        CommandId::CloseClipInspector => entry(
            id,
            "Close Clip Inspector",
            shortcut_of(false, false, false, ShortcutKey::Named(NamedKey::Escape), "Esc"),
            false,
            Availability::WhenClipInspectorOpen,
        ),
        CommandId::UnselectAll => entry(
            id,
            "Clear Selection",
            shortcut_of(false, false, false, ShortcutKey::Named(NamedKey::Escape), "Esc"),
            false,
            Availability::WhenSelectionCanClear,
        ),
        CommandId::DuplicateSelection => entry(
            id,
            "Duplicate Selection",
            shortcut_of(true, false, false, ShortcutKey::Latin('d'), "Cmd/Ctrl+D"),
            true,
            Availability::WhenEditableArrangementTab,
        ),
        CommandId::DeleteSelection => entry(
            id,
            "Delete Selection",
            shortcut_of(
                false,
                false,
                false,
                ShortcutKey::Nameds(NamedKey::Delete, NamedKey::Backspace),
                "Delete / Backspace",
            ),
            true,
            Availability::WhenArrangementActive,
        ),
        CommandId::ResetClipEdits => entry(
            id,
            "Reset Clip Edits",
            None,
            false,
            Availability::WhenClipInspectorOpen,
        ),
        CommandId::ToggleClipReverse => entry(
            id,
            "Toggle Clip Reverse",
            None,
            false,
            Availability::WhenClipInspectorOpen,
        ),
    }
}

/// The order in which the registry lists the commands; the first match wins.
pub open spec fn registry() -> Seq<CommandId> {
    seq![
        CommandId::NewProject,
        CommandId::OpenProject,
        CommandId::SaveProject,
        CommandId::SaveProjectAs,
        CommandId::ExportProject,
        CommandId::OpenSettings,
        CommandId::ToggleFullscreen,
        CommandId::TogglePlayback,
        CommandId::StopPlayback,
        CommandId::ToggleMidiRecording,
        CommandId::FocusPlaylist,
        CommandId::FocusMixer,
        CommandId::FocusPianoRoll,
        CommandId::MoveLeft,
        CommandId::MoveRight,
        CommandId::CycleTabForward,
        CommandId::CycleTabBackward,
        CommandId::SelectAll,
        CommandId::CloseSettings,
        CommandId::CloseClipInspector,
        CommandId::UnselectAll,
        CommandId::DuplicateSelection,
        CommandId::DeleteSelection,
        CommandId::ResetClipEdits,
        CommandId::ToggleClipReverse,
    ]
}

/// Whether the key press is the shortcut's key.
pub open spec fn key_matches(key: ShortcutKey, press: KeyPress) -> bool {
    match key {
        ShortcutKey::Named(n) => press.named == Some(n),
        ShortcutKey::Nameds(a, b) => press.named == Some(a) || press.named == Some(b),
        ShortcutKey::Latin(c) => press.latin == Some(c),
    }
}

/// Whether the key press runs the command in `ctx`.
pub open spec fn fires(
    c: CommandSpec,
    ctx: Context,
    press: KeyPress,
    modifiers: Modifiers,
    repeat: bool,
) -> bool {
    match c.shortcut {
        None => false,
        Some(s) => {
            &&& c.allow_repeat || !repeat
            &&& enabled_spec(c.enabled, ctx)
            &&& s.command == modifiers.command
            &&& s.shift == modifiers.shift
            &&& s.alt == modifiers.alt
            &&& key_matches(s.key, press)
        },
    }
}

fn shortcut_exec(
    command: bool,
    shift: bool,
    alt: bool,
    key: ShortcutKey,
    display: &'static str,
) -> (r: Option<Shortcut>)
    ensures
        r == shortcut_of(command, shift, alt, key, display),
{
    Some(Shortcut { command, shift, alt, key, display })
}

fn entry_exec(
    id: CommandId,
    label: &'static str,
    shortcut: Option<Shortcut>,
    allow_repeat: bool,
    enabled: Availability,
) -> (r: CommandSpec)
    ensures
        r == entry(id, label, shortcut, allow_repeat, enabled),
{
    CommandSpec { id, label, shortcut, allow_repeat, enabled }
}

/// The registry entry of a command.
pub fn command_spec(id: CommandId) -> (r: CommandSpec)
    ensures
        r == spec_of(id),
{
    match id {
        CommandId::NewProject => entry_exec(
            id,
            "New Project",
            shortcut_exec(true, false, false, ShortcutKey::Latin('n'), "Cmd/Ctrl+N"),
            false,
            Availability::Always,
        ),
        CommandId::OpenProject => entry_exec(
            id,
            "Open Project",
            shortcut_exec(true, false, false, ShortcutKey::Latin('o'), "Cmd/Ctrl+O"),
            false,
            Availability::Always,
        ),
        CommandId::SaveProject => entry_exec(
            id,
            "Save Project",
            shortcut_exec(true, false, false, ShortcutKey::Latin('s'), "Cmd/Ctrl+S"),
            false,
            Availability::Always,
        ),
        CommandId::SaveProjectAs => entry_exec(
            id,
            "Save Project As",
            shortcut_exec(true, true, false, ShortcutKey::Latin('s'), "Cmd/Ctrl+Shift+S"),
            false,
            Availability::Always,
        ),
        CommandId::ExportProject => entry_exec(
            id,
            "Export Project",
            shortcut_exec(true, false, false, ShortcutKey::Latin('e'), "Cmd/Ctrl+E"),
            false,
            Availability::Always,
        ),
        CommandId::OpenSettings => entry_exec(
            id,
            "Open Settings",
            None,
            false,
            Availability::WhenArrangementActive,
        ),
        CommandId::ToggleFullscreen => entry_exec(
            id,
            "Toggle Fullscreen",
            shortcut_exec(false, false, false, ShortcutKey::Named(NamedKey::F11), "F11"),
            false,
            Availability::Always,
        ),
        CommandId::TogglePlayback => entry_exec(
            id,
            "Play / Pause",
            shortcut_exec(false, false, false, ShortcutKey::Named(NamedKey::Space), "Space"),
            false,
            Availability::Always,
        ),
        CommandId::StopPlayback => entry_exec(id, "Stop", None, false, Availability::Always),
        CommandId::ToggleMidiRecording => entry_exec(
            id,
            "Toggle MIDI Recording",
            None,
            false,
            Availability::WhenMidiRecordingAvailable,
        ),
        CommandId::FocusPlaylist => entry_exec(
            id,
            "Show Playlist",
            None,
            false,
            Availability::WhenPlaylistHidden,
        ),
        CommandId::FocusMixer => entry_exec(
            id,
            "Show Mixer",
            None,
            false,
            Availability::WhenMixerHidden,
        ),
        CommandId::FocusPianoRoll => entry_exec(
            id,
            "Show Piano Roll",
            None,
            false,
            Availability::WhenConfigClosedAndMidiClip,
        ),
        CommandId::MoveLeft => entry_exec(
            id,
            "Step Left",
            shortcut_exec(
                false,
                false,
                false,
                ShortcutKey::Named(NamedKey::ArrowLeft),
                "Left Arrow",
            ),
            true,
            Availability::WhenArrangementActive,
        ),
        CommandId::MoveRight => entry_exec(
            id,
            "Step Right",
            shortcut_exec(
                false,
                false,
                false,
                ShortcutKey::Named(NamedKey::ArrowRight),
                "Right Arrow",
            ),
            true,
            Availability::WhenArrangementActive,
        ),
        CommandId::CycleTabForward => entry_exec(
            id,
            "Next Tab",
            shortcut_exec(false, false, false, ShortcutKey::Named(NamedKey::Tab), "Tab"),
            false,
            Availability::WhenArrangementActive,
        ),
        CommandId::CycleTabBackward => entry_exec(
            id,
            "Previous Tab",
            shortcut_exec(false, true, false, ShortcutKey::Named(NamedKey::Tab), "Shift+Tab"),
            false,
            Availability::WhenArrangementActive,
        ),
        CommandId::SelectAll => entry_exec(
            id,
            "Select All",
            shortcut_exec(true, false, false, ShortcutKey::Latin('a'), "Cmd/Ctrl+A"),
            false,
            Availability::WhenEditableArrangementTab,
        ),
        CommandId::CloseSettings => entry_exec(
            id,
            "Close Settings",
            shortcut_exec(false, false, false, ShortcutKey::Named(NamedKey::Escape), "Esc"),
            false,
            Availability::WhenConfigOpen,
        ),
        CommandId::CloseClipInspector => entry_exec(
            id,
            "Close Clip Inspector",
            shortcut_exec(false, false, false, ShortcutKey::Named(NamedKey::Escape), "Esc"),
            false,
            Availability::WhenClipInspectorOpen,
        ),
        CommandId::UnselectAll => entry_exec(
            id,
            "Clear Selection",
            shortcut_exec(false, false, false, ShortcutKey::Named(NamedKey::Escape), "Esc"),
            false,
            Availability::WhenSelectionCanClear,
        ),
        CommandId::DuplicateSelection => entry_exec(
            id,
            "Duplicate Selection",
            shortcut_exec(true, false, false, ShortcutKey::Latin('d'), "Cmd/Ctrl+D"),
            true,
            Availability::WhenEditableArrangementTab,
        ),
        CommandId::DeleteSelection => entry_exec(
            id,
            "Delete Selection",
            shortcut_exec(
                false,
                false,
                false,
                ShortcutKey::Nameds(NamedKey::Delete, NamedKey::Backspace),
                "Delete / Backspace",
            ),
            true,
            Availability::WhenArrangementActive,
        ),
        CommandId::ResetClipEdits => entry_exec(
            id,
            "Reset Clip Edits",
            None,
            false,
            Availability::WhenClipInspectorOpen,
        ),
        CommandId::ToggleClipReverse => entry_exec(
            id,
            "Toggle Clip Reverse",
            None,
            false,
            Availability::WhenClipInspectorOpen,
        ),
    }
}


/// The commands in registry order.
pub fn registry_ids() -> (r: Vec<CommandId>)
    ensures
        r@ == registry(),
{
    let r = vec![
        CommandId::NewProject,
        CommandId::OpenProject,
        CommandId::SaveProject,
        CommandId::SaveProjectAs,
        CommandId::ExportProject,
        CommandId::OpenSettings,
        CommandId::ToggleFullscreen,
        CommandId::TogglePlayback,
        CommandId::StopPlayback,
        CommandId::ToggleMidiRecording,
        CommandId::FocusPlaylist,
        CommandId::FocusMixer,
        CommandId::FocusPianoRoll,
        CommandId::MoveLeft,
        CommandId::MoveRight,
        CommandId::CycleTabForward,
        CommandId::CycleTabBackward,
        CommandId::SelectAll,
        CommandId::CloseSettings,
        CommandId::CloseClipInspector,
        CommandId::UnselectAll,
        CommandId::DuplicateSelection,
        CommandId::DeleteSelection,
        CommandId::ResetClipEdits,
        CommandId::ToggleClipReverse,
    ];
    assert(r@ =~= registry());
    r
}

fn key_matches_exec(key: ShortcutKey, press: KeyPress) -> (r: bool)
    ensures
        r == key_matches(key, press),
{
    match key {
        ShortcutKey::Named(n) => match press.named {
            Some(p) => same_named(p, n),
            None => false,
        },
        ShortcutKey::Nameds(a, b) => match press.named {
            Some(p) => same_named(p, a) || same_named(p, b),
            None => false,
        },
        ShortcutKey::Latin(c) => match press.latin {
            Some(l) => l == c,
            None => false,
        },
    }
}

fn same_named(a: NamedKey, b: NamedKey) -> (r: bool)
    ensures
        r == (a == b),
{
    match (a, b) {
        (NamedKey::F11, NamedKey::F11) => true,
        (NamedKey::Space, NamedKey::Space) => true,
        (NamedKey::ArrowUp, NamedKey::ArrowUp) => true,
        (NamedKey::ArrowDown, NamedKey::ArrowDown) => true,
        (NamedKey::ArrowLeft, NamedKey::ArrowLeft) => true,
        (NamedKey::ArrowRight, NamedKey::ArrowRight) => true,
        (NamedKey::Tab, NamedKey::Tab) => true,
        (NamedKey::Escape, NamedKey::Escape) => true,
        (NamedKey::Delete, NamedKey::Delete) => true,
        (NamedKey::Backspace, NamedKey::Backspace) => true,
        _ => false,
    }
}

fn fires_exec(
    c: &CommandSpec,
    ctx: Context,
    press: KeyPress,
    modifiers: Modifiers,
    repeat: bool,
) -> (r: bool)
    ensures
        r == fires(*c, ctx, press, modifiers, repeat),
{
    match c.shortcut {
        None => false,
        Some(s) => {
            if (!c.allow_repeat && repeat) || !c.enabled.enabled(ctx) {
                return false;
            }
            if s.command != modifiers.command || s.shift != modifiers.shift || s.alt
                != modifiers.alt {
                return false;
            }
            key_matches_exec(s.key, press)
        },
    }
}

/// The first command in registry order whose shortcut is this key press and that is
/// available in `ctx` (a held key repeats only the commands that allow it); `None` where no
/// command matches.
pub fn matching_shortcut(
    ctx: Context,
    press: KeyPress,
    modifiers: Modifiers,
    repeat: bool,
) -> (r: Option<CommandId>)
    ensures
        match r {
            Some(id) => exists|i: int|
                0 <= i < registry().len() && registry()[i] == id && fires(
                    spec_of(id),
                    ctx,
                    press,
                    modifiers,
                    repeat,
                ) && forall|k: int|
                    0 <= k < i ==> !fires(
                        spec_of(#[trigger] registry()[k]),
                        ctx,
                        press,
                        modifiers,
                        repeat,
                    ),
            None => forall|k: int|
                0 <= k < registry().len() ==> !fires(
                    spec_of(#[trigger] registry()[k]),
                    ctx,
                    press,
                    modifiers,
                    repeat,
                ),
        },
{
    let ids = registry_ids();
    let n = ids.len();
    let mut i: usize = 0;
    while i < n
        invariant
            ids@ == registry(),
            n == ids@.len(),
            0 <= i <= n,
            forall|k: int|
                0 <= k < i ==> !fires(
                    spec_of(#[trigger] registry()[k]),
                    ctx,
                    press,
                    modifiers,
                    repeat,
                ),
        decreases n - i,
    {
        let c = command_spec(ids[i]);
        if fires_exec(&c, ctx, press, modifiers, repeat) {
            return Some(ids[i]);
        }
        i = i + 1;
    }
    None
}

/// The commands available in `ctx`, in registry order.
pub fn available(ctx: Context) -> (r: Vec<CommandSpec>)
    ensures
        r@ == registry().filter(|id: CommandId| enabled_spec(spec_of(id).enabled, ctx)).map_values(
            |id: CommandId| spec_of(id),
        ),
{
    let ids = registry_ids();
    let n = ids.len();
    let mut r: Vec<CommandSpec> = Vec::new();
    let mut i: usize = 0;
    let ghost pred = |id: CommandId| enabled_spec(spec_of(id).enabled, ctx);
    while i < n
        invariant
            ids@ == registry(),
            n == ids@.len(),
            0 <= i <= n,
            pred == (|id: CommandId| enabled_spec(spec_of(id).enabled, ctx)),
            r@ == registry().take(i as int).filter(pred).map_values(|id: CommandId| spec_of(id)),
        decreases n - i,
    {
        let c = command_spec(ids[i]);
        proof {
            reveal_with_fuel(Seq::<_>::filter, 1);
            assert(registry().take(i + 1).drop_last() =~= registry().take(i as int));
        }
        if c.enabled.enabled(ctx) {
            r.push(c);
            assert(r@ =~= registry().take(i + 1).filter(pred).map_values(|id: CommandId| spec_of(id)));
        } else {
            assert(r@ =~= registry().take(i + 1).filter(pred).map_values(|id: CommandId| spec_of(id)));
        }
        i = i + 1;
    }
    assert(registry().take(n as int) =~= registry());
    r
}

/// The messages of the arrangement view that commands send.
#[derive(Clone, Copy, Debug, PartialEq, Eq, Structural)]
pub enum ArrangementMessage {
    TogglePlayback,
    Stop,
    ToggleRecord,
    ChangedTab(Tab),
    ArrowUp,
    ArrowDown,
    ArrowLeft,
    ArrowRight,
    TransposeOctUp,
    TransposeOctDown,
    Quantize,
    SelectInverse,
    CycleTabForwards,
    CycleTabBackwards,
    SelectAll,
    UnselectAll,
    Duplicate,
    Delete,
    CloseAudioClipInspector,
    AudioClipReset,
    AudioClipToggleReverse,
}

/// The messages of the application that commands send.
#[derive(Clone, Copy, Debug, PartialEq, Eq, Structural)]
pub enum Message {
    NewFile,
    OpenFileDialog,
    SaveFile,
    SaveAsFileDialog,
    ExportFileDialog,
    OpenConfigView,
    ToggleFullscreen,
    CloseConfigView,
    Arrangement(ArrangementMessage),
}

/// The message that each command sends.
pub open spec fn dispatch_spec(id: CommandId) -> Message {
    match id {
        CommandId::NewProject => Message::NewFile,
        CommandId::OpenProject => Message::OpenFileDialog,
        CommandId::SaveProject => Message::SaveFile,
        CommandId::SaveProjectAs => Message::SaveAsFileDialog,
        CommandId::ExportProject => Message::ExportFileDialog,
        CommandId::OpenSettings => Message::OpenConfigView,
        CommandId::ToggleFullscreen => Message::ToggleFullscreen,
        CommandId::TogglePlayback => Message::Arrangement(ArrangementMessage::TogglePlayback),
        CommandId::StopPlayback => Message::Arrangement(ArrangementMessage::Stop),
        CommandId::ToggleMidiRecording => Message::Arrangement(ArrangementMessage::ToggleRecord),
        CommandId::FocusPlaylist => Message::Arrangement(
            ArrangementMessage::ChangedTab(Tab::Playlist),
        ),
        CommandId::FocusMixer => Message::Arrangement(ArrangementMessage::ChangedTab(Tab::Mixer)),
        CommandId::FocusPianoRoll => Message::Arrangement(
            ArrangementMessage::ChangedTab(Tab::PianoRoll),
        ),
        CommandId::MoveLeft => Message::Arrangement(ArrangementMessage::ArrowLeft),
        CommandId::MoveRight => Message::Arrangement(ArrangementMessage::ArrowRight),
        CommandId::CycleTabForward => Message::Arrangement(ArrangementMessage::CycleTabForwards),
        CommandId::CycleTabBackward => Message::Arrangement(
            ArrangementMessage::CycleTabBackwards,
        ),
        CommandId::SelectAll => Message::Arrangement(ArrangementMessage::SelectAll),
        CommandId::UnselectAll => Message::Arrangement(ArrangementMessage::UnselectAll),
        CommandId::DuplicateSelection => Message::Arrangement(ArrangementMessage::Duplicate),
        CommandId::DeleteSelection => Message::Arrangement(ArrangementMessage::Delete),
        CommandId::CloseSettings => Message::CloseConfigView,
        CommandId::CloseClipInspector => Message::Arrangement(
            ArrangementMessage::CloseAudioClipInspector,
        ),
        CommandId::ResetClipEdits => Message::Arrangement(ArrangementMessage::AudioClipReset),
        CommandId::ToggleClipReverse => Message::Arrangement(
            ArrangementMessage::AudioClipToggleReverse,
        ),
    }
}

/// The message that running a command sends.
pub fn dispatch(id: CommandId) -> (r: Message)
    ensures
        r == dispatch_spec(id),
{
    match id {
        CommandId::NewProject => Message::NewFile,
        CommandId::OpenProject => Message::OpenFileDialog,
        CommandId::SaveProject => Message::SaveFile,
        CommandId::SaveProjectAs => Message::SaveAsFileDialog,
        CommandId::ExportProject => Message::ExportFileDialog,
        CommandId::OpenSettings => Message::OpenConfigView,
        CommandId::ToggleFullscreen => Message::ToggleFullscreen,
        CommandId::TogglePlayback => Message::Arrangement(ArrangementMessage::TogglePlayback),
        CommandId::StopPlayback => Message::Arrangement(ArrangementMessage::Stop),
        CommandId::ToggleMidiRecording => Message::Arrangement(ArrangementMessage::ToggleRecord),
        CommandId::FocusPlaylist => Message::Arrangement(
            ArrangementMessage::ChangedTab(Tab::Playlist),
        ),
        CommandId::FocusMixer => Message::Arrangement(ArrangementMessage::ChangedTab(Tab::Mixer)),
        CommandId::FocusPianoRoll => Message::Arrangement(
            ArrangementMessage::ChangedTab(Tab::PianoRoll),
        ),
        CommandId::MoveLeft => Message::Arrangement(ArrangementMessage::ArrowLeft),
        CommandId::MoveRight => Message::Arrangement(ArrangementMessage::ArrowRight),
        CommandId::CycleTabForward => Message::Arrangement(ArrangementMessage::CycleTabForwards),
        CommandId::CycleTabBackward => Message::Arrangement(
            ArrangementMessage::CycleTabBackwards,
        ),
        CommandId::SelectAll => Message::Arrangement(ArrangementMessage::SelectAll),
        CommandId::UnselectAll => Message::Arrangement(ArrangementMessage::UnselectAll),
        CommandId::DuplicateSelection => Message::Arrangement(ArrangementMessage::Duplicate),
        CommandId::DeleteSelection => Message::Arrangement(ArrangementMessage::Delete),
        CommandId::CloseSettings => Message::CloseConfigView,
        CommandId::CloseClipInspector => Message::Arrangement(
            ArrangementMessage::CloseAudioClipInspector,
        ),
        CommandId::ResetClipEdits => Message::Arrangement(ArrangementMessage::AudioClipReset),
        CommandId::ToggleClipReverse => Message::Arrangement(
            ArrangementMessage::AudioClipToggleReverse,
        ),
    }
}

/// Whether a command shows up for the search `query`: the query, without surrounding white
/// space and ignoring ASCII case, is empty or occurs in the command's label or in the text of
/// its shortcut.
pub open spec fn matches_query_spec(c: CommandSpec, query: Seq<char>) -> bool {
    let q = ascii_lower(trim_spec(query));
    ||| q.len() == 0
    ||| contains_spec(ascii_lower(c.label@), q)
    ||| (c.shortcut matches Some(s) && contains_spec(ascii_lower(s.display@), q))
}

/// Whether a command shows up for the search `query`.
pub fn matches_query(command: &CommandSpec, query: &str) -> (r: bool)
    ensures
        r == matches_query_spec(*command, query@),
{
    let query = trimmed_lower(query);
    if query.len() == 0 {
        return true;
    }
    if contains(&lower(command.label), &query) {
        return true;
    }
    match command.shortcut {
        Some(shortcut) => contains(&lower(shortcut.display), &query),
        None => false,
    }
}

/// The registry lists every command exactly once.
pub proof fn lemma_registry_lists_each_command_once(id: CommandId)
    ensures
        registry().contains(id),
        forall|i: int, j: int|
            0 <= i < j < registry().len() ==> registry()[i] != registry()[j],
        forall|i: int| 0 <= i < registry().len() ==> (#[trigger] spec_of(registry()[i])).id
            == registry()[i],
{
    let r = registry();
    match id {
        CommandId::NewProject => assert(r[0] == id),
        CommandId::OpenProject => assert(r[1] == id),
        CommandId::SaveProject => assert(r[2] == id),
        CommandId::SaveProjectAs => assert(r[3] == id),
        CommandId::ExportProject => assert(r[4] == id),
        CommandId::OpenSettings => assert(r[5] == id),
        CommandId::ToggleFullscreen => assert(r[6] == id),
        CommandId::TogglePlayback => assert(r[7] == id),
        CommandId::StopPlayback => assert(r[8] == id),
        CommandId::ToggleMidiRecording => assert(r[9] == id),
        CommandId::FocusPlaylist => assert(r[10] == id),
        CommandId::FocusMixer => assert(r[11] == id),
        CommandId::FocusPianoRoll => assert(r[12] == id),
        CommandId::MoveLeft => assert(r[13] == id),
        CommandId::MoveRight => assert(r[14] == id),
        CommandId::CycleTabForward => assert(r[15] == id),
        CommandId::CycleTabBackward => assert(r[16] == id),
        CommandId::SelectAll => assert(r[17] == id),
        CommandId::CloseSettings => assert(r[18] == id),
        CommandId::CloseClipInspector => assert(r[19] == id),
        CommandId::UnselectAll => assert(r[20] == id),
        CommandId::DuplicateSelection => assert(r[21] == id),
        CommandId::DeleteSelection => assert(r[22] == id),
        CommandId::ResetClipEdits => assert(r[23] == id),
        CommandId::ToggleClipReverse => assert(r[24] == id),
    }
}

/// A key press runs only a command that is available, and never two different commands:
/// where several share a shortcut, at most one of them is available at a time, so the order
/// of the registry decides nothing.
pub proof fn lemma_shortcuts_never_conflict(
    a: CommandId,
    b: CommandId,
    ctx: Context,
    press: KeyPress,
    modifiers: Modifiers,
    repeat: bool,
)
    requires
        fires(spec_of(a), ctx, press, modifiers, repeat),
        fires(spec_of(b), ctx, press, modifiers, repeat),
    ensures
        a == b,
        enabled_spec(spec_of(a).enabled, ctx),
{
}

/// An empty or blank search shows every command.
pub proof fn lemma_blank_query_matches_all(c: CommandSpec, query: Seq<char>)
    requires
        forall|i: int| 0 <= i < query.len() ==> crate::text::is_whitespace_spec(#[trigger] query[i]),
    ensures
        matches_query_spec(c, query),
    decreases query.len(),
{
    if query.len() > 0 {
        lemma_blank_query_matches_all(c, query.drop_first());
    }
}

/// A letter as a shortcut shows it: ASCII lower-case letters in upper case.
pub open spec fn ascii_upper_char(c: char) -> char {
    if 'a' <= c && c <= 'z' {
        ((c as u32) - 32) as char
    } else {
        c
    }
}

/// How a shortcut shows a named key.
pub open spec fn named_key_text(k: NamedKey) -> Seq<char> {
    match k {
        NamedKey::F11 => "F11"@,
        NamedKey::Space => "Space"@,
        NamedKey::ArrowUp => "Up Arrow"@,
        NamedKey::ArrowDown => "Down Arrow"@,
        NamedKey::ArrowLeft => "Left Arrow"@,
        NamedKey::ArrowRight => "Right Arrow"@,
        NamedKey::Tab => "Tab"@,
        NamedKey::Escape => "Esc"@,
        NamedKey::Delete => "Delete"@,
        NamedKey::Backspace => "Backspace"@,
    }
}

/// How a shortcut shows its key: a letter in upper case, a named key by its name, and either
/// of two named keys as both names with a slash between.
pub open spec fn shortcut_key_text(key: ShortcutKey) -> Seq<char> {
    match key {
        ShortcutKey::Named(n) => named_key_text(n),
        ShortcutKey::Nameds(a, b) => named_key_text(a) + " / "@ + named_key_text(b),
        ShortcutKey::Latin(c) => seq![ascii_upper_char(c)],
    }
}

/// The text that spells a key combination: the modifiers held, each followed by a plus, then
/// the key.
pub open spec fn combination_text(command: bool, shift: bool, alt: bool, key: ShortcutKey) -> Seq<char> {
    (if command { "Cmd/Ctrl+"@ } else { Seq::empty() }) + (if shift { "Shift+"@ } else { Seq::empty() })
        + (if alt { "Alt+"@ } else { Seq::empty() }) + shortcut_key_text(key)
}

/// Every command's shortcut shows exactly the key combination that runs it.
pub proof fn lemma_shortcut_shows_its_keys(id: CommandId)
    ensures
        spec_of(id).shortcut matches Some(s) ==> s.display@ == combination_text(
            s.command,
            s.shift,
            s.alt,
            s.key,
        ),
{
    reveal_strlit("Cmd/Ctrl+");
    reveal_strlit("Shift+");
    reveal_strlit("Alt+");
    reveal_strlit(" / ");
    reveal_strlit("F11");
    reveal_strlit("Space");
    reveal_strlit("Up Arrow");
    reveal_strlit("Down Arrow");
    reveal_strlit("Left Arrow");
    reveal_strlit("Right Arrow");
    reveal_strlit("Tab");
    reveal_strlit("Esc");
    reveal_strlit("Delete");
    reveal_strlit("Backspace");
    reveal_strlit("Cmd/Ctrl+N");
    reveal_strlit("Cmd/Ctrl+O");
    reveal_strlit("Cmd/Ctrl+S");
    reveal_strlit("Cmd/Ctrl+Shift+S");
    reveal_strlit("Cmd/Ctrl+E");
    reveal_strlit("Shift+Tab");
    reveal_strlit("Cmd/Ctrl+A");
    reveal_strlit("Cmd/Ctrl+D");
    reveal_strlit("Delete / Backspace");
    match spec_of(id).shortcut {
        Some(s) => {
            assert(s.display@ =~= combination_text(s.command, s.shift, s.alt, s.key));
        },
        None => {},
    }
}

/// The application message of the same meaning as a main-window message, where there is one.
pub open spec fn daw_as_message(m: DawMessage) -> Option<Message> {
    match m {
        DawMessage::NewFile => Some(Message::NewFile),
        DawMessage::OpenFileDialog => Some(Message::OpenFileDialog),
        DawMessage::SaveFile => Some(Message::SaveFile),
        DawMessage::SaveAsFileDialog => Some(Message::SaveAsFileDialog),
        DawMessage::ToggleFullscreen => Some(Message::ToggleFullscreen),
        DawMessage::TogglePlayback => Some(Message::Arrangement(ArrangementMessage::TogglePlayback)),
        DawMessage::Stop => Some(Message::Arrangement(ArrangementMessage::Stop)),
        _ => None,
    }
}

/// What the window's own key bindings send for a key press: the arrangement view's binding
/// where it has one, else the main window's, as an application message.
pub open spec fn window_message(press: KeyPress, modifiers: Modifiers, repeat: bool) -> Option<Message> {
    match keybind_spec(press, modifiers, repeat) {
        Some(k) => Some(Message::Arrangement(k)),
        None => match daw_keybind_spec(press, modifiers, repeat) {
            Some(m) => daw_as_message(m),
            None => None,
        },
    }
}

/// The command registry and the window's key bindings agree, while the arrangement is in front
/// (no settings, no clip inspector) and for a key press that is either a named key or a
/// letter: a key press that runs a command through its shortcut makes the window's bindings
/// send the very message that running the command sends. The one exception is Export
/// Project, whose shortcut no window binding takes.
pub proof fn lemma_commands_agree_with_window_bindings(
    id: CommandId,
    ctx: Context,
    press: KeyPress,
    modifiers: Modifiers,
    repeat: bool,
)
    requires
        !ctx.config_open,
        !ctx.audio_clip_inspector_open,
        press.named is None || press.latin is None,
        fires(spec_of(id), ctx, press, modifiers, repeat),
    ensures
        id != CommandId::ExportProject ==> window_message(press, modifiers, repeat) == Some(dispatch_spec(id)),
        id == CommandId::ExportProject ==> keybind_spec(press, modifiers, repeat) is None
            && daw_keybind_spec(press, modifiers, repeat) is None,
{
}

} // verus!
