use vstd::prelude::*;
use crate::time::beat_range::BeatRange;
use crate::time::beat_time::BeatTime;
use crate::time::fixed_point::FixedPoint;
use crate::time::offset_beat_range::OffsetBeatRange;
use crate::commands::{ArrangementMessage, KeyPress, Modifiers, NamedKey};
use crate::playlist::Delta;

verus! {

/// The tabs of the arrangement view.
#[derive(Clone, Copy, Debug, PartialEq, Eq, Structural, Hash)]
pub enum Tab {
    Playlist,
    Mixer,
    PianoRoll,
}

/// Identifies a node of the audio graph.
#[derive(Clone, Copy, Debug, PartialEq, Eq, Structural, Hash, PartialOrd, Ord)]
pub struct NodeId(pub u64);

/// Identifies a MIDI clip.
#[derive(Clone, Copy, Debug, PartialEq, Eq, Structural, Hash)]
pub struct MidiClipId(pub u64);

/// Identifies a MIDI pattern.
#[derive(Clone, Copy, Debug, PartialEq, Eq, Structural, Hash)]
pub struct MidiPatternId(pub u64);

/// The kinds of nodes in the mixer.
#[derive(Clone, Copy, Debug, PartialEq, Eq, Structural)]
pub enum NodeType {
    Master,
    Channel,
    Track,
}

/// A mixer channel, by the node it stands for.
#[derive(Debug)]
pub struct Channel {
    pub id: NodeId,
}

impl Channel {
    pub fn new(id: NodeId) -> (r: Self)
        ensures
            r.id == id,
    {
        Channel { id }
    }
}

/// A clip that plays a MIDI pattern.
#[derive(Clone, Copy, Debug)]
pub struct MidiClip {
    pub id: MidiClipId,
    pub pattern: MidiPatternId,
    pub position: OffsetBeatRange,
}

impl MidiClip {
    /// A clip with the fresh id `id` that plays `pattern` from the start of the arrangement,
    /// one tick long, with no offset.
    pub fn new(id: MidiClipId, pattern: MidiPatternId) -> (r: Self)
        ensures
            r.id == id,
            r.pattern == pattern,
            r.position@ == (0nat, 1nat, 0nat),
    {
        MidiClip {
            id,
            pattern,
            position: OffsetBeatRange::new(BeatRange::default(), BeatTime::zero()),
        }
    }
}

/// The answer to a question put to the user: a value to use, nothing to do, or cancel.
#[derive(Clone, Debug)]
pub enum Feedback<T> {
    Use(T),
    Ignore,
    Cancel,
}

/// Whether the key press is the named key `n`.
pub open spec fn is_named(press: KeyPress, n: NamedKey) -> bool {
    press.named == Some(n)
}

/// The arrow message of a plain arrow key.
pub open spec fn arrow_message(press: KeyPress) -> Option<ArrangementMessage> {
    if is_named(press, NamedKey::ArrowUp) {
        Some(ArrangementMessage::ArrowUp)
    } else if is_named(press, NamedKey::ArrowDown) {
        Some(ArrangementMessage::ArrowDown)
    } else if is_named(press, NamedKey::ArrowLeft) {
        Some(ArrangementMessage::ArrowLeft)
    } else if is_named(press, NamedKey::ArrowRight) {
        Some(ArrangementMessage::ArrowRight)
    } else {
        None
    }
}

/// The octave transposition of an arrow key held with the command key.
pub open spec fn transpose_message(press: KeyPress) -> Option<ArrangementMessage> {
    if is_named(press, NamedKey::ArrowUp) {
        Some(ArrangementMessage::TransposeOctUp)
    } else if is_named(press, NamedKey::ArrowDown) {
        Some(ArrangementMessage::TransposeOctDown)
    } else {
        None
    }
}

/// Whether the key press deletes: the delete key or the backspace key.
pub open spec fn is_delete(press: KeyPress) -> bool {
    is_named(press, NamedKey::Delete) || is_named(press, NamedKey::Backspace)
}

/// The message that the arrangement view's own key bindings give for a key press: by the
/// modifiers held (command, shift, alt) and whether the key is held down and repeating.
pub open spec fn keybind_spec(press: KeyPress, m: Modifiers, repeat: bool) -> Option<
    ArrangementMessage,
> {
    match (m.command, m.shift, m.alt, repeat) {
        (false, false, false, false) => if is_named(press, NamedKey::Tab) {
            Some(ArrangementMessage::CycleTabForwards)
        } else if is_delete(press) {
            Some(ArrangementMessage::Delete)
        } else if is_named(press, NamedKey::Escape) {
            Some(ArrangementMessage::UnselectAll)
        } else {
            arrow_message(press)
        },
        (false, false, false, true) => if is_delete(press) {
            Some(ArrangementMessage::Delete)
        } else {
            arrow_message(press)
        },
        (true, false, false, false) => if press.latin == Some('a') {
            Some(ArrangementMessage::SelectAll)
        } else if press.latin == Some('d') {
            Some(ArrangementMessage::Duplicate)
        } else if press.latin == Some('i') {
            Some(ArrangementMessage::SelectInverse)
        } else {
            transpose_message(press)
        },
        (true, false, false, true) => if press.latin == Some('d') {
            Some(ArrangementMessage::Duplicate)
        } else {
            transpose_message(press)
        },
        (false, true, false, false) => if is_named(press, NamedKey::Tab) {
            Some(ArrangementMessage::CycleTabBackwards)
        } else {
            None
        },
        (false, false, true, false) => if press.latin == Some('q') {
            Some(ArrangementMessage::Quantize)
        } else {
            None
        },
        _ => None,
    }
}

fn named_is(press: KeyPress, n: NamedKey) -> (r: bool)
    ensures
        r == is_named(press, n),
{
    match press.named {
        Some(k) => k == n,
        None => false,
    }
}

fn arrow(press: KeyPress) -> (r: Option<ArrangementMessage>)
    ensures
        r == arrow_message(press),
{
    if named_is(press, NamedKey::ArrowUp) {
        Some(ArrangementMessage::ArrowUp)
    } else if named_is(press, NamedKey::ArrowDown) {
        Some(ArrangementMessage::ArrowDown)
    } else if named_is(press, NamedKey::ArrowLeft) {
        Some(ArrangementMessage::ArrowLeft)
    } else if named_is(press, NamedKey::ArrowRight) {
        Some(ArrangementMessage::ArrowRight)
    } else {
        None
    }
}

fn transpose(press: KeyPress) -> (r: Option<ArrangementMessage>)
    ensures
        r == transpose_message(press),
{
    if named_is(press, NamedKey::ArrowUp) {
        Some(ArrangementMessage::TransposeOctUp)
    } else if named_is(press, NamedKey::ArrowDown) {
        Some(ArrangementMessage::TransposeOctDown)
    } else {
        None
    }
}

/// The message, if any, that the arrangement view's key bindings give for a key press.
pub fn keybinds(press: KeyPress, modifiers: Modifiers, repeat: bool) -> (r: Option<
    ArrangementMessage,
>)
    ensures
        r == keybind_spec(press, modifiers, repeat),
{
    let delete = named_is(press, NamedKey::Delete) || named_is(press, NamedKey::Backspace);
    match (modifiers.command, modifiers.shift, modifiers.alt, repeat) {
        (false, false, false, false) => if named_is(press, NamedKey::Tab) {
            Some(ArrangementMessage::CycleTabForwards)
        } else if delete {
            Some(ArrangementMessage::Delete)
        } else if named_is(press, NamedKey::Escape) {
            Some(ArrangementMessage::UnselectAll)
        } else {
            arrow(press)
        },
        (false, false, false, true) => if delete {
            Some(ArrangementMessage::Delete)
        } else {
            arrow(press)
        },
        (true, false, false, false) => if press.latin == Some('a') {
            Some(ArrangementMessage::SelectAll)
        } else if press.latin == Some('d') {
            Some(ArrangementMessage::Duplicate)
        } else if press.latin == Some('i') {
            Some(ArrangementMessage::SelectInverse)
        } else {
            transpose(press)
        },
        (true, false, false, true) => if press.latin == Some('d') {
            Some(ArrangementMessage::Duplicate)
        } else {
            transpose(press)
        },
        (false, true, false, false) => if named_is(press, NamedKey::Tab) {
            Some(ArrangementMessage::CycleTabBackwards)
        } else {
            None
        },
        (false, false, true, false) => if press.latin == Some('q') {
            Some(ArrangementMessage::Quantize)
        } else {
            None
        },
        _ => None,
    }
}

/// The last id in `s` that comes before `x`, if any.
pub open spec fn last_before(s: Seq<NodeId>, x: NodeId) -> Option<NodeId>
    decreases s.len(),
{
    if s.len() == 0 {
        None
    } else if s.last().0 < x.0 {
        Some(s.last())
    } else {
        last_before(s.drop_last(), x)
    }
}

/// The first id in `s` that comes after `x`, if any.
pub open spec fn first_after(s: Seq<NodeId>, x: NodeId) -> Option<NodeId>
    decreases s.len(),
{
    if s.len() == 0 {
        None
    } else if s[0].0 > x.0 {
        Some(s[0])
    } else {
        first_after(s.drop_first(), x)
    }
}

/// The first element of `s`, if any.
pub open spec fn first_of(s: Seq<NodeId>) -> Option<NodeId> {
    if s.len() == 0 {
        None
    } else {
        Some(s[0])
    }
}

/// The last element of `s`, if any.
pub open spec fn last_of(s: Seq<NodeId>) -> Option<NodeId> {
    if s.len() == 0 {
        None
    } else {
        Some(s.last())
    }
}

/// The first of two options that is `Some`.
pub open spec fn or_else(a: Option<NodeId>, b: Option<NodeId>) -> Option<NodeId> {
    match a {
        Some(x) => Some(x),
        None => b,
    }
}

/// The node that moving the selection up selects. From a channel: the channel before it, or
/// else the last track. From a track: the track before it. The master where there is none.
pub open spec fn select_prev_spec(
    selected: NodeId,
    on_channel: bool,
    tracks: Seq<NodeId>,
    channels: Seq<NodeId>,
    master: NodeId,
) -> NodeId {
    let found = if on_channel {
        or_else(last_before(channels, selected), last_of(tracks))
    } else {
        last_before(tracks, selected)
    };
    match found {
        Some(id) => id,
        None => master,
    }
}

/// The node that moving the selection down selects. From a channel: the channel after it,
/// or else the last channel. From a track: the track after it, or else the first channel, or
/// else the last track. The master where there is none.
pub open spec fn select_next_spec(
    selected: NodeId,
    on_channel: bool,
    tracks: Seq<NodeId>,
    channels: Seq<NodeId>,
    master: NodeId,
) -> NodeId {
    let found = if on_channel {
        or_else(first_after(channels, selected), last_of(channels))
    } else {
        or_else(first_after(tracks, selected), or_else(first_of(channels), last_of(tracks)))
    };
    match found {
        Some(id) => id,
        None => master,
    }
}

proof fn lemma_last_before_in(s: Seq<NodeId>, x: NodeId)
    ensures
        last_before(s, x) matches Some(v) ==> s.contains(v) && v.0 < x.0,
    decreases s.len(),
{
    if s.len() > 0 && !(s.last().0 < x.0) {
        lemma_last_before_in(s.drop_last(), x);
        if let Some(v) = last_before(s.drop_last(), x) {
            let i = choose|i: int| 0 <= i < s.drop_last().len() && s.drop_last()[i] == v;
            assert(s[i] == v);
        }
    }
    if s.len() > 0 && s.last().0 < x.0 {
        assert(s[s.len() - 1] == s.last());
    }
}

proof fn lemma_first_after_in(s: Seq<NodeId>, x: NodeId)
    ensures
        first_after(s, x) matches Some(v) ==> s.contains(v) && v.0 > x.0,
    decreases s.len(),
{
    if s.len() > 0 && !(s[0].0 > x.0) {
        lemma_first_after_in(s.drop_first(), x);
        if let Some(v) = first_after(s.drop_first(), x) {
            let i = choose|i: int| 0 <= i < s.drop_first().len() && s.drop_first()[i] == v;
            assert(s[i + 1] == v);
        }
    }
}

fn rfind_before(s: &[NodeId], x: NodeId) -> (r: Option<NodeId>)
    ensures
        r == last_before(s@, x),
{
    let mut i: usize = s.len();
    assert(s@.take(i as int) =~= s@);
    while i > 0
        invariant
            i <= s@.len(),
            last_before(s@.take(i as int), x) == last_before(s@, x),
        decreases i,
    {
        let v = s[i - 1];
        assert(s@.take(i as int).last() == v);
        assert(s@.take(i as int).drop_last() =~= s@.take(i - 1));
        if v.0 < x.0 {
            return Some(v);
        }
        i = i - 1;
    }
    assert(s@.take(0) =~= Seq::<NodeId>::empty());
    None
}

fn find_after(s: &[NodeId], x: NodeId) -> (r: Option<NodeId>)
    ensures
        r == first_after(s@, x),
{
    let mut i: usize = 0;
    assert(s@.skip(0) =~= s@);
    while i < s.len()
        invariant
            i <= s@.len(),
            first_after(s@.skip(i as int), x) == first_after(s@, x),
        decreases s@.len() - i,
    {
        let v = s[i];
        assert(s@.skip(i as int)[0] == v);
        assert(s@.skip(i as int).drop_first() =~= s@.skip(i + 1));
        if v.0 > x.0 {
            return Some(v);
        }
        i = i + 1;
    }
    assert(s@.skip(i as int) =~= Seq::<NodeId>::empty());
    None
}

fn first_in(s: &[NodeId]) -> (r: Option<NodeId>)
    ensures
        r == first_of(s@),
{
    if s.len() == 0 {
        None
    } else {
        Some(s[0])
    }
}

fn last_in(s: &[NodeId]) -> (r: Option<NodeId>)
    ensures
        r == last_of(s@),
{
    if s.len() == 0 {
        None
    } else {
        Some(s[s.len() - 1])
    }
}

/// The node that the selection moves to when it moves up from `selected`, which is a channel
/// where `on_channel` holds and otherwise a track. The tracks and the channels are given in
/// the order they are shown in.
pub fn select_prev(
    selected: NodeId,
    on_channel: bool,
    tracks: &[NodeId],
    channels: &[NodeId],
    master: NodeId,
) -> (r: NodeId)
    ensures
        r == select_prev_spec(selected, on_channel, tracks@, channels@, master),
        r == master || tracks@.contains(r) || channels@.contains(r),
{
    proof {
        lemma_last_before_in(tracks@, selected);
        lemma_last_before_in(channels@, selected);
        if tracks@.len() > 0 {
            assert(tracks@[tracks@.len() - 1] == tracks@.last());
        }
    }
    let found = if on_channel {
        match rfind_before(channels, selected) {
            Some(id) => Some(id),
            None => last_in(tracks),
        }
    } else {
        rfind_before(tracks, selected)
    };
    match found {
        Some(id) => id,
        None => master,
    }
}

/// The node that the selection moves to when it moves down from `selected`, which is a
/// channel where `on_channel` holds and otherwise a track.
pub fn select_next(
    selected: NodeId,
    on_channel: bool,
    tracks: &[NodeId],
    channels: &[NodeId],
    master: NodeId,
) -> (r: NodeId)
    ensures
        r == select_next_spec(selected, on_channel, tracks@, channels@, master),
        r == master || tracks@.contains(r) || channels@.contains(r),
{
    proof {
        lemma_first_after_in(tracks@, selected);
        lemma_first_after_in(channels@, selected);
        if tracks@.len() > 0 {
            assert(tracks@[tracks@.len() - 1] == tracks@.last());
        }
        if channels@.len() > 0 {
            assert(channels@[channels@.len() - 1] == channels@.last());
            assert(channels@.contains(channels@[0]));
        }
    }
    let found = if on_channel {
        match find_after(channels, selected) {
            Some(id) => Some(id),
            None => last_in(channels),
        }
    } else {
        match find_after(tracks, selected) {
            Some(id) => Some(id),
            None => match first_in(channels) {
                Some(id) => Some(id),
                None => last_in(tracks),
            },
        }
    };
    match found {
        Some(id) => id,
        None => master,
    }
}

/// The state of the arrangement view that its messages decide on: the tab shown, whether a
/// MIDI clip is open in the piano roll, the selected mixer node and its kind, and the soloed
/// track.
#[derive(Clone, Copy, Debug)]
pub struct ViewState {
    pub tab: Tab,
    pub midi_clip: Option<(usize, usize)>,
    pub selected: NodeId,
    pub selected_type: NodeType,
    pub soloed: Option<NodeId>,
}

/// The messages of the arrangement view that change its state or ask for work.
#[derive(Clone, Copy, Debug, PartialEq, Eq, Structural)]
pub enum ViewMessage {
    CycleTabForwards,
    CycleTabBackwards,
    ChangedTab(Tab),
    UnselectAll,
    Delete,
    TrackToggleEnabled(NodeId),
    TrackToggleSolo(NodeId),
    ArrowUp,
    ArrowDown,
    /// Moves left by the snapping step of the view.
    ArrowLeft(BeatTime),
    /// Moves right by the snapping step of the view.
    ArrowRight(BeatTime),
    TransposeOctUp,
    TransposeOctDown,
}

/// The work that a message asks of the rest of the application.
#[derive(Clone, Copy, Debug, PartialEq, Eq, Structural)]
pub enum ViewAction {
    /// Ends the drag under way in the playlist.
    FinishPlaylist,
    /// Ends the drag under way in the piano roll.
    FinishPianoRoll,
    ClearPlaylist,
    ClearPianoRoll,
    DeletePlaylistSelection,
    DeletePianoRollSelection,
    RemoveChannel(NodeId),
    RemoveTrack(NodeId),
    ToggleChannelEnabled(NodeId),
    EnableAllTracks,
    SoloTrack(NodeId),
    /// Drags the selected clips of the playlist by some tracks (down where positive) and by a
    /// change of time.
    DragPlaylist(i8, Delta),
    /// Drags the selected notes of the piano roll by some keys (up where positive) and by a
    /// change of time.
    DragPianoRoll(i8, Delta),
    SelectPrevNode,
    SelectNextNode,
}

/// The tab after cycling forwards: the piano roll comes after the mixer only where a MIDI
/// clip is open.
pub open spec fn next_tab(tab: Tab, clip_open: bool) -> Tab {
    match tab {
        Tab::Playlist => Tab::Mixer,
        Tab::Mixer => if clip_open { Tab::PianoRoll } else { Tab::Playlist },
        Tab::PianoRoll => Tab::Playlist,
    }
}

/// The tab after cycling backwards: the piano roll comes before the playlist only where a
/// MIDI clip is open.
pub open spec fn prev_tab(tab: Tab, clip_open: bool) -> Tab {
    match tab {
        Tab::Mixer => Tab::Playlist,
        Tab::Playlist => if clip_open { Tab::PianoRoll } else { Tab::Mixer },
        Tab::PianoRoll => Tab::Mixer,
    }
}

/// The work that leaving a tab asks for: a drag under way there ends.
pub open spec fn leave_tab(tab: Tab) -> Seq<ViewAction> {
    match tab {
        Tab::Playlist => seq![ViewAction::FinishPlaylist],
        Tab::Mixer => Seq::empty(),
        Tab::PianoRoll => seq![ViewAction::FinishPianoRoll],
    }
}

/// The state after a message and the work it asks for, in order.
pub open spec fn view_step_spec(s: ViewState, msg: ViewMessage) -> (ViewState, Seq<ViewAction>) {
    let open = s.midi_clip is Some;
    match msg {
        ViewMessage::CycleTabForwards => (ViewState { tab: next_tab(s.tab, open), ..s }, leave_tab(s.tab)),
        ViewMessage::CycleTabBackwards => (ViewState { tab: prev_tab(s.tab, open), ..s }, leave_tab(s.tab)),
        ViewMessage::ChangedTab(t) => (ViewState { tab: t, ..s }, leave_tab(s.tab)),
        ViewMessage::UnselectAll => (s, match s.tab {
            Tab::Playlist => seq![ViewAction::ClearPlaylist],
            Tab::Mixer => Seq::empty(),
            Tab::PianoRoll => seq![ViewAction::ClearPianoRoll],
        }),
        ViewMessage::Delete => (s, match s.tab {
            Tab::Playlist => seq![ViewAction::FinishPlaylist, ViewAction::DeletePlaylistSelection],
            Tab::Mixer => match s.selected_type {
                NodeType::Master => Seq::empty(),
                NodeType::Channel => seq![ViewAction::RemoveChannel(s.selected)],
                NodeType::Track => seq![ViewAction::RemoveTrack(s.selected)],
            },
            Tab::PianoRoll => seq![ViewAction::FinishPianoRoll, ViewAction::DeletePianoRollSelection],
        }),
        ViewMessage::TrackToggleEnabled(node) => (
            ViewState { soloed: None, ..s },
            seq![ViewAction::ToggleChannelEnabled(node)],
        ),
        ViewMessage::TrackToggleSolo(node) => if s.soloed == Some(node) {
            (ViewState { soloed: None, ..s }, seq![ViewAction::EnableAllTracks])
        } else {
            (ViewState { soloed: Some(node), ..s }, seq![ViewAction::SoloTrack(node)])
        },
        ViewMessage::ArrowUp => (s, arrow_actions(s.tab, -1i8, 1, Delta::Later(BeatTime(FixedPoint(0))), None)),
        ViewMessage::ArrowDown => (s, arrow_actions(s.tab, 1, -1i8, Delta::Later(BeatTime(FixedPoint(0))), None)),
        ViewMessage::ArrowLeft(step) => (s, arrow_actions(s.tab, 0, 0, Delta::Earlier(step), Some(ViewAction::SelectPrevNode))),
        ViewMessage::ArrowRight(step) => (s, arrow_actions(s.tab, 0, 0, Delta::Later(step), Some(ViewAction::SelectNextNode))),
        ViewMessage::TransposeOctUp => (s, if s.tab == Tab::PianoRoll {
            arrow_actions(s.tab, 0, 12, Delta::Later(BeatTime(FixedPoint(0))), None)
        } else {
            Seq::empty()
        }),
        ViewMessage::TransposeOctDown => (s, if s.tab == Tab::PianoRoll {
            arrow_actions(s.tab, 0, -12i8, Delta::Later(BeatTime(FixedPoint(0))), None)
        } else {
            Seq::empty()
        }),
    }
}

/// The work that an arrow key asks for in each tab: in the playlist the selected clips are
/// dragged by `tracks` tracks, in the piano roll the selected notes by `keys` keys, both by
/// `time`; in the mixer the selection moves as `mixer` says.
pub open spec fn arrow_actions(tab: Tab, tracks: i8, keys: i8, time: Delta, mixer: Option<ViewAction>) -> Seq<ViewAction> {
    match tab {
        Tab::Playlist => seq![ViewAction::FinishPlaylist, ViewAction::DragPlaylist(tracks, time)],
        Tab::Mixer => match mixer {
            Some(a) => seq![a],
            None => Seq::empty(),
        },
        Tab::PianoRoll => seq![ViewAction::FinishPianoRoll, ViewAction::DragPianoRoll(keys, time)],
    }
}

fn arrow_work(tab: Tab, tracks: i8, keys: i8, time: Delta, mixer: Option<ViewAction>) -> (r: Vec<ViewAction>)
    ensures
        r@ == arrow_actions(tab, tracks, keys, time, mixer),
{
    match tab {
        Tab::Playlist => vec![ViewAction::FinishPlaylist, ViewAction::DragPlaylist(tracks, time)],
        Tab::Mixer => match mixer {
            Some(a) => vec![a],
            None => Vec::new(),
        },
        Tab::PianoRoll => vec![ViewAction::FinishPianoRoll, ViewAction::DragPianoRoll(keys, time)],
    }
}

fn leave(tab: Tab) -> (r: Vec<ViewAction>)
    ensures
        r@ == leave_tab(tab),
{
    match tab {
        Tab::Playlist => vec![ViewAction::FinishPlaylist],
        Tab::Mixer => Vec::new(),
        Tab::PianoRoll => vec![ViewAction::FinishPianoRoll],
    }
}

/// Applies a message of the arrangement view to its state and gives the work it asks for.
pub fn view_step(state: &mut ViewState, msg: ViewMessage) -> (r: Vec<ViewAction>)
    ensures
        (*final(state), r@) == view_step_spec(*old(state), msg),
{
    let open = state.midi_clip.is_some();
    match msg {
        ViewMessage::CycleTabForwards => {
            let r = leave(state.tab);
            state.tab = match state.tab {
                Tab::Playlist => Tab::Mixer,
                Tab::Mixer => if open { Tab::PianoRoll } else { Tab::Playlist },
                Tab::PianoRoll => Tab::Playlist,
            };
            r
        },
        ViewMessage::CycleTabBackwards => {
            let r = leave(state.tab);
            state.tab = match state.tab {
                Tab::Mixer => Tab::Playlist,
                Tab::Playlist => if open { Tab::PianoRoll } else { Tab::Mixer },
                Tab::PianoRoll => Tab::Mixer,
            };
            r
        },
        ViewMessage::ChangedTab(t) => {
            let r = leave(state.tab);
            state.tab = t;
            r
        },
        ViewMessage::UnselectAll => match state.tab {
            Tab::Playlist => vec![ViewAction::ClearPlaylist],
            Tab::Mixer => Vec::new(),
            Tab::PianoRoll => vec![ViewAction::ClearPianoRoll],
        },
        ViewMessage::Delete => match state.tab {
            Tab::Playlist => vec![ViewAction::FinishPlaylist, ViewAction::DeletePlaylistSelection],
            Tab::Mixer => match state.selected_type {
                NodeType::Master => Vec::new(),
                NodeType::Channel => vec![ViewAction::RemoveChannel(state.selected)],
                NodeType::Track => vec![ViewAction::RemoveTrack(state.selected)],
            },
            Tab::PianoRoll => vec![ViewAction::FinishPianoRoll, ViewAction::DeletePianoRollSelection],
        },
        ViewMessage::TrackToggleEnabled(node) => {
            state.soloed = None;
            vec![ViewAction::ToggleChannelEnabled(node)]
        },
        ViewMessage::TrackToggleSolo(node) => {
            let same = match state.soloed {
                Some(n) => n.0 == node.0,
                None => false,
            };
            if same {
                state.soloed = None;
                vec![ViewAction::EnableAllTracks]
            } else {
                state.soloed = Some(node);
                vec![ViewAction::SoloTrack(node)]
            }
        },
        ViewMessage::ArrowUp => arrow_work(state.tab, -1, 1, Delta::Later(BeatTime::zero()), None),
        ViewMessage::ArrowDown => arrow_work(state.tab, 1, -1, Delta::Later(BeatTime::zero()), None),
        ViewMessage::ArrowLeft(step) => arrow_work(state.tab, 0, 0, Delta::Earlier(step), Some(ViewAction::SelectPrevNode)),
        ViewMessage::ArrowRight(step) => arrow_work(state.tab, 0, 0, Delta::Later(step), Some(ViewAction::SelectNextNode)),
        ViewMessage::TransposeOctUp => match state.tab {
            Tab::PianoRoll => arrow_work(state.tab, 0, 12, Delta::Later(BeatTime::zero()), None),
            _ => Vec::new(),
        },
        ViewMessage::TransposeOctDown => match state.tab {
            Tab::PianoRoll => arrow_work(state.tab, 0, -12, Delta::Later(BeatTime::zero()), None),
            _ => Vec::new(),
        },
    }
}

/// The position of a MIDI clip added at `pos` for a pattern `pattern_len` long: it lasts the
/// pattern's length, or one bar where the pattern is shorter, and at least one tick.
pub fn added_midi_clip_range(pattern_len: BeatTime, pos: BeatTime, transport: &crate::transport::Transport) -> (r: BeatRange)
    requires
        pattern_len@ <= u64::MAX / 2,
        pos@ <= u64::MAX / 2,
        crate::time::beat_time::bar_len(*transport) <= u64::MAX / 2,
    ensures
        r@ == (pos@, pos@ + crate::time::beat_range::range_new_spec(
            0,
            if pattern_len@ > crate::time::beat_time::bar_len(*transport) { pattern_len@ } else { crate::time::beat_time::bar_len(*transport) },
        ).1),
{
    let bar = BeatTime::bar_length(transport);
    let len = if pattern_len.to_bits() > bar.to_bits() { pattern_len } else { bar };
    let mut range = BeatRange::default();
    range.trim_end_to(len);
    range.move_to(pos);
    range
}

/// In the piano roll the up arrow moves the selected notes up (a positive number of keys), an
/// octave up is that same drag taken twelve times as far, and an octave down is the opposite
/// of an octave up; none of them changes the view's state. Outside the piano roll the octave
/// keys ask for nothing.
pub proof fn lemma_octave_is_twelve_key_steps(s: ViewState)
    ensures
        view_step_spec(s, ViewMessage::TransposeOctUp).0 == s,
        view_step_spec(s, ViewMessage::TransposeOctDown).0 == s,
        s.tab != Tab::PianoRoll ==> view_step_spec(s, ViewMessage::TransposeOctUp).1.len() == 0
            && view_step_spec(s, ViewMessage::TransposeOctDown).1.len() == 0,
        s.tab == Tab::PianoRoll ==> {
            let up = view_step_spec(s, ViewMessage::ArrowUp).1;
            let oct_up = view_step_spec(s, ViewMessage::TransposeOctUp).1;
            let oct_down = view_step_spec(s, ViewMessage::TransposeOctDown).1;
            &&& up.len() == 2 && oct_up.len() == 2 && oct_down.len() == 2
            &&& oct_up[0] == up[0] && oct_down[0] == up[0]
            &&& up[1] matches ViewAction::DragPianoRoll(k, t) && k > 0
                && oct_up[1] == ViewAction::DragPianoRoll((12 * k) as i8, t)
                && oct_down[1] == ViewAction::DragPianoRoll((-12 * k) as i8, t)
        },
{
}

} // verus!
