use vstd::prelude::*;

verus! {

/// Identifies one sounding note from its note-on to its note-off.
#[derive(Clone, Copy, Debug, PartialEq, Eq, Structural, Hash)]
pub struct NoteId(pub u64);

/// A note starting or stopping (at the start of the next block).
#[derive(Clone, Copy, Debug, PartialEq, Eq, Structural)]
pub enum NoteEvent {
    On { key: u8, note_id: NoteId },
    Off { key: u8, note_id: NoteId },
}

/// The physical keys of the computer keyboard that play notes or change the octave.
#[derive(Clone, Copy, Debug, PartialEq, Eq, Structural, Hash)]
pub enum KeyCode {
    KeyA,
    KeyW,
    KeyS,
    KeyE,
    KeyD,
    KeyF,
    KeyT,
    KeyG,
    KeyY,
    KeyH,
    KeyU,
    KeyJ,
    KeyK,
    KeyZ,
    KeyX,
    Other,
}

/// What a key of the computer keyboard does.
#[derive(Clone, Copy, Debug, PartialEq, Eq, Structural)]
pub enum TypingKey {
    Note(u8),
    OctaveDown,
    OctaveUp,
}

/// The semitone above the octave's C that a key plays, for the keys that play notes.
pub open spec fn semitone_of(code: KeyCode) -> Option<int> {
    match code {
        KeyCode::KeyA => Some(0),
        KeyCode::KeyW => Some(1),
        KeyCode::KeyS => Some(2),
        KeyCode::KeyE => Some(3),
        KeyCode::KeyD => Some(4),
        KeyCode::KeyF => Some(5),
        KeyCode::KeyT => Some(6),
        KeyCode::KeyG => Some(7),
        KeyCode::KeyY => Some(8),
        KeyCode::KeyH => Some(9),
        KeyCode::KeyU => Some(10),
        KeyCode::KeyJ => Some(11),
        KeyCode::KeyK => Some(12),
        _ => None,
    }
}

/// What a key does at the given octave: `Z` and `X` step the octave, the note keys play the
/// note `(octave + 1) * 12 + semitone` where that is a MIDI key (0 to 127).
pub open spec fn typing_key_spec(code: KeyCode, octave: int) -> Option<TypingKey> {
    match code {
        KeyCode::KeyZ => Some(TypingKey::OctaveDown),
        KeyCode::KeyX => Some(TypingKey::OctaveUp),
        _ => match semitone_of(code) {
            Some(s) => {
                let key = (octave + 1) * 12 + s;
                if 0 <= key <= 127 {
                    Some(TypingKey::Note(key as u8))
                } else {
                    None
                }
            },
            None => None,
        },
    }
}

/// What a key of the computer keyboard does at the given octave.
pub fn map_typing_key(code: KeyCode, octave: i8) -> (r: Option<TypingKey>)
    requires
        -1 <= octave <= 8,
    ensures
        r == typing_key_spec(code, octave as int),
{
    let semitone: i16 = match code {
        KeyCode::KeyA => 0,
        KeyCode::KeyW => 1,
        KeyCode::KeyS => 2,
        KeyCode::KeyE => 3,
        KeyCode::KeyD => 4,
        KeyCode::KeyF => 5,
        KeyCode::KeyT => 6,
        KeyCode::KeyG => 7,
        KeyCode::KeyY => 8,
        KeyCode::KeyH => 9,
        KeyCode::KeyU => 10,
        KeyCode::KeyJ => 11,
        KeyCode::KeyK => 12,
        KeyCode::KeyZ => {
            return Some(TypingKey::OctaveDown);
        },
        KeyCode::KeyX => {
            return Some(TypingKey::OctaveUp);
        },
        KeyCode::Other => {
            return None;
        },
    };
    let key: i16 = (octave as i16 + 1) * 12 + semitone;
    if 0 <= key && key <= 127 {
        Some(TypingKey::Note(key as u8))
    } else {
        None
    }
}

/// The octave after one step, kept within -1 to 8.
pub open spec fn step_octave(octave: int, up: bool) -> int {
    let o = if up { octave + 1 } else { octave - 1 };
    if o < -1 {
        -1
    } else if o > 8 {
        8
    } else {
        o
    }
}

/// Whether `s` holds an entry for `code`.
pub open spec fn typing_has(s: Seq<(KeyCode, u8, NoteId)>, code: KeyCode) -> bool {
    exists|i: int| 0 <= i < s.len() && (#[trigger] s[i]).0 == code
}

/// The index of the first external entry for `(channel, key)`, if any.
pub open spec fn first_external(s: Seq<(u8, u8, NoteId)>, channel: u8, key: u8, i: int) -> bool {
    &&& 0 <= i < s.len()
    &&& s[i].0 == channel && s[i].1 == key
    &&& forall|k: int| 0 <= k < i ==> !((#[trigger] s[k]).0 == channel && s[k].1 == key)
}

/// The notes that are being played live: those started from MIDI input, in the order they
/// started, and those started from the computer keyboard, one per key; and the keyboard's
/// octave.
#[derive(Debug)]
pub struct LiveMidiState {
    external_active: Vec<(u8, u8, NoteId)>,
    typing_active: Vec<(KeyCode, u8, NoteId)>,
    typing_octave: i8,
}

impl View for LiveMidiState {
    type V = (Seq<(u8, u8, NoteId)>, Seq<(KeyCode, u8, NoteId)>, int);

    closed spec fn view(&self) -> (Seq<(u8, u8, NoteId)>, Seq<(KeyCode, u8, NoteId)>, int) {
        (self.external_active@, self.typing_active@, self.typing_octave as int)
    }
}

impl LiveMidiState {
    /// The octave is within -1 to 8 and each key of the computer keyboard plays at most one
    /// note.
    pub open spec fn wf(&self) -> bool {
        &&& -1 <= self@.2 <= 8
        &&& forall|i: int, j: int|
            0 <= i < j < self@.1.len() ==> (#[trigger] self@.1[i]).0 != (#[trigger] self@.1[j]).0
    }

    /// Starts a note from MIDI input under the fresh id `note_id`.
    pub fn note_on(&mut self, channel: u8, key: u8, note_id: NoteId) -> (r: NoteEvent)
        requires
            old(self).wf(),
        ensures
            final(self).wf(),
            r == (NoteEvent::On { key, note_id }),
            final(self)@ == (old(self)@.0.push((channel, key, note_id)), old(self)@.1, old(self)@.2),
    {
        self.external_active.push((channel, key, note_id));
        NoteEvent::On { key, note_id }
    }

    /// Stops the oldest note that MIDI input started on `(channel, key)`; `None` where there is
    /// none.
    pub fn note_off(&mut self, channel: u8, key: u8) -> (r: Option<NoteEvent>)
        requires
            old(self).wf(),
        ensures
            final(self).wf(),
            final(self)@.1 == old(self)@.1,
            final(self)@.2 == old(self)@.2,
            match r {
                Some(e) => exists|i: int|
                    first_external(old(self)@.0, channel, key, i) && e == (NoteEvent::Off {
                        key,
                        note_id: #[trigger] old(self)@.0[i].2,
                    }) && final(self)@.0 == old(self)@.0.remove(i),
                None => {
                    &&& final(self)@.0 == old(self)@.0
                    &&& forall|k: int|
                        0 <= k < old(self)@.0.len() ==> !((#[trigger] old(self)@.0[k]).0 == channel
                            && old(self)@.0[k].1 == key)
                },
            },
    {
        let n = self.external_active.len();
        let mut i: usize = 0;
        while i < n
            invariant
                old(self).wf(),
                self.external_active@ == old(self)@.0,
                self.typing_active@ == old(self)@.1,
                self.typing_octave == old(self)@.2,
                n == self.external_active@.len(),
                0 <= i <= n,
                forall|k: int|
                    0 <= k < i ==> !((#[trigger] self.external_active@[k]).0 == channel
                        && self.external_active@[k].1 == key),
            decreases n - i,
        {
            let (c, k, note_id) = self.external_active[i];
            if c == channel && k == key {
                self.external_active.remove(i);
                assert(first_external(old(self)@.0, channel, key, i as int));
                return Some(NoteEvent::Off { key, note_id });
            }
            i = i + 1;
        }
        None
    }

    /// Presses a key of the computer keyboard: a note key that is not already held starts its
    /// note under the fresh id `note_id`; `Z` and `X` step the octave down and up.
    pub fn typing_press(&mut self, code: KeyCode, note_id: NoteId) -> (r: Option<NoteEvent>)
        requires
            old(self).wf(),
        ensures
            final(self).wf(),
            final(self)@.0 == old(self)@.0,
            match typing_key_spec(code, old(self)@.2) {
                Some(TypingKey::Note(key)) => if typing_has(old(self)@.1, code) {
                    r is None && final(self)@ == old(self)@
                } else {
                    &&& r == Some(NoteEvent::On { key, note_id })
                    &&& final(self)@.1 == old(self)@.1.push((code, key, note_id))
                    &&& final(self)@.2 == old(self)@.2
                },
                Some(TypingKey::OctaveDown) => {
                    &&& r is None
                    &&& final(self)@.1 == old(self)@.1
                    &&& final(self)@.2 == step_octave(old(self)@.2, false)
                },
                Some(TypingKey::OctaveUp) => {
                    &&& r is None
                    &&& final(self)@.1 == old(self)@.1
                    &&& final(self)@.2 == step_octave(old(self)@.2, true)
                },
                None => r is None && final(self)@ == old(self)@,
            },
    {
        match map_typing_key(code, self.typing_octave) {
            Some(TypingKey::Note(key)) => {
                if self.typing_position(code).is_some() {
                    return None;
                }
                self.typing_active.push((code, key, note_id));
                proof {
                    assert forall|i: int, j: int|
                        0 <= i < j < self@.1.len() implies (#[trigger] self@.1[i]).0
                        != (#[trigger] self@.1[j]).0 by {
                        if j == self@.1.len() - 1 {
                            assert(old(self)@.1[i] == self@.1[i]);
                        }
                    }
                }
                Some(NoteEvent::On { key, note_id })
            },
            Some(TypingKey::OctaveDown) => {
                let o = self.typing_octave - 1;
                self.typing_octave = if o < -1 { -1 } else if o > 8 { 8 } else { o };
                None
            },
            Some(TypingKey::OctaveUp) => {
                let o = self.typing_octave + 1;
                self.typing_octave = if o < -1 { -1 } else if o > 8 { 8 } else { o };
                None
            },
            None => None,
        }
    }

    fn typing_position(&self, code: KeyCode) -> (r: Option<usize>)
        ensures
            match r {
                Some(i) => i < self@.1.len() && self@.1[i as int].0 == code,
                None => !typing_has(self@.1, code),
            },
    {
        let n = self.typing_active.len();
        let mut i: usize = 0;
        while i < n
            invariant
                n == self.typing_active@.len(),
                0 <= i <= n,
                forall|k: int| 0 <= k < i ==> (#[trigger] self.typing_active@[k]).0 != code,
            decreases n - i,
        {
            if same_code(self.typing_active[i].0, code) {
                return Some(i);
            }
            i = i + 1;
        }
        None
    }

    /// Releases a key of the computer keyboard, stopping the note it holds; `None` where it
    /// holds none.
    pub fn typing_release(&mut self, code: KeyCode) -> (r: Option<NoteEvent>)
        requires
            old(self).wf(),
        ensures
            final(self).wf(),
            final(self)@.0 == old(self)@.0,
            final(self)@.2 == old(self)@.2,
            match r {
                Some(e) => exists|i: int|
                    0 <= i < old(self)@.1.len() && (#[trigger] old(self)@.1[i]).0 == code && e == (
                    NoteEvent::Off { key: old(self)@.1[i].1, note_id: old(self)@.1[i].2 })
                        && final(self)@.1 == old(self)@.1.remove(i),
                None => !typing_has(old(self)@.1, code) && final(self)@ == old(self)@,
            },
    {
        match self.typing_position(code) {
            Some(i) => {
                let (_, key, note_id) = self.typing_active.remove(i);
                proof {
                    assert forall|a: int, b: int|
                        0 <= a < b < self@.1.len() implies (#[trigger] self@.1[a]).0
                        != (#[trigger] self@.1[b]).0 by {
                        let oa = if a < i { a } else { a + 1 };
                        let ob = if b < i { b } else { b + 1 };
                        assert(self@.1[a] == old(self)@.1[oa]);
                        assert(self@.1[b] == old(self)@.1[ob]);
                    }
                }
                Some(NoteEvent::Off { key, note_id })
            },
            None => None,
        }
    }

    /// The number of notes being played from the computer keyboard.
    pub fn typing_count(&self) -> (r: usize)
        ensures
            r == self@.1.len(),
    {
        self.typing_active.len()
    }

    /// Stops every note: first those of the computer keyboard, then those of MIDI input, each
    /// in the order they started.
    pub fn release_all(&mut self) -> (r: Vec<NoteEvent>)
        requires
            old(self).wf(),
        ensures
            final(self).wf(),
            final(self)@ == (
                Seq::<(u8, u8, NoteId)>::empty(),
                Seq::<(KeyCode, u8, NoteId)>::empty(),
                old(self)@.2,
            ),
            r@.len() == old(self)@.1.len() + old(self)@.0.len(),
            forall|i: int|
                0 <= i < old(self)@.1.len() ==> #[trigger] r@[i] == (NoteEvent::Off {
                    key: old(self)@.1[i].1,
                    note_id: old(self)@.1[i].2,
                }),
            forall|i: int|
                0 <= i < old(self)@.0.len() ==> #[trigger] r@[old(self)@.1.len() + i] == (
                NoteEvent::Off { key: old(self)@.0[i].1, note_id: old(self)@.0[i].2 }),
    {
        let mut events: Vec<NoteEvent> = Vec::new();
        let n = self.typing_active.len();
        let mut i: usize = 0;
        while i < n
            invariant
                self.typing_active@ == old(self)@.1,
                n == self.typing_active@.len(),
                0 <= i <= n,
                events@.len() == i,
                forall|k: int|
                    0 <= k < i ==> #[trigger] events@[k] == (NoteEvent::Off {
                        key: old(self)@.1[k].1,
                        note_id: old(self)@.1[k].2,
                    }),
            decreases n - i,
        {
            let (_, key, note_id) = self.typing_active[i];
            events.push(NoteEvent::Off { key, note_id });
            i = i + 1;
        }
        let m = self.external_active.len();
        let mut j: usize = 0;
        while j < m
            invariant
                self.external_active@ == old(self)@.0,
                m == self.external_active@.len(),
                n == old(self)@.1.len(),
                0 <= j <= m,
                events@.len() == n + j,
                forall|k: int|
                    0 <= k < n ==> #[trigger] events@[k] == (NoteEvent::Off {
                        key: old(self)@.1[k].1,
                        note_id: old(self)@.1[k].2,
                    }),
                forall|k: int|
                    0 <= k < j ==> #[trigger] events@[n + k] == (NoteEvent::Off {
                        key: old(self)@.0[k].1,
                        note_id: old(self)@.0[k].2,
                    }),
            decreases m - j,
        {
            let (_, key, note_id) = self.external_active[j];
            events.push(NoteEvent::Off { key, note_id });
            j = j + 1;
        }
        self.typing_active = Vec::new();
        self.external_active = Vec::new();
        events
    }
}

impl Default for LiveMidiState {
    /// No notes playing, at octave 4.
    fn default() -> (r: Self)
        ensures
            r.wf(),
            r@ == (Seq::<(u8, u8, NoteId)>::empty(), Seq::<(KeyCode, u8, NoteId)>::empty(), 4int),
    {
        LiveMidiState { external_active: Vec::new(), typing_active: Vec::new(), typing_octave: 4 }
    }
}

fn same_code(a: KeyCode, b: KeyCode) -> (r: bool)
    ensures
        r == (a == b),
{
    match (a, b) {
        (KeyCode::KeyA, KeyCode::KeyA) => true,
        (KeyCode::KeyW, KeyCode::KeyW) => true,
        (KeyCode::KeyS, KeyCode::KeyS) => true,
        (KeyCode::KeyE, KeyCode::KeyE) => true,
        (KeyCode::KeyD, KeyCode::KeyD) => true,
        (KeyCode::KeyF, KeyCode::KeyF) => true,
        (KeyCode::KeyT, KeyCode::KeyT) => true,
        (KeyCode::KeyG, KeyCode::KeyG) => true,
        (KeyCode::KeyY, KeyCode::KeyY) => true,
        (KeyCode::KeyH, KeyCode::KeyH) => true,
        (KeyCode::KeyU, KeyCode::KeyU) => true,
        (KeyCode::KeyJ, KeyCode::KeyJ) => true,
        (KeyCode::KeyK, KeyCode::KeyK) => true,
        (KeyCode::KeyZ, KeyCode::KeyZ) => true,
        (KeyCode::KeyX, KeyCode::KeyX) => true,
        (KeyCode::Other, KeyCode::Other) => true,
        _ => false,
    }
}

/// Notes from MIDI input stop oldest first: after a note-on for `(channel, key)`, the note
/// that a note-off for `(channel, key)` stops is the oldest one still playing on it, which is
/// the new one only where no other is playing there.
pub proof fn lemma_note_off_stops_oldest(
    s: Seq<(u8, u8, NoteId)>,
    channel: u8,
    key: u8,
    note_id: NoteId,
    i: int,
)
    requires
        first_external(s.push((channel, key, note_id)), channel, key, i),
    ensures
        i < s.len() ==> first_external(s, channel, key, i),
        i == s.len() <==> forall|k: int|
            0 <= k < s.len() ==> !((#[trigger] s[k]).0 == channel && s[k].1 == key),
        i == s.len() ==> s.push((channel, key, note_id))[i].2 == note_id,
{
    let t = s.push((channel, key, note_id));
    if i < s.len() {
        assert forall|k: int| 0 <= k < i implies !((#[trigger] s[k]).0 == channel && s[k].1
            == key) by {
            assert(t[k] == s[k]);
        }
        assert(t[i] == s[i]);
    } else {
        assert forall|k: int| 0 <= k < s.len() implies !((#[trigger] s[k]).0 == channel
            && s[k].1 == key) by {
            assert(t[k] == s[k]);
        }
    }
    if forall|k: int| 0 <= k < s.len() ==> !((#[trigger] s[k]).0 == channel && s[k].1 == key) {
        if i < s.len() {
            assert(t[i] == s[i]);
        }
    }
}

/// Releasing a key of the computer keyboard right after pressing it stops the very note the
/// press started, and leaves the other held keys as they were.
pub proof fn lemma_press_then_release(
    s: Seq<(KeyCode, u8, NoteId)>,
    code: KeyCode,
    key: u8,
    note_id: NoteId,
    i: int,
)
    requires
        !typing_has(s, code),
        0 <= i < s.len() + 1,
        s.push((code, key, note_id))[i].0 == code,
    ensures
        i == s.len(),
        s.push((code, key, note_id))[i] == (code, key, note_id),
        s.push((code, key, note_id)).remove(i) == s,
{
    let t = s.push((code, key, note_id));
    if i < s.len() {
        assert(t[i] == s[i]);
        assert(false);
    }
    assert(t.remove(i) =~= s);
}

} // verus!
