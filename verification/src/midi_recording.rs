use vstd::prelude::*;
use crate::midi_input::MidiAction;
use crate::time::beat_range::{BeatRange, range_new_spec};
use crate::time::beat_time::BeatTime;
use crate::time::fixed_point::FixedPoint;
use crate::time::{frames_to_seconds, seconds_to_beats};
use crate::transport::Transport;

verus! {

/// A note that is being held while recording: its channel, key and velocity, and the time it
/// started, in ticks from the start of the recording.
#[derive(Clone, Copy, Debug, PartialEq, Eq, Structural)]
pub struct Held {
    pub channel: u8,
    pub key: u8,
    pub vel: u8,
    pub start: u64,
}

/// A note that was recorded: its key, its velocity as MIDI sent it, and where it lies from the
/// start of the recording.
#[derive(Clone, Copy, Debug, PartialEq, Eq, Structural)]
pub struct RecordedNote {
    pub key: u8,
    pub velocity: u8,
    pub position: BeatRange,
}

/// A recorded note as a key, a velocity and the range `(start, end)` in ticks.
pub open spec fn note_view(n: RecordedNote) -> (u8, u8, (nat, nat)) {
    (n.key, n.velocity, n.position@)
}

/// The note that a held note gives when it ends at `end`: at least one tick long.
pub open spec fn ended(h: Held, end: nat) -> (u8, u8, (nat, nat)) {
    (h.key, h.vel, range_new_spec(h.start as nat, end))
}

/// Whether a note is held on `channel` and `key`.
pub open spec fn is_held(held: Seq<Held>, channel: u8, key: u8) -> bool {
    exists|i: int| 0 <= i < held.len() && held[i].channel == channel && held[i].key == key
}

/// Where the note held on `channel` and `key` is.
pub open spec fn held_index(held: Seq<Held>, channel: u8, key: u8) -> int {
    choose|i: int| 0 <= i < held.len() && held[i].channel == channel && held[i].key == key
}

/// At most one note is held on each channel and key.
pub open spec fn unique_keys(held: Seq<Held>) -> bool {
    forall|i: int, j: int|
        0 <= i < j < held.len() ==> !((#[trigger] held[i]).channel == (#[trigger] held[j]).channel
            && held[i].key == held[j].key)
}

/// What one MIDI action at `at` ticks from the start of the recording does to the notes written
/// and the notes held. A note-on starts a note, and where one was held on that channel and key
/// already, writes that one out, ending now; a note-off writes out the note it ends, if any.
pub open spec fn step(
    notes: Seq<(u8, u8, (nat, nat))>,
    held: Seq<Held>,
    at: nat,
    action: MidiAction,
) -> (Seq<(u8, u8, (nat, nat))>, Seq<Held>) {
    match action {
        MidiAction::NoteOn(channel, key, vel) => {
            let h = Held { channel, key, vel, start: at as u64 };
            if is_held(held, channel, key) {
                let i = held_index(held, channel, key);
                (notes.push(ended(held[i], at)), held.update(i, h))
            } else {
                (notes, held.push(h))
            }
        },
        MidiAction::NoteOff(channel, key, _) => {
            if is_held(held, channel, key) {
                let i = held_index(held, channel, key);
                (notes.push(ended(held[i], at)), held.remove(i))
            } else {
                (notes, held)
            }
        },
    }
}

/// The notes written and held after the actions, each at its time in ticks from the start of
/// the recording, in order.
pub open spec fn record(
    notes: Seq<(u8, u8, (nat, nat))>,
    held: Seq<Held>,
    actions: Seq<(nat, MidiAction)>,
) -> (Seq<(u8, u8, (nat, nat))>, Seq<Held>)
    decreases actions.len(),
{
    if actions.len() == 0 {
        (notes, held)
    } else {
        let (n, h) = record(notes, held, actions.drop_last());
        step(n, h, actions.last().0, actions.last().1)
    }
}

/// The actions with their times taken from the start of a recording at `origin`.
pub open spec fn relative(actions: Seq<(BeatTime, MidiAction)>, origin: nat) -> Seq<
    (nat, MidiAction),
> {
    actions.map_values(|a: (BeatTime, MidiAction)| ((a.0@ - origin) as nat, a.1))
}

/// The length of `frames` frames in ticks of beats.
pub open spec fn frames_len(frames: nat, transport: Transport) -> nat {
    seconds_to_beats(frames_to_seconds(frames, transport.sample_rate_spec()), transport.bpm_spec())
}

/// Notes recorded from MIDI input, from a start time on.
#[derive(Clone, Debug)]
pub struct MidiRecording {
    notes: Vec<RecordedNote>,
    playing: Vec<Held>,
    position: BeatTime,
    frames: usize,
}

impl View for MidiRecording {
    /// The notes written so far, the notes held, the start of the recording and the number of
    /// frames recorded.
    type V = (Seq<(u8, u8, (nat, nat))>, Seq<Held>, nat, nat);

    closed spec fn view(&self) -> (Seq<(u8, u8, (nat, nat))>, Seq<Held>, nat, nat) {
        (
            self.notes@.map_values(|n: RecordedNote| note_view(n)),
            self.playing@,
            self.position@,
            self.frames as nat,
        )
    }
}

/// Whether the time `at` from the start of a recording can start a note.
pub open spec fn starts_fit(actions: Seq<(BeatTime, MidiAction)>, origin: nat) -> bool {
    forall|i: int|
        0 <= i < actions.len() ==> origin <= (#[trigger] actions[i]).0@ && actions[i].0@ - origin
            < u64::MAX
}

impl MidiRecording {
    /// At most one note is held on each channel and key, and each can end one tick later.
    pub open spec fn wf(&self) -> bool {
        &&& unique_keys(self@.1)
        &&& forall|i: int| 0 <= i < self@.1.len() ==> (#[trigger] self@.1[i]).start < u64::MAX
    }

    /// A recording that starts at `position`, with nothing recorded.
    pub fn new(position: BeatTime) -> (r: Self)
        ensures
            r.wf(),
            r@ == (Seq::<(u8, u8, (nat, nat))>::empty(), Seq::<Held>::empty(), position@, 0nat),
    {
        let r = MidiRecording { notes: Vec::new(), playing: Vec::new(), position, frames: 0 };
        proof {
            assert(r@.0 =~= Seq::<(u8, u8, (nat, nat))>::empty());
        }
        r
    }

    /// The length of what was recorded, at the transport's tempo.
    pub fn len(&self, transport: &Transport) -> (r: BeatTime)
        requires
            self@.3 * (crate::time::fixed_point::FACTOR as nat) <= u64::MAX,
            frames_to_seconds(self@.3, transport.sample_rate_spec()) * transport.bpm_spec()
                <= u64::MAX,
        ensures
            r@ == frames_len(self@.3, *transport),
    {
        BeatTime::from_frames(self.frames, transport)
    }

    /// Where what was recorded ends.
    pub fn end(&self, transport: &Transport) -> (r: BeatTime)
        requires
            self@.3 * (crate::time::fixed_point::FACTOR as nat) <= u64::MAX,
            frames_to_seconds(self@.3, transport.sample_rate_spec()) * transport.bpm_spec()
                <= u64::MAX,
            self@.2 + frames_len(self@.3, *transport) <= u64::MAX,
        ensures
            r@ == self@.2 + frames_len(self@.3, *transport),
    {
        self.position + self.len(transport)
    }

    fn find(&self, channel: u8, key: u8) -> (r: Option<usize>)
        requires
            unique_keys(self@.1),
        ensures
            r is Some <==> is_held(self@.1, channel, key),
            r matches Some(i) ==> i == held_index(self@.1, channel, key) && i < self@.1.len(),
    {
        let n = self.playing.len();
        let mut i: usize = 0;
        while i < n
            invariant
                n == self.playing@.len(),
                0 <= i <= n,
                unique_keys(self@.1),
                forall|k: int|
                    0 <= k < i ==> !((#[trigger] self.playing@[k]).channel == channel
                        && self.playing@[k].key == key),
            decreases n - i,
        {
            let h = self.playing[i];
            if h.channel == channel && h.key == key {
                proof {
                    let held = self@.1;
                    assert(held[i as int].channel == channel && held[i as int].key == key);
                    assert(is_held(held, channel, key));
                    let j = held_index(held, channel, key);
                    assert(0 <= j < held.len() && held[j].channel == channel && held[j].key == key);
                    if j < i {
                        assert(!(self.playing@[j].channel == channel && self.playing@[j].key == key));
                    } else if j > i {
                        assert(!(held[i as int].channel == held[j].channel && held[i as int].key
                            == held[j].key));
                    }
                }
                return Some(i);
            }
            i = i + 1;
        }
        None
    }

    fn write(&mut self, h: Held, end: u64)
        requires
            h.start < u64::MAX,
        ensures
            final(self)@ == (old(self)@.0.push(ended(h, end as nat)), old(self)@.1, old(self)@.2,
                old(self)@.3),
    {
        let position = BeatRange::new(
            BeatTime(FixedPoint(h.start)),
            BeatTime(FixedPoint(end)),
        );
        let note = RecordedNote { key: h.key, velocity: h.vel, position };
        self.notes.push(note);
        proof {
            assert(self@.0 =~= old(self)@.0.push(ended(h, end as nat)));
        }
    }

    /// Takes in the MIDI actions of a block of `frames` frames, each with its time: notes that
    /// end are written, in the order they end.
    pub fn recorded(&mut self, actions: &[(BeatTime, MidiAction)], frames: usize)
        requires
            old(self).wf(),
            old(self)@.3 + frames <= usize::MAX,
            starts_fit(actions@, old(self)@.2),
        ensures
            final(self).wf(),
            final(self)@.2 == old(self)@.2,
            final(self)@.3 == old(self)@.3 + frames,
            (final(self)@.0, final(self)@.1) == record(
                old(self)@.0,
                old(self)@.1,
                relative(actions@, old(self)@.2),
            ),
    {
        self.frames = self.frames + frames;
        let ghost rel = relative(actions@, old(self)@.2);
        let n = actions.len();
        let mut i: usize = 0;
        while i < n
            invariant
                n == actions@.len(),
                0 <= i <= n,
                self.wf(),
                self@.2 == old(self)@.2,
                self@.3 == old(self)@.3 + frames,
                starts_fit(actions@, old(self)@.2),
                rel == relative(actions@, old(self)@.2),
                (self@.0, self@.1) == record(old(self)@.0, old(self)@.1, rel.take(i as int)),
            decreases n - i,
        {
            let (ts, action) = actions[i];
            assert(rel.take(i + 1).drop_last() =~= rel.take(i as int));
            assert(rel[i as int] == ((ts@ - old(self)@.2) as nat, action));
            let at = ts - self.position;
            let ghost before = self@;
            match action {
                MidiAction::NoteOn(channel, key, vel) => {
                    let h = Held { channel, key, vel, start: at.to_bits() };
                    match self.find(channel, key) {
                        Some(j) => {
                            let old_h = self.playing[j];
                            self.write(old_h, at.to_bits());
                            self.playing.set(j, h);
                            proof {
                                assert forall|a: int, b: int|
                                    0 <= a < b < self@.1.len() implies !((
                                    #[trigger] self@.1[a]).channel == (#[trigger] self@.1[b]).channel
                                    && self@.1[a].key == self@.1[b].key) by {
                                    if a == j as int {
                                        assert(before.1[a].channel == channel);
                                    } else if b == j as int {
                                        assert(before.1[b].channel == channel);
                                    }
                                }
                            }
                        },
                        None => {
                            self.playing.push(h);
                        },
                    }
                },
                MidiAction::NoteOff(channel, key, _) => {
                    match self.find(channel, key) {
                        Some(j) => {
                            let old_h = self.playing[j];
                            self.write(old_h, at.to_bits());
                            self.playing.remove(j);
                            proof {
                                assert forall|a: int, b: int|
                                    0 <= a < b < self@.1.len() implies !((
                                    #[trigger] self@.1[a]).channel == (#[trigger] self@.1[b]).channel
                                    && self@.1[a].key == self@.1[b].key) by {
                                    let a0 = if a < j { a } else { a + 1 };
                                    let b0 = if b < j { b } else { b + 1 };
                                    assert(self@.1[a] == before.1[a0]);
                                    assert(self@.1[b] == before.1[b0]);
                                }
                            }
                        },
                        None => {},
                    }
                },
            }
            i = i + 1;
        }
        proof {
            assert(rel.take(n as int) =~= rel);
        }
    }

    /// Ends the recording: the notes still held end where the recording ends. Gives the range
    /// the recording covers and all its notes, the held ones last, in the order they started.
    pub fn finalize(self, transport: &Transport) -> (r: (BeatRange, Vec<RecordedNote>))
        requires
            self.wf(),
            self@.3 * (crate::time::fixed_point::FACTOR as nat) <= u64::MAX,
            frames_to_seconds(self@.3, transport.sample_rate_spec()) * transport.bpm_spec()
                <= u64::MAX,
            self@.2 + frames_len(self@.3, *transport) <= u64::MAX,
            self@.2 + 1 <= u64::MAX,
        ensures
            r.0@ == range_new_spec(self@.2, self@.2 + frames_len(self@.3, *transport)),
            r.1@.map_values(|n: RecordedNote| note_view(n)) == self@.0 + self@.1.map_values(
                |h: Held| ended(h, frames_len(self@.3, *transport)),
            ),
    {
        let len = self.len(transport);
        let end = self.end(transport);
        let range = BeatRange::new(self.position, end);
        let mut this = self;
        let ghost start = this@;
        let n = this.playing.len();
        let mut i: usize = 0;
        while i < n
            invariant
                n == start.1.len(),
                0 <= i <= n,
                this.wf(),
                this@.1 == start.1,
                len@ == frames_len(start.3, *transport),
                this@.0 == start.0 + start.1.take(i as int).map_values(
                    |h: Held| ended(h, len@),
                ),
            decreases n - i,
        {
            let h = this.playing[i];
            this.write(h, len.to_bits());
            proof {
                assert(start.1.take(i + 1).map_values(|h: Held| ended(h, len@)) =~= start.1.take(
                    i as int,
                ).map_values(|h: Held| ended(h, len@)).push(ended(h, len@)));
                assert(this@.0 =~= start.0 + start.1.take(i + 1).map_values(
                    |h: Held| ended(h, len@),
                ));
            }
            i = i + 1;
        }
        proof {
            assert(start.1.take(n as int) =~= start.1);
        }
        (range, this.notes)
    }
}

/// A key pressed and released while nothing else was held on it is recorded as one note,
/// from the press to the release, and nothing is left held for it.
pub proof fn lemma_press_release_records_note(
    notes: Seq<(u8, u8, (nat, nat))>,
    held: Seq<Held>,
    channel: u8,
    key: u8,
    vel: u8,
    off_vel: u8,
    on_at: nat,
    off_at: nat,
)
    requires
        !is_held(held, channel, key),
        on_at < u64::MAX,
    ensures
        ({
            let (n1, h1) = step(notes, held, on_at, MidiAction::NoteOn(channel, key, vel));
            step(n1, h1, off_at, MidiAction::NoteOff(channel, key, off_vel))
        }) == (notes.push((key, vel, range_new_spec(on_at, off_at))), held),
{
    let h = Held { channel, key, vel, start: on_at as u64 };
    let h1 = held.push(h);
    assert(h1[held.len() as int] == h);
    assert(is_held(h1, channel, key));
    let i = held_index(h1, channel, key);
    if i != held.len() {
        assert(h1[i] == held[i]);
    }
    assert(h1.remove(held.len() as int) =~= held);
}

} // verus!
