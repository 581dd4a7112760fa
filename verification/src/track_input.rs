use vstd::prelude::*;
use crate::midi_input::MidiAction;
use crate::stream::Channels;

verus! {

/// Whether the MIDI channel mask `mask` lets through MIDI channel `channel`: bit number
/// `channel` of the mask is set.
pub open spec fn listens_to(mask: u16, channel: u8) -> bool {
    (mask as nat / vstd::arithmetic::power2::pow2(channel as nat)) % 2 == 1
}

/// The MIDI channel that an action is on.
pub open spec fn action_channel(a: MidiAction) -> u8 {
    match a {
        MidiAction::NoteOn(c, _, _) => c,
        MidiAction::NoteOff(c, _, _) => c,
    }
}

/// Whether every action is on one of the sixteen MIDI channels.
pub open spec fn on_midi_channels(actions: Seq<MidiAction>) -> bool {
    forall|i: int| 0 <= i < actions.len() ==> action_channel(#[trigger] actions[i]) < 16
}

/// Whether the mask lets the action through.
pub open spec fn passes(mask: u16, a: MidiAction) -> bool {
    listens_to(mask, action_channel(a))
}

/// Tests bit `channel` of `mask`.
pub fn listens(mask: u16, channel: u8) -> (r: bool)
    requires
        channel < 16,
    ensures
        r == listens_to(mask, channel),
{
    let bit: u16 = 1u16 << channel;
    let r = mask & bit != 0;
    proof {
        lemma_bit_test(mask, channel);
    }
    r
}

proof fn lemma_bit_test(mask: u16, channel: u8)
    requires
        channel < 16,
    ensures
        (mask & (1u16 << channel) != 0) == listens_to(mask, channel),
{
    let c = channel as u16;
    assert((mask & (1u16 << c) != 0) == ((mask >> c) & 1u16 == 1u16)) by (bit_vector)
        requires c < 16;
    assert(mask >> c == mask / (1u16 << c)) by (bit_vector)
        requires c < 16;
    assert((mask >> c) & 1u16 == (mask >> c) % 2) by (bit_vector);
    vstd::bits::lemma_u16_pow2_no_overflow(c as nat);
    vstd::bits::lemma_u16_shl_is_mul(1u16, c);
    assert(channel as nat == c as nat);
}

/// The note id under which a note played live on MIDI channel `channel` is sent: counted down
/// from the largest `i32`, one below it for channel zero.
pub fn live_note_id(channel: u8) -> (r: u32)
    requires
        channel < 16,
    ensures
        r == 0x7fff_ffff - 1 - channel,
{
    0x7fff_fffe - channel as u32
}

/// The actions of live MIDI input that a track takes in: those on the channels of its mask, in
/// the order they came.
pub fn routed_midi(mask: u16, actions: &[MidiAction]) -> (r: Vec<MidiAction>)
    requires
        on_midi_channels(actions@),
    ensures
        r@ == actions@.filter(|a: MidiAction| passes(mask, a)),
{
    let mut r: Vec<MidiAction> = Vec::new();
    let n = actions.len();
    let mut i: usize = 0;
    while i < n
        invariant
            n == actions@.len(),
            0 <= i <= n,
            on_midi_channels(actions@),
            r@ == actions@.take(i as int).filter(|a: MidiAction| passes(mask, a)),
        decreases n - i,
    {
        let a = actions[i];
        proof {
            reveal_with_fuel(Seq::<_>::filter, 1);
            assert(actions@.take(i + 1).drop_last() =~= actions@.take(i as int));
            assert(action_channel(actions@[i as int]) < 16);
        }
        if listens(mask, a.channel()) {
            r.push(a);
        }
        i = i + 1;
    }
    proof {
        assert(actions@.take(n as int) =~= actions@);
    }
    r
}

/// A note being held down on a MIDI input: its channel, key and velocity.
#[derive(Clone, Copy, Debug, PartialEq, Eq, Structural)]
pub struct HeldNote {
    pub channel: u8,
    pub key: u8,
    pub vel: u8,
}

/// The note-on that starts a held note again.
pub open spec fn replay_of(n: HeldNote) -> MidiAction {
    MidiAction::NoteOn(n.channel, n.key, n.vel)
}

/// Whether every held note is on one of the sixteen MIDI channels.
pub open spec fn held_on_midi_channels(held: Seq<HeldNote>) -> bool {
    forall|i: int| 0 <= i < held.len() ==> (#[trigger] held[i]).channel < 16
}

/// The note-ons that start again, for a recording that listens to `mask`, the held notes on
/// its channels, in order.
pub open spec fn replay_spec(mask: u16, held: Seq<HeldNote>) -> Seq<MidiAction> {
    held.filter(|n: HeldNote| listens_to(mask, n.channel)).map_values(|n: HeldNote| replay_of(n))
}

/// The note-ons of the held notes on the channels of `mask`, in order.
pub fn replay_held(mask: u16, held: &[HeldNote]) -> (r: Vec<MidiAction>)
    requires
        held_on_midi_channels(held@),
    ensures
        r@ == replay_spec(mask, held@),
{
    let mut r: Vec<MidiAction> = Vec::new();
    let n = held.len();
    let mut i: usize = 0;
    while i < n
        invariant
            n == held@.len(),
            0 <= i <= n,
            held_on_midi_channels(held@),
            r@ == replay_spec(mask, held@.take(i as int)),
        decreases n - i,
    {
        let h = held[i];
        proof {
            reveal_with_fuel(Seq::<_>::filter, 1);
            assert(held@.take(i + 1).drop_last() =~= held@.take(i as int));
            assert(held@[i as int].channel < 16);
        }
        if listens(mask, h.channel) {
            proof {
                let f = held@.take(i as int).filter(|n: HeldNote| listens_to(mask, n.channel));
                assert(held@.take(i + 1).filter(|n: HeldNote| listens_to(mask, n.channel)) == f.push(
                    h,
                ));
                assert(f.push(h).map_values(|n: HeldNote| replay_of(n)) =~= f.map_values(
                    |n: HeldNote| replay_of(n),
                ).push(replay_of(h)));
            }
            r.push(MidiAction::NoteOn(h.channel, h.key, h.vel));
        }
        i = i + 1;
    }
    proof {
        assert(held@.take(n as int) =~= held@);
    }
    r
}

/// What a change to a track's input asks of the rest of the engine: whether the audio or the
/// MIDI being recorded from it was cut, and the note-ons to send again to the MIDI recording.
#[derive(Debug)]
pub struct InputChange {
    pub audio_interrupted: bool,
    pub midi_interrupted: bool,
    pub replay: Vec<MidiAction>,
}

/// The input side of a track: which channels it takes input from, and whether its audio and
/// its MIDI input are being recorded.
#[derive(Clone, Copy, Debug, PartialEq, Eq, Structural)]
pub struct TrackInput {
    pub channels: Channels,
    pub recording_audio: bool,
    pub recording_midi: bool,
}

impl TrackInput {
    /// A track's input that takes from `channels` and records nothing.
    pub fn new(channels: Channels) -> (r: Self)
        ensures
            r == (TrackInput { channels, recording_audio: false, recording_midi: false }),
    {
        TrackInput { channels, recording_audio: false, recording_midi: false }
    }

    /// Takes input from `channels` from now on. A recording of audio is cut where the audio
    /// channels change; a recording of MIDI is cut where the MIDI channels change, and the
    /// notes held on the new channels start again in it.
    pub fn set_channels(&mut self, channels: Channels, held: &[HeldNote]) -> (r: InputChange)
        requires
            held_on_midi_channels(held@),
        ensures
            *final(self) == (TrackInput { channels, ..*old(self) }),
            r.audio_interrupted == (old(self).recording_audio && (old(self).channels.left
                != channels.left || old(self).channels.right != channels.right)),
            r.midi_interrupted == (old(self).recording_midi && old(self).channels.midi
                != channels.midi),
            r.replay@ == if r.midi_interrupted {
                replay_spec(channels.midi, held@)
            } else {
                Seq::empty()
            },
    {
        let audio_interrupted = self.recording_audio && (self.channels.left != channels.left
            || self.channels.right != channels.right);
        let midi_interrupted = self.recording_midi && self.channels.midi != channels.midi;
        let replay = if midi_interrupted {
            replay_held(channels.midi, held)
        } else {
            Vec::new()
        };
        self.channels = channels;
        InputChange { audio_interrupted, midi_interrupted, replay }
    }

    /// Starts or stops recording audio; stopping cuts the recording.
    pub fn set_audio_recording(&mut self, on: bool) -> (interrupted: bool)
        ensures
            *final(self) == (TrackInput { recording_audio: on, ..*old(self) }),
            interrupted == !on,
    {
        self.recording_audio = on;
        !on
    }

    /// Starts or stops recording MIDI. Starting sends the notes already held on the track's
    /// MIDI channels; stopping cuts the recording.
    pub fn set_midi_recording(&mut self, on: bool, held: &[HeldNote]) -> (r: InputChange)
        requires
            held_on_midi_channels(held@),
        ensures
            *final(self) == (TrackInput { recording_midi: on, ..*old(self) }),
            !r.audio_interrupted,
            r.midi_interrupted == !on,
            r.replay@ == if on {
                replay_spec(old(self).channels.midi, held@)
            } else {
                Seq::empty()
            },
    {
        self.recording_midi = on;
        let replay = if on {
            replay_held(self.channels.midi, held)
        } else {
            Vec::new()
        };
        InputChange { audio_interrupted: false, midi_interrupted: !on, replay }
    }
}

/// The number of whole frames of `channels` interleaved samples in `len` samples.
pub open spec fn whole_frames(len: nat, channels: nat) -> nat {
    len / channels
}

/// Copies the two chosen channels of interleaved input into the frames of `out`: frame `i`
/// takes sample `left` and sample `right` of input frame `i`. As many frames are filled as
/// both hold; the rest of `out` stays as it was.
pub fn take_input_channels<T: Copy>(
    input: &[T],
    channels: usize,
    left: usize,
    right: usize,
    out: &mut Vec<[T; 2]>,
)
    requires
        channels > 0,
        left < channels,
        right < channels,
    ensures
        final(out)@.len() == old(out)@.len(),
        forall|i: int|
            0 <= i < old(out)@.len() ==> #[trigger] final(out)@[i] == if i < whole_frames(
                input@.len(),
                channels as nat,
            ) {
                [input@[i * channels + left], input@[i * channels + right]]
            } else {
                old(out)@[i]
            },
{
    let len = input.len();
    let frames = len / channels;
    let n = if out.len() < frames { out.len() } else { frames };
    let mut i: usize = 0;
    while i < n
        invariant
            channels > 0,
            left < channels,
            right < channels,
            frames == input@.len() / (channels as nat),
            input@.len() <= usize::MAX,
            n <= frames,
            n <= old(out)@.len(),
            out@.len() == old(out)@.len(),
            0 <= i <= n,
            forall|k: int|
                0 <= k < old(out)@.len() ==> #[trigger] out@[k] == if k < i {
                    [input@[k * channels + left], input@[k * channels + right]]
                } else {
                    old(out)@[k]
                },
        decreases n - i,
    {
        assert(i * channels + channels <= input@.len()) by (nonlinear_arith)
            requires
                i < frames,
                frames == input@.len() / (channels as nat),
                channels > 0,
        {
            assert(frames * channels <= input@.len());
            assert(i * channels + channels == (i + 1) * channels);
            assert((i + 1) * channels <= frames * channels);
        }
        assert(input@.len() == input.len());
        let base = i * channels;
        let frame = [input[base + left], input[base + right]];
        out.set(i, frame);
        i = i + 1;
    }
    proof {
        assert forall|k: int| 0 <= k < old(out)@.len() implies #[trigger] out@[k] == if k
            < whole_frames(input@.len(), channels as nat) {
            [input@[k * channels + left], input@[k * channels + right]]
        } else {
            old(out)@[k]
        } by {
            if n == old(out)@.len() {
                assert(k < n);
                assert(k < frames);
            }
        }
    }
}

/// Watches a track's polyphony, so that only changes are reported.
#[derive(Clone, Copy, Debug, Default)]
pub struct PolyphonyWatch {
    pub last: usize,
}

impl PolyphonyWatch {
    /// The polyphony to report, where it differs from the last one reported.
    pub fn observe(&mut self, current: usize) -> (r: Option<usize>)
        ensures
            final(self).last == current,
            r == if current != old(self).last { Some(current) } else { None::<usize> },
    {
        if current != self.last {
            self.last = current;
            Some(current)
        } else {
            None
        }
    }
}

} // verus!
