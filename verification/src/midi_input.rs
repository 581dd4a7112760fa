use vstd::prelude::*;
use midly::live::LiveEvent;
use midly::MidiMessage;

verus! {

/// A raw MIDI message as far as playing notes is concerned.
#[derive(Clone, Copy, Debug, PartialEq, Eq, Structural)]
pub enum LiveMessage {
    NoteOn { channel: u8, key: u8, vel: u8 },
    NoteOff { channel: u8, key: u8, vel: u8 },
    /// A well-formed message of another kind.
    Other,
    /// Bytes that do not form a message.
    Invalid,
}

/// What `midly::live::LiveEvent::parse` makes of the raw bytes of a message.
pub uninterp spec fn live_message_of(raw: Seq<u8>) -> LiveMessage;

/// The note-on or note-off that raw bytes make: a status byte `0x8n` (note-off) or `0x9n`
/// (note-on) for channel `n`, then a key byte and a velocity byte, both below `0x80`; bytes
/// after those are not read. `None` where the bytes make no note message.
pub open spec fn note_message_of(raw: Seq<u8>) -> Option<LiveMessage> {
    if raw.len() >= 3 && 0x80 <= raw[0] < 0xA0 && raw[1] < 0x80 && raw[2] < 0x80 {
        let channel = (raw[0] % 16) as u8;
        if raw[0] < 0x90 {
            Some(LiveMessage::NoteOff { channel, key: raw[1], vel: raw[2] })
        } else {
            Some(LiveMessage::NoteOn { channel, key: raw[1], vel: raw[2] })
        }
    } else {
        None
    }
}

/// Calls `midly::live::LiveEvent::parse`. Trusted: its result, told apart into note-ons,
/// note-offs, other messages and parse errors, is the named function of the bytes; where the
/// bytes make a note message it is that message, and otherwise no note message. Which other
/// bytes parse as another message and which fail is left to the name.
#[verifier::external_body]
fn parse_live_message(raw: &[u8]) -> (r: LiveMessage)
    ensures
        r == live_message_of(raw@),
        match note_message_of(raw@) {
            Some(m) => r == m,
            None => !(r is NoteOn) && !(r is NoteOff),
        },
{
    match LiveEvent::parse(raw) {
        Ok(LiveEvent::Midi { channel, message: MidiMessage::NoteOn { key, vel } }) => {
            LiveMessage::NoteOn { channel: channel.as_int(), key: key.as_int(), vel: vel.as_int() }
        },
        Ok(LiveEvent::Midi { channel, message: MidiMessage::NoteOff { key, vel } }) => {
            LiveMessage::NoteOff { channel: channel.as_int(), key: key.as_int(), vel: vel.as_int() }
        },
        Ok(_) => LiveMessage::Other,
        Err(_) => LiveMessage::Invalid,
    }
}

/// A note starting or stopping on a MIDI channel, with its key and velocity.
#[derive(Clone, Copy, Debug, PartialEq, Eq, Structural)]
pub enum MidiAction {
    NoteOn(u8, u8, u8),
    NoteOff(u8, u8, u8),
}

impl MidiAction {
    pub fn channel(self) -> (r: u8)
        ensures
            r == match self {
                MidiAction::NoteOn(c, _, _) => c,
                MidiAction::NoteOff(c, _, _) => c,
            },
    {
        match self {
            MidiAction::NoteOn(c, _, _) => c,
            MidiAction::NoteOff(c, _, _) => c,
        }
    }
}

/// A MIDI action with the time at which it arrived.
#[derive(Clone, Copy, Debug, PartialEq, Eq, Structural)]
pub struct TimedMidiAction {
    pub ts: u64,
    pub action: MidiAction,
}

/// The action a message asks for: a note-on with a velocity of zero stops the note, as
/// MIDI has it; messages other than note-ons and note-offs ask for none.
pub open spec fn midi_action_spec(msg: LiveMessage) -> Option<MidiAction> {
    match msg {
        LiveMessage::NoteOn { channel, key, vel } => if vel != 0 {
            Some(MidiAction::NoteOn(channel, key, vel))
        } else {
            Some(MidiAction::NoteOff(channel, key, vel))
        },
        LiveMessage::NoteOff { channel, key, vel } => Some(MidiAction::NoteOff(channel, key, vel)),
        _ => None,
    }
}

/// The action that raw bytes ask for: only note messages ask for one.
pub open spec fn raw_action_spec(raw: Seq<u8>) -> Option<MidiAction> {
    match note_message_of(raw) {
        Some(m) => midi_action_spec(m),
        None => None,
    }
}

/// The action that a parsed message asks for.
pub fn midi_action(msg: LiveMessage) -> (r: Option<MidiAction>)
    ensures
        r == midi_action_spec(msg),
{
    match msg {
        LiveMessage::NoteOn { channel, key, vel } => if vel != 0 {
            Some(MidiAction::NoteOn(channel, key, vel))
        } else {
            Some(MidiAction::NoteOff(channel, key, vel))
        },
        LiveMessage::NoteOff { channel, key, vel } => Some(MidiAction::NoteOff(channel, key, vel)),
        _ => None,
    }
}

/// Turns the messages of a MIDI input connection into timed actions, with times counted from
/// the first message that arrived.
#[derive(Clone, Copy, Debug, Default)]
pub struct MidiInputDecoder {
    first_ts: Option<u64>,
}

impl View for MidiInputDecoder {
    /// The time of the first message, once one has arrived.
    type V = Option<u64>;

    closed spec fn view(&self) -> Option<u64> {
        self.first_ts
    }
}

impl MidiInputDecoder {
    pub fn new() -> (r: Self)
        ensures
            r@ is None,
    {
        MidiInputDecoder { first_ts: None }
    }

    /// The action that the raw message `raw`, arriving at time `ts`, asks for, timed from the
    /// first message; the first message fixes that time even where it asks for nothing.
    pub fn decode(&mut self, ts: u64, raw: &[u8]) -> (r: Option<TimedMidiAction>)
        requires
            match old(self)@ {
                Some(first) => ts >= first,
                None => true,
            },
        ensures
            final(self)@ == Some(match old(self)@ {
                Some(first) => first,
                None => ts,
            }),
            r == match raw_action_spec(raw@) {
                Some(action) => Some(
                    TimedMidiAction { ts: (ts - final(self)@->0) as u64, action },
                ),
                None => None,
            },
    {
        let first = match self.first_ts {
            Some(first) => first,
            None => {
                self.first_ts = Some(ts);
                ts
            },
        };
        let ts = ts - first;
        match midi_action(parse_live_message(raw)) {
            Some(action) => Some(TimedMidiAction { ts, action }),
            None => None,
        }
    }
}

/// The frame, counted from the start of input, at which a message that arrived `ts_micros`
/// microseconds after the first one falls at `sample_rate` frames per second (the product
/// stops at `u64::MAX`).
pub open spec fn micros_to_frames(ts_micros: nat, sample_rate: nat) -> nat {
    let product = ts_micros * sample_rate;
    (if product > u64::MAX { u64::MAX as nat } else { product }) / 1_000_000
}

/// `x` clamped into `[lo, hi]`.
pub open spec fn clamp_nat(x: nat, lo: nat, hi: nat) -> nat {
    if x < lo {
        lo
    } else if x > hi {
        hi
    } else {
        x
    }
}

/// Places MIDI input into the blocks of audio output: the frame of input at which the current
/// block starts follows the messages, so that each message lands within the block.
#[derive(Clone, Copy, Debug, Default)]
pub struct MidiClock {
    frames_in: Option<u64>,
}

impl View for MidiClock {
    /// The frame of input at which the current block starts, once a message has arrived.
    type V = Option<u64>;

    closed spec fn view(&self) -> Option<u64> {
        self.frames_in
    }
}

impl MidiClock {
    pub fn new() -> (r: Self)
        ensures
            r@ is None,
    {
        MidiClock { frames_in: None }
    }

    /// The offset, within the current block of `frames` frames, of a message that arrived
    /// `ts_micros` microseconds after the first one. The block's start moves, as little as it
    /// can, so that the message falls within the block.
    pub fn place(&mut self, ts_micros: u64, sample_rate: u32, frames: usize) -> (r: u64)
        requires
            frames >= 1,
        ensures
            ({
                let t = micros_to_frames(ts_micros as nat, sample_rate as nat);
                let start = match old(self)@ {
                    Some(f) => f as nat,
                    None => t,
                };
                let lo = if t >= frames - 1 { (t - (frames - 1)) as nat } else { 0nat };
                let placed = clamp_nat(start, lo, t);
                &&& final(self)@ == Some(placed as u64)
                &&& r == t - placed
            }),
            r < frames,
    {
        let product = match ts_micros.checked_mul(sample_rate as u64) {
            Some(p) => p,
            None => u64::MAX,
        };
        let ts = product / 1_000_000;
        let start = match self.frames_in {
            Some(f) => f,
            None => ts,
        };
        let lo = ts.saturating_sub(frames as u64 - 1);
        let placed = if start < lo { lo } else if start > ts { ts } else { start };
        self.frames_in = Some(placed);
        ts - placed
    }

    /// Moves on to the next block, `frames` frames later.
    pub fn advance(&mut self, frames: usize)
        requires
            match old(self)@ {
                Some(f) => f + frames <= u64::MAX,
                None => true,
            },
        ensures
            final(self)@ == match old(self)@ {
                Some(f) => Some((f + frames) as u64),
                None => None,
            },
    {
        if let Some(f) = self.frames_in {
            self.frames_in = Some(f + frames as u64);
        }
    }
}

} // verus!
