use vstd::prelude::*;
use vstd::std_specs::ops::{AddSpecImpl, SubSpecImpl};
use crate::time::fixed_point::{
    FixedPoint, FACTOR, abs_diff_spec, ceil_fits, ceil_spec, floor_spec, round_fits, round_spec,
};
use crate::time::seconds_time::SecondsTime;
use crate::time::{beats_to_seconds, frames_to_seconds, seconds_to_beats, seconds_to_frames};
use crate::transport::Transport;

verus! {

/// The length of one bar in ticks.
pub open spec fn bar_len(transport: Transport) -> nat {
    transport.numerator_spec() * (FACTOR as nat)
}

/// A point in time or a duration measured in beats, with `FACTOR` ticks per beat.
#[derive(Clone, Copy, Debug, Default, PartialEq, Eq, Structural, PartialOrd, Ord, Hash)]
pub struct BeatTime(pub FixedPoint);

impl View for BeatTime {
    type V = nat;

    open spec fn view(&self) -> nat {
        self.0@
    }
}

impl BeatTime {
    pub fn zero() -> (r: Self)
        ensures
            r@ == 0,
    {
        BeatTime(FixedPoint(0))
    }

    pub fn one_beat() -> (r: Self)
        ensures
            r@ == FACTOR,
    {
        BeatTime(FixedPoint(FACTOR))
    }

    pub fn one_tick() -> (r: Self)
        ensures
            r@ == 1,
    {
        BeatTime(FixedPoint(1))
    }

    pub fn new(beat: u64, tick: u64) -> (r: Self)
        requires
            tick <= FACTOR,
            beat <= u64::MAX / FACTOR,
            beat * FACTOR + tick <= u64::MAX,
        ensures
            r@ == beat * FACTOR + tick,
    {
        BeatTime(FixedPoint::new(beat, tick))
    }

    /// One bar at the transport's time signature.
    pub fn bar_length(transport: &Transport) -> (r: Self)
        ensures
            r@ == bar_len(*transport),
            r@ > 0,
    {
        let numerator = transport.numerator() as u64;
        assert(numerator * FACTOR <= 255 * FACTOR) by (nonlinear_arith)
            requires numerator <= 255;
        BeatTime(FixedPoint(numerator * FACTOR))
    }

    pub fn from_bits(bits: u64) -> (r: Self)
        ensures
            r@ == bits,
    {
        BeatTime(FixedPoint::from_bits(bits))
    }

    pub fn to_bits(self) -> (r: u64)
        ensures
            r == self@,
    {
        self.0.to_bits()
    }

    /// The number of the bar that this time falls in.
    pub fn bar(self, transport: &Transport) -> (r: u64)
        ensures
            r == self@ / (FACTOR as nat) / transport.numerator_spec(),
    {
        self.beat() / transport.numerator() as u64
    }

    /// The number of whole beats.
    pub fn beat(self) -> (r: u64)
        ensures
            r == self@ / (FACTOR as nat),
    {
        self.0.unit()
    }

    /// The number of the beat within its bar.
    pub fn beat_in_bar(self, transport: &Transport) -> (r: u64)
        ensures
            r == self@ / (FACTOR as nat) % transport.numerator_spec(),
    {
        self.beat() % transport.numerator() as u64
    }

    /// The ticks past the last whole beat.
    pub fn tick(self) -> (r: u64)
        ensures
            r == self@ % (FACTOR as nat),
    {
        self.0.tick()
    }

    /// The time at which frame number `frames` starts, in beats.
    pub fn from_frames(frames: usize, transport: &Transport) -> (r: Self)
        requires
            frames * FACTOR <= u64::MAX,
            frames_to_seconds(frames as nat, transport.sample_rate_spec()) * transport.bpm_spec()
                <= u64::MAX,
        ensures
            r@ == seconds_to_beats(
                frames_to_seconds(frames as nat, transport.sample_rate_spec()),
                transport.bpm_spec(),
            ),
    {
        SecondsTime::from_frames(frames, transport).to_beat_time(transport)
    }

    /// The number of the frame that this time falls in.
    pub fn to_frames(self, transport: &Transport) -> (r: usize)
        requires
            self@ * 60 <= u64::MAX,
            beats_to_seconds(self@, transport.bpm_spec()) * transport.sample_rate_spec()
                <= u64::MAX,
            seconds_to_frames(
                beats_to_seconds(self@, transport.bpm_spec()),
                transport.sample_rate_spec(),
            ) <= usize::MAX,
        ensures
            r == seconds_to_frames(
                beats_to_seconds(self@, transport.bpm_spec()),
                transport.sample_rate_spec(),
            ),
    {
        self.to_seconds_time(transport).to_frames(transport)
    }

    /// The same span of time in seconds at the transport's tempo, rounded up to a tick.
    pub fn to_seconds_time(self, transport: &Transport) -> (r: SecondsTime)
        requires
            self@ * 60 <= u64::MAX,
        ensures
            r@ == beats_to_seconds(self@, transport.bpm_spec()),
    {
        let bpm = transport.bpm() as u64;
        let scaled = self.to_bits() * 60;
        let q = scaled / bpm;
        let bits = if scaled % bpm == 0 { q } else {
            assert(q < scaled) by (nonlinear_arith)
                requires q == scaled / bpm, bpm > 0, scaled % bpm != 0;
            q + 1
        };
        SecondsTime::from_bits(bits)
    }

    pub fn checked_sub(self, other: Self) -> (r: Option<Self>)
        ensures
            r matches Some(v) <==> self@ >= other@,
            r matches Some(v) ==> v@ == self@ - other@,
    {
        match self.0.checked_sub(other.0) {
            Some(bits) => Some(BeatTime(bits)),
            None => None,
        }
    }

    pub fn saturating_sub(self, other: Self) -> (r: Self)
        ensures
            r@ == if self@ >= other@ { (self@ - other@) as nat } else { 0 },
    {
        BeatTime(self.0.saturating_sub(other.0))
    }

    pub fn abs_diff(self, other: Self) -> (r: Self)
        ensures
            r@ == abs_diff_spec(self@, other@),
    {
        BeatTime(self.0.abs_diff(other.0))
    }

    pub fn floor(self, modulo: Self) -> (r: Self)
        requires
            modulo@ > 0,
        ensures
            r@ == floor_spec(self@, modulo@),
    {
        BeatTime(self.0.floor(modulo.0))
    }

    pub fn ceil(self, modulo: Self) -> (r: Self)
        requires
            modulo@ > 0,
            ceil_fits(self@, modulo@),
        ensures
            r@ == ceil_spec(self@, modulo@),
    {
        BeatTime(self.0.ceil(modulo.0))
    }

    pub fn round(self, modulo: Self) -> (r: Self)
        requires
            modulo@ > 0,
            round_fits(self@, modulo@),
        ensures
            r@ == round_spec(self@, modulo@),
    {
        BeatTime(self.0.round(modulo.0))
    }

    pub fn beat_floor(self) -> (r: Self)
        ensures
            r@ == floor_spec(self@, FACTOR as nat),
    {
        self.floor(Self::one_beat())
    }

    pub fn beat_ceil(self) -> (r: Self)
        requires
            ceil_fits(self@, FACTOR as nat),
        ensures
            r@ == ceil_spec(self@, FACTOR as nat),
    {
        self.ceil(Self::one_beat())
    }

    pub fn beat_round(self) -> (r: Self)
        requires
            round_fits(self@, FACTOR as nat),
        ensures
            r@ == round_spec(self@, FACTOR as nat),
    {
        self.round(Self::one_beat())
    }

    pub fn bar_floor(self, transport: &Transport) -> (r: Self)
        ensures
            r@ == floor_spec(self@, bar_len(*transport)),
    {
        self.floor(Self::bar_length(transport))
    }

    pub fn bar_ceil(self, transport: &Transport) -> (r: Self)
        requires
            ceil_fits(self@, bar_len(*transport)),
        ensures
            r@ == ceil_spec(self@, bar_len(*transport)),
    {
        self.ceil(Self::bar_length(transport))
    }

    pub fn bar_round(self, transport: &Transport) -> (r: Self)
        requires
            round_fits(self@, bar_len(*transport)),
        ensures
            r@ == round_spec(self@, bar_len(*transport)),
    {
        self.round(Self::bar_length(transport))
    }
}

impl std::ops::Add for BeatTime {
    type Output = Self;

    fn add(self, rhs: Self) -> (r: Self) {
        BeatTime(self.0 + rhs.0)
    }
}

impl AddSpecImpl for BeatTime {
    open spec fn obeys_add_spec() -> bool {
        true
    }

    open spec fn add_req(self, rhs: Self) -> bool {
        self@ + rhs@ <= u64::MAX
    }

    open spec fn add_spec(self, rhs: Self) -> Self {
        BeatTime(FixedPoint((self@ + rhs@) as u64))
    }
}

impl std::ops::Sub for BeatTime {
    type Output = Self;

    fn sub(self, rhs: Self) -> (r: Self) {
        BeatTime(self.0 - rhs.0)
    }
}

impl SubSpecImpl for BeatTime {
    open spec fn obeys_sub_spec() -> bool {
        true
    }

    open spec fn sub_req(self, rhs: Self) -> bool {
        self@ >= rhs@
    }

    open spec fn sub_spec(self, rhs: Self) -> Self {
        BeatTime(FixedPoint((self@ - rhs@) as u64))
    }
}

} // verus!
