use vstd::prelude::*;
use vstd::std_specs::ops::{AddSpecImpl, SubSpecImpl};
use crate::time::beat_time::BeatTime;
use crate::time::fixed_point::{
    FixedPoint, FACTOR, abs_diff_spec, ceil_fits, ceil_spec, floor_spec, round_fits, round_spec,
};
use crate::time::{frames_to_seconds, seconds_to_beats, seconds_to_frames};
use crate::transport::Transport;

verus! {

/// A point in time or a duration measured in seconds, with `FACTOR` ticks per second.
#[derive(Clone, Copy, Debug, Default, PartialEq, Eq, Structural, PartialOrd, Ord, Hash)]
pub struct SecondsTime(pub FixedPoint);

impl View for SecondsTime {
    type V = nat;

    open spec fn view(&self) -> nat {
        self.0@
    }
}

impl SecondsTime {
    pub fn zero() -> (r: Self)
        ensures
            r@ == 0,
    {
        SecondsTime(FixedPoint(0))
    }

    pub fn one_second() -> (r: Self)
        ensures
            r@ == FACTOR,
    {
        SecondsTime(FixedPoint(FACTOR))
    }

    pub fn one_tick() -> (r: Self)
        ensures
            r@ == 1,
    {
        SecondsTime(FixedPoint(1))
    }

    pub fn new(second: u64, tick: u64) -> (r: Self)
        requires
            tick <= FACTOR,
            second <= u64::MAX / FACTOR,
            second * FACTOR + tick <= u64::MAX,
        ensures
            r@ == second * FACTOR + tick,
    {
        SecondsTime(FixedPoint::new(second, tick))
    }

    pub fn from_bits(bits: u64) -> (r: Self)
        ensures
            r@ == bits,
    {
        SecondsTime(FixedPoint::from_bits(bits))
    }

    pub fn to_bits(self) -> (r: u64)
        ensures
            r == self@,
    {
        self.0.to_bits()
    }

    /// The number of whole seconds.
    pub fn second(self) -> (r: u64)
        ensures
            r == self@ / (FACTOR as nat),
    {
        self.0.unit()
    }

    /// The ticks past the last whole second.
    pub fn tick(self) -> (r: u64)
        ensures
            r == self@ % (FACTOR as nat),
    {
        self.0.tick()
    }

    /// The time at which frame number `frames` starts, rounded down to a tick.
    pub fn from_frames(frames: usize, transport: &Transport) -> (r: Self)
        requires
            frames * FACTOR <= u64::MAX,
        ensures
            r@ == frames_to_seconds(frames as nat, transport.sample_rate_spec()),
    {
        let frames = frames as u64;
        let sample_rate = transport.sample_rate() as u64;
        let time = frames * FACTOR / sample_rate;
        Self::from_bits(time)
    }

    /// The number of the frame that this time falls in.
    pub fn to_frames(self, transport: &Transport) -> (r: usize)
        requires
            self@ * transport.sample_rate_spec() <= u64::MAX,
            seconds_to_frames(self@, transport.sample_rate_spec()) <= usize::MAX,
        ensures
            r == seconds_to_frames(self@, transport.sample_rate_spec()),
    {
        let time = self.to_bits();
        let sample_rate = transport.sample_rate() as u64;
        let frames = (time * sample_rate) / FACTOR;
        frames as usize
    }

    /// The same span of time in beats at the transport's tempo, rounded down to a tick.
    pub fn to_beat_time(self, transport: &Transport) -> (r: BeatTime)
        requires
            self@ * transport.bpm_spec() <= u64::MAX,
        ensures
            r@ == seconds_to_beats(self@, transport.bpm_spec()),
    {
        let bpm = transport.bpm() as u64;
        BeatTime::from_bits(self.to_bits() * bpm / 60)
    }

    pub fn checked_sub(self, other: Self) -> (r: Option<Self>)
        ensures
            r matches Some(v) <==> self@ >= other@,
            r matches Some(v) ==> v@ == self@ - other@,
    {
        match self.0.checked_sub(other.0) {
            Some(bits) => Some(SecondsTime(bits)),
            None => None,
        }
    }

    pub fn saturating_sub(self, other: Self) -> (r: Self)
        ensures
            r@ == if self@ >= other@ { (self@ - other@) as nat } else { 0 },
    {
        SecondsTime(self.0.saturating_sub(other.0))
    }

    pub fn abs_diff(self, other: Self) -> (r: Self)
        ensures
            r@ == abs_diff_spec(self@, other@),
    {
        SecondsTime(self.0.abs_diff(other.0))
    }

    pub fn floor(self, modulo: Self) -> (r: Self)
        requires
            modulo@ > 0,
        ensures
            r@ == floor_spec(self@, modulo@),
    {
        SecondsTime(self.0.floor(modulo.0))
    }

    pub fn ceil(self, modulo: Self) -> (r: Self)
        requires
            modulo@ > 0,
            ceil_fits(self@, modulo@),
        ensures
            r@ == ceil_spec(self@, modulo@),
    {
        SecondsTime(self.0.ceil(modulo.0))
    }

    pub fn round(self, modulo: Self) -> (r: Self)
        requires
            modulo@ > 0,
            round_fits(self@, modulo@),
        ensures
            r@ == round_spec(self@, modulo@),
    {
        SecondsTime(self.0.round(modulo.0))
    }

    pub fn second_floor(self) -> (r: Self)
        ensures
            r@ == floor_spec(self@, FACTOR as nat),
    {
        self.floor(Self::one_second())
    }

    pub fn second_ceil(self) -> (r: Self)
        requires
            ceil_fits(self@, FACTOR as nat),
        ensures
            r@ == ceil_spec(self@, FACTOR as nat),
    {
        self.ceil(Self::one_second())
    }

    pub fn second_round(self) -> (r: Self)
        requires
            round_fits(self@, FACTOR as nat),
        ensures
            r@ == round_spec(self@, FACTOR as nat),
    {
        self.round(Self::one_second())
    }
}

impl std::ops::Add for SecondsTime {
    type Output = Self;

    fn add(self, rhs: Self) -> (r: Self) {
        SecondsTime(self.0 + rhs.0)
    }
}

impl AddSpecImpl for SecondsTime {
    open spec fn obeys_add_spec() -> bool {
        true
    }

    open spec fn add_req(self, rhs: Self) -> bool {
        self@ + rhs@ <= u64::MAX
    }

    open spec fn add_spec(self, rhs: Self) -> Self {
        SecondsTime(FixedPoint((self@ + rhs@) as u64))
    }
}

impl std::ops::Sub for SecondsTime {
    type Output = Self;

    fn sub(self, rhs: Self) -> (r: Self) {
        SecondsTime(self.0 - rhs.0)
    }
}

impl SubSpecImpl for SecondsTime {
    open spec fn obeys_sub_spec() -> bool {
        true
    }

    open spec fn sub_req(self, rhs: Self) -> bool {
        self@ >= rhs@
    }

    open spec fn sub_spec(self, rhs: Self) -> Self {
        SecondsTime(FixedPoint((self@ - rhs@) as u64))
    }
}

} // verus!
