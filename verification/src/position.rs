use vstd::prelude::*;
use vstd::std_specs::ops::{AddSpec, AddSpecImpl};
use crate::time::beat_range::{
    adjust_fits, adjust_spec, beat_frames, beat_frames_fit, clamp_spec, range_new_spec,
};
use crate::time::beat_time::{BeatTime, bar_len};
use crate::time::fixed_point::{
    FixedPoint, FACTOR, ceil_fits, ceil_spec, floor_spec, round_fits, round_spec,
};
use crate::transport::Transport;

verus! {

/// Musical time: beats and ticks.
pub type MusicalTime = BeatTime;

/// The position of a clip or note in musical time: `start` comes strictly before `end`.
#[derive(Clone, Copy, Debug, PartialEq, Eq, Structural, Hash)]
pub struct Position {
    start: MusicalTime,
    end: MusicalTime,
}

impl View for Position {
    type V = (nat, nat);

    closed spec fn view(&self) -> (nat, nat) {
        (self.start@, self.end@)
    }
}

impl Position {
    #[verifier::type_invariant]
    closed spec fn inv(self) -> bool {
        self.start@ < self.end@
    }

    /// The range from `start` to `end`, at least one tick long.
    pub fn new(start: MusicalTime, end: MusicalTime) -> (r: Self)
        requires
            start@ + 1 <= u64::MAX,
        ensures
            r@ == range_new_spec(start@, end@),
            r@.0 < r@.1,
    {
        let min_end = start + MusicalTime::one_tick();
        let end = if end.to_bits() > min_end.to_bits() { end } else { min_end };
        Position { start, end }
    }

    pub fn to_samples(self, transport: &Transport) -> (r: (usize, usize))
        requires
            beat_frames_fit(self@.0, *transport),
            beat_frames_fit(self@.1, *transport),
        ensures
            r.0 == beat_frames(self@.0, *transport),
            r.1 == beat_frames(self@.1, *transport),
    {
        (self.start().to_frames(transport), self.end().to_frames(transport))
    }

    pub fn start(self) -> (r: MusicalTime)
        ensures
            r@ == self@.0,
            r@ < self@.1,
    {
        proof {
            use_type_invariant(&self);
        }
        self.start
    }

    pub fn end(self) -> (r: MusicalTime)
        ensures
            r@ == self@.1,
            self@.0 < r@,
    {
        proof {
            use_type_invariant(&self);
        }
        self.end
    }

    pub fn len(self) -> (r: MusicalTime)
        ensures
            r@ == self@.1 - self@.0,
            r@ > 0,
    {
        proof {
            use_type_invariant(&self);
        }
        self.end - self.start
    }

    /// Moves the start, leaving the end where it is; the start stays at least one tick before
    /// the end.
    pub fn trim_start_to(&mut self, new_start: MusicalTime)
        ensures
            final(self)@.0 == if new_start@ < old(self)@.1 - 1 { new_start@ } else {
                (old(self)@.1 - 1) as nat
            },
            final(self)@.1 == old(self)@.1,
            final(self)@.0 < final(self)@.1,
    {
        proof {
            use_type_invariant(&*self);
        }
        let max_start = self.end - MusicalTime::one_tick();
        let start = if new_start.to_bits() < max_start.to_bits() { new_start } else { max_start };
        *self = Position { start, end: self.end };
    }

    /// Moves the end, leaving the start where it is; the end stays at least one tick after the
    /// start.
    pub fn trim_end_to(&mut self, new_end: MusicalTime)
        ensures
            final(self)@ == range_new_spec(old(self)@.0, new_end@),
            final(self)@.0 < final(self)@.1,
    {
        proof {
            use_type_invariant(&*self);
        }
        *self = Self::new(self.start, new_end);
    }

    /// Moves the whole range so that it starts at `new_start`, keeping its length.
    pub fn move_to(&mut self, new_start: MusicalTime)
        requires
            new_start@ + (old(self)@.1 - old(self)@.0) <= u64::MAX,
        ensures
            final(self)@.0 == new_start@,
            final(self)@.1 == new_start@ + (old(self)@.1 - old(self)@.0),
            final(self)@.0 < final(self)@.1,
    {
        proof {
            use_type_invariant(&*self);
        }
        let diff = self.start.abs_diff(new_start);
        let end = if self.start.to_bits() < new_start.to_bits() {
            self.end + diff
        } else {
            self.end - diff
        };
        *self = Position { start: new_start, end };
    }

    /// The range moved earlier by `diff`, with both ends stopping at zero; `None` where nothing
    /// of it is left.
    pub fn saturating_sub(self, diff: MusicalTime) -> (r: Option<Self>)
        ensures
            r is Some <==> self@.1 > diff@,
            r matches Some(v) ==> v@ == (
                if self@.0 >= diff@ { (self@.0 - diff@) as nat } else { 0nat },
                (self@.1 - diff@) as nat,
            ),
    {
        proof {
            use_type_invariant(&self);
        }
        let start = self.start.saturating_sub(diff);
        let end = self.end.saturating_sub(diff);
        if start.to_bits() != end.to_bits() {
            Some(Position { start, end })
        } else {
            None
        }
    }

    /// The part of the range that lies within `other`; `None` where they do not overlap.
    pub fn clamp(self, other: Self) -> (r: Option<Self>)
        ensures
            r is Some <==> clamp_spec(self@.0, other@.0, other@.1) != clamp_spec(
                self@.1,
                other@.0,
                other@.1,
            ),
            r matches Some(v) ==> v@ == (
                clamp_spec(self@.0, other@.0, other@.1),
                clamp_spec(self@.1, other@.0, other@.1),
            ),
    {
        proof {
            use_type_invariant(&self);
            use_type_invariant(&other);
        }
        let start = clamp_time(self.start, other.start, other.end);
        let end = clamp_time(self.end, other.start, other.end);
        if start.to_bits() != end.to_bits() {
            Some(Position { start, end })
        } else {
            None
        }
    }

    fn adjust(self, start: MusicalTime, end: MusicalTime, modulo: MusicalTime) -> (r: Self)
        requires
            modulo@ > 0,
            adjust_fits(self@.0, self@.1, start@, end@, modulo@),
        ensures
            r@ == adjust_spec(self@.0, self@.1, start@, end@, modulo@),
            r@.0 < r@.1,
    {
        if start.to_bits() != end.to_bits() {
            Self::new(start, end)
        } else if self.start.abs_diff(start).to_bits() < self.end.abs_diff(end).to_bits() {
            Self::new(start, start + modulo)
        } else {
            Self::new(end - modulo, end)
        }
    }

    /// Both ends rounded down to a multiple of `modulo`, kept non-empty.
    pub fn floor(self, modulo: MusicalTime) -> (r: Self)
        requires
            modulo@ > 0,
            adjust_fits(
                self@.0,
                self@.1,
                floor_spec(self@.0, modulo@),
                floor_spec(self@.1, modulo@),
                modulo@,
            ),
        ensures
            r@ == adjust_spec(
                self@.0,
                self@.1,
                floor_spec(self@.0, modulo@),
                floor_spec(self@.1, modulo@),
                modulo@,
            ),
            r@.0 < r@.1,
    {
        self.adjust(self.start.floor(modulo), self.end.floor(modulo), modulo)
    }

    /// Both ends rounded up to a multiple of `modulo`, kept non-empty.
    pub fn ceil(self, modulo: MusicalTime) -> (r: Self)
        requires
            modulo@ > 0,
            ceil_fits(self@.0, modulo@),
            ceil_fits(self@.1, modulo@),
            adjust_fits(
                self@.0,
                self@.1,
                ceil_spec(self@.0, modulo@),
                ceil_spec(self@.1, modulo@),
                modulo@,
            ),
        ensures
            r@ == adjust_spec(
                self@.0,
                self@.1,
                ceil_spec(self@.0, modulo@),
                ceil_spec(self@.1, modulo@),
                modulo@,
            ),
            r@.0 < r@.1,
    {
        self.adjust(self.start.ceil(modulo), self.end.ceil(modulo), modulo)
    }

    /// Both ends rounded to the nearest multiple of `modulo`, kept non-empty.
    pub fn round(self, modulo: MusicalTime) -> (r: Self)
        requires
            modulo@ > 0,
            round_fits(self@.0, modulo@),
            round_fits(self@.1, modulo@),
            adjust_fits(
                self@.0,
                self@.1,
                round_spec(self@.0, modulo@),
                round_spec(self@.1, modulo@),
                modulo@,
            ),
        ensures
            r@ == adjust_spec(
                self@.0,
                self@.1,
                round_spec(self@.0, modulo@),
                round_spec(self@.1, modulo@),
                modulo@,
            ),
            r@.0 < r@.1,
    {
        self.adjust(self.start.round(modulo), self.end.round(modulo), modulo)
    }
}

impl Position {
    pub fn beat_floor(self) -> (r: Self)
        requires
            adjust_fits(
                self@.0,
                self@.1,
                floor_spec(self@.0, FACTOR as nat),
                floor_spec(self@.1, FACTOR as nat),
                FACTOR as nat,
            ),
        ensures
            r@ == adjust_spec(
                self@.0,
                self@.1,
                floor_spec(self@.0, FACTOR as nat),
                floor_spec(self@.1, FACTOR as nat),
                FACTOR as nat,
            ),
    {
        self.floor(MusicalTime::one_beat())
    }

    pub fn beat_ceil(self) -> (r: Self)
        requires
            ceil_fits(self@.0, FACTOR as nat),
            ceil_fits(self@.1, FACTOR as nat),
            adjust_fits(
                self@.0,
                self@.1,
                ceil_spec(self@.0, FACTOR as nat),
                ceil_spec(self@.1, FACTOR as nat),
                FACTOR as nat,
            ),
        ensures
            r@ == adjust_spec(
                self@.0,
                self@.1,
                ceil_spec(self@.0, FACTOR as nat),
                ceil_spec(self@.1, FACTOR as nat),
                FACTOR as nat,
            ),
    {
        self.ceil(MusicalTime::one_beat())
    }

    pub fn beat_round(self) -> (r: Self)
        requires
            round_fits(self@.0, FACTOR as nat),
            round_fits(self@.1, FACTOR as nat),
            adjust_fits(
                self@.0,
                self@.1,
                round_spec(self@.0, FACTOR as nat),
                round_spec(self@.1, FACTOR as nat),
                FACTOR as nat,
            ),
        ensures
            r@ == adjust_spec(
                self@.0,
                self@.1,
                round_spec(self@.0, FACTOR as nat),
                round_spec(self@.1, FACTOR as nat),
                FACTOR as nat,
            ),
    {
        self.round(MusicalTime::one_beat())
    }

    pub fn bar_floor(self, transport: &Transport) -> (r: Self)
        requires
            adjust_fits(
                self@.0,
                self@.1,
                floor_spec(self@.0, bar_len(*transport)),
                floor_spec(self@.1, bar_len(*transport)),
                bar_len(*transport),
            ),
        ensures
            r@ == adjust_spec(
                self@.0,
                self@.1,
                floor_spec(self@.0, bar_len(*transport)),
                floor_spec(self@.1, bar_len(*transport)),
                bar_len(*transport),
            ),
    {
        self.floor(MusicalTime::bar_length(transport))
    }

    pub fn bar_ceil(self, transport: &Transport) -> (r: Self)
        requires
            ceil_fits(self@.0, bar_len(*transport)),
            ceil_fits(self@.1, bar_len(*transport)),
            adjust_fits(
                self@.0,
                self@.1,
                ceil_spec(self@.0, bar_len(*transport)),
                ceil_spec(self@.1, bar_len(*transport)),
                bar_len(*transport),
            ),
        ensures
            r@ == adjust_spec(
                self@.0,
                self@.1,
                ceil_spec(self@.0, bar_len(*transport)),
                ceil_spec(self@.1, bar_len(*transport)),
                bar_len(*transport),
            ),
    {
        self.ceil(MusicalTime::bar_length(transport))
    }

    pub fn bar_round(self, transport: &Transport) -> (r: Self)
        requires
            round_fits(self@.0, bar_len(*transport)),
            round_fits(self@.1, bar_len(*transport)),
            adjust_fits(
                self@.0,
                self@.1,
                round_spec(self@.0, bar_len(*transport)),
                round_spec(self@.1, bar_len(*transport)),
                bar_len(*transport),
            ),
        ensures
            r@ == adjust_spec(
                self@.0,
                self@.1,
                round_spec(self@.0, bar_len(*transport)),
                round_spec(self@.1, bar_len(*transport)),
                bar_len(*transport),
            ),
    {
        self.round(MusicalTime::bar_length(transport))
    }
}

impl Default for Position {
    fn default() -> (r: Self)
        ensures
            r@ == (0nat, 1nat),
    {
        Self::new(MusicalTime::zero(), MusicalTime::zero())
    }
}

impl std::ops::Add<MusicalTime> for Position {
    type Output = Self;

    fn add(self, rhs: MusicalTime) -> (r: Self) {
        proof {
            use_type_invariant(&self);
        }
        Position { start: self.start + rhs, end: self.end + rhs }
    }
}

impl AddSpecImpl<MusicalTime> for Position {
    open spec fn obeys_add_spec() -> bool {
        true
    }

    open spec fn add_req(self, rhs: MusicalTime) -> bool {
        self@.1 + rhs@ <= u64::MAX
    }

    closed spec fn add_spec(self, rhs: MusicalTime) -> Self {
        Position {
            start: BeatTime(FixedPoint((self.start@ + rhs@) as u64)),
            end: BeatTime(FixedPoint((self.end@ + rhs@) as u64)),
        }
    }
}

/// Shifting a range by `t` shifts both of its ends by `t`.
pub broadcast proof fn lemma_position_add(r: Position, t: MusicalTime)
    requires
        r@.0 + t@ <= u64::MAX,
        r@.1 + t@ <= u64::MAX,
    ensures
        (#[trigger] AddSpec::add_spec(r, t))@ == (r@.0 + t@, r@.1 + t@),
{
}

/// `x` clamped into `[lo, hi]`.
fn clamp_time(x: MusicalTime, lo: MusicalTime, hi: MusicalTime) -> (r: MusicalTime)
    requires
        lo@ <= hi@,
    ensures
        r@ == clamp_spec(x@, lo@, hi@),
{
    if x.to_bits() < lo.to_bits() {
        lo
    } else if x.to_bits() > hi.to_bits() {
        hi
    } else {
        x
    }
}

} // verus!
