use vstd::prelude::*;
use vstd::std_specs::ops::{AddSpec, AddSpecImpl};
use crate::time::fixed_point::FixedPoint;
use crate::time::beat_time::{BeatTime, bar_len};
use crate::time::fixed_point::{
    lemma_rounding, lemma_rounding_monotone, FACTOR, abs_diff_spec, ceil_fits, ceil_spec, floor_spec, round_fits, round_spec,
};
use crate::time::{beats_to_seconds, seconds_to_frames};
use crate::transport::Transport;

verus! {

/// The range that `new` builds from `start` and `end`: the end is moved to one tick after the
/// start where it would not be past it.
pub open spec fn range_new_spec(start: nat, end: nat) -> (nat, nat) {
    (start, if end > start + 1 { end } else { start + 1 })
}

/// The value clamped into `[lo, hi]`.
pub open spec fn clamp_spec(x: nat, lo: nat, hi: nat) -> nat {
    if x < lo {
        lo
    } else if x > hi {
        hi
    } else {
        x
    }
}

/// The range that snapping `(start, end)` gives where its ends went to `s2` and `e2` on a grid
/// of step `m`: where both ends fell on the same grid point, the range keeps one grid step on
/// the side of the end that moved less.
pub open spec fn adjust_spec(start: nat, end: nat, s2: nat, e2: nat, m: nat) -> (nat, nat) {
    if s2 != e2 {
        range_new_spec(s2, e2)
    } else if abs_diff_spec(start, s2) < abs_diff_spec(end, e2) {
        range_new_spec(s2, s2 + m)
    } else {
        range_new_spec((e2 - m) as nat, e2)
    }
}

/// Whether snapping stays within `u64`.
pub open spec fn adjust_fits(start: nat, end: nat, s2: nat, e2: nat, m: nat) -> bool {
    if s2 != e2 {
        s2 + 1 <= u64::MAX
    } else if abs_diff_spec(start, s2) < abs_diff_spec(end, e2) {
        s2 + m <= u64::MAX
    } else {
        e2 >= m
    }
}

/// The frame number that a time in beats falls in.
pub open spec fn beat_frames(bits: nat, transport: Transport) -> nat {
    seconds_to_frames(beats_to_seconds(bits, transport.bpm_spec()), transport.sample_rate_spec())
}

/// Whether a time in beats can be turned into a frame number without overflow.
pub open spec fn beat_frames_fit(bits: nat, transport: Transport) -> bool {
    &&& bits * 60 <= u64::MAX
    &&& beats_to_seconds(bits, transport.bpm_spec()) * transport.sample_rate_spec() <= u64::MAX
    &&& beat_frames(bits, transport) <= usize::MAX
}

/// A non-empty range of beats: `start` comes strictly before `end`.
#[derive(Clone, Copy, Debug, PartialEq, Eq, Structural, Hash)]
pub struct BeatRange {
    start: BeatTime,
    end: BeatTime,
}

impl View for BeatRange {
    type V = (nat, nat);

    closed spec fn view(&self) -> (nat, nat) {
        (self.start@, self.end@)
    }
}

impl BeatRange {
    #[verifier::type_invariant]
    closed spec fn inv(self) -> bool {
        self.start@ < self.end@
    }

    /// The range from `start` to `end`, at least one tick long.
    pub fn new(start: BeatTime, end: BeatTime) -> (r: Self)
        requires
            start@ + 1 <= u64::MAX,
        ensures
            r@ == range_new_spec(start@, end@),
            r@.0 < r@.1,
    {
        let min_end = start + BeatTime::one_tick();
        let end = if end.to_bits() > min_end.to_bits() { end } else { min_end };
        BeatRange { start, end }
    }

    pub fn to_samples(self, transport: &Transport) -> (r: (usize, usize))
        requires
            beat_frames_fit(self@.0, *transport),
            beat_frames_fit(self@.1, *transport),
        ensures
            r.0 == beat_frames(self@.0, *transport),
            r.1 == beat_frames(self@.1, *transport),
    {
        (self.start().to_frames(transport), self.end().to_frames(transport))
    }

    pub fn start(self) -> (r: BeatTime)
        ensures
            r@ == self@.0,
            r@ < self@.1,
    {
        proof {
            use_type_invariant(&self);
        }
        self.start
    }

    pub fn end(self) -> (r: BeatTime)
        ensures
            r@ == self@.1,
            self@.0 < r@,
    {
        proof {
            use_type_invariant(&self);
        }
        self.end
    }

    pub fn len(self) -> (r: BeatTime)
        ensures
            r@ == self@.1 - self@.0,
            r@ > 0,
    {
        proof {
            use_type_invariant(&self);
        }
        self.end - self.start
    }

    /// Moves the start, leaving the end where it is; the start stays at least one tick before
    /// the end.
    pub fn trim_start_to(&mut self, new_start: BeatTime)
        ensures
            final(self)@.0 == if new_start@ < old(self)@.1 - 1 { new_start@ } else {
                (old(self)@.1 - 1) as nat
            },
            final(self)@.1 == old(self)@.1,
            final(self)@.0 < final(self)@.1,
    {
        proof {
            use_type_invariant(&*self);
        }
        let max_start = self.end - BeatTime::one_tick();
        let start = if new_start.to_bits() < max_start.to_bits() { new_start } else { max_start };
        *self = BeatRange { start, end: self.end };
    }

    /// Moves the end, leaving the start where it is; the end stays at least one tick after the
    /// start.
    pub fn trim_end_to(&mut self, new_end: BeatTime)
        ensures
            final(self)@ == range_new_spec(old(self)@.0, new_end@),
            final(self)@.0 < final(self)@.1,
    {
        proof {
            use_type_invariant(&*self);
        }
        *self = Self::new(self.start, new_end);
    }

    /// Moves the whole range so that it starts at `new_start`, keeping its length.
    pub fn move_to(&mut self, new_start: BeatTime)
        requires
            new_start@ + (old(self)@.1 - old(self)@.0) <= u64::MAX,
        ensures
            final(self)@.0 == new_start@,
            final(self)@.1 == new_start@ + (old(self)@.1 - old(self)@.0),
            final(self)@.0 < final(self)@.1,
    {
        let len = self.len();
        *self = BeatRange { start: new_start, end: new_start + len };
    }

    /// The range moved earlier by `diff`, with both ends stopping at zero; `None` where nothing
    /// of it is left.
    pub fn saturating_sub(self, diff: BeatTime) -> (r: Option<Self>)
        ensures
            r is Some <==> self@.1 > diff@,
            r matches Some(v) ==> v@ == (
                if self@.0 >= diff@ { (self@.0 - diff@) as nat } else { 0nat },
                (self@.1 - diff@) as nat,
            ),
    {
        proof {
            use_type_invariant(&self);
        }
        let start = self.start.saturating_sub(diff);
        let end = self.end.saturating_sub(diff);
        if start.to_bits() != end.to_bits() {
            Some(BeatRange { start, end })
        } else {
            None
        }
    }

    /// The part of the range that lies within `other`; `None` where they do not overlap.
    pub fn clamp(self, other: Self) -> (r: Option<Self>)
        ensures
            r is Some <==> clamp_spec(self@.0, other@.0, other@.1) != clamp_spec(
                self@.1,
                other@.0,
                other@.1,
            ),
            r matches Some(v) ==> v@ == (
                clamp_spec(self@.0, other@.0, other@.1),
                clamp_spec(self@.1, other@.0, other@.1),
            ),
    {
        proof {
            use_type_invariant(&self);
            use_type_invariant(&other);
        }
        let start = clamp_beat(self.start, other.start, other.end);
        let end = clamp_beat(self.end, other.start, other.end);
        if start.to_bits() != end.to_bits() {
            Some(BeatRange { start, end })
        } else {
            None
        }
    }

    fn adjust(self, start: BeatTime, end: BeatTime, modulo: BeatTime) -> (r: Self)
        requires
            modulo@ > 0,
            adjust_fits(self@.0, self@.1, start@, end@, modulo@),
        ensures
            r@ == adjust_spec(self@.0, self@.1, start@, end@, modulo@),
            r@.0 < r@.1,
    {
        if start.to_bits() != end.to_bits() {
            Self::new(start, end)
        } else if self.start.abs_diff(start).to_bits() < self.end.abs_diff(end).to_bits() {
            Self::new(start, start + modulo)
        } else {
            Self::new(end - modulo, end)
        }
    }

    /// Both ends rounded down to a multiple of `modulo`, kept non-empty.
    pub fn floor(self, modulo: BeatTime) -> (r: Self)
        requires
            modulo@ > 0,
            adjust_fits(
                self@.0,
                self@.1,
                floor_spec(self@.0, modulo@),
                floor_spec(self@.1, modulo@),
                modulo@,
            ),
        ensures
            r@ == adjust_spec(
                self@.0,
                self@.1,
                floor_spec(self@.0, modulo@),
                floor_spec(self@.1, modulo@),
                modulo@,
            ),
            r@.0 < r@.1,
    {
        self.adjust(self.start.floor(modulo), self.end.floor(modulo), modulo)
    }

    /// Both ends rounded up to a multiple of `modulo`, kept non-empty.
    pub fn ceil(self, modulo: BeatTime) -> (r: Self)
        requires
            modulo@ > 0,
            ceil_fits(self@.0, modulo@),
            ceil_fits(self@.1, modulo@),
            adjust_fits(
                self@.0,
                self@.1,
                ceil_spec(self@.0, modulo@),
                ceil_spec(self@.1, modulo@),
                modulo@,
            ),
        ensures
            r@ == adjust_spec(
                self@.0,
                self@.1,
                ceil_spec(self@.0, modulo@),
                ceil_spec(self@.1, modulo@),
                modulo@,
            ),
            r@.0 < r@.1,
    {
        self.adjust(self.start.ceil(modulo), self.end.ceil(modulo), modulo)
    }

    /// Both ends rounded to the nearest multiple of `modulo`, kept non-empty.
    pub fn round(self, modulo: BeatTime) -> (r: Self)
        requires
            modulo@ > 0,
            round_fits(self@.0, modulo@),
            round_fits(self@.1, modulo@),
            adjust_fits(
                self@.0,
                self@.1,
                round_spec(self@.0, modulo@),
                round_spec(self@.1, modulo@),
                modulo@,
            ),
        ensures
            r@ == adjust_spec(
                self@.0,
                self@.1,
                round_spec(self@.0, modulo@),
                round_spec(self@.1, modulo@),
                modulo@,
            ),
            r@.0 < r@.1,
    {
        self.adjust(self.start.round(modulo), self.end.round(modulo), modulo)
    }
}

impl BeatRange {
    pub fn beat_floor(self) -> (r: Self)
        requires
            adjust_fits(
                self@.0,
                self@.1,
                floor_spec(self@.0, FACTOR as nat),
                floor_spec(self@.1, FACTOR as nat),
                FACTOR as nat,
            ),
        ensures
            r@ == adjust_spec(
                self@.0,
                self@.1,
                floor_spec(self@.0, FACTOR as nat),
                floor_spec(self@.1, FACTOR as nat),
                FACTOR as nat,
            ),
    {
        self.floor(BeatTime::one_beat())
    }

    pub fn beat_ceil(self) -> (r: Self)
        requires
            ceil_fits(self@.0, FACTOR as nat),
            ceil_fits(self@.1, FACTOR as nat),
            adjust_fits(
                self@.0,
                self@.1,
                ceil_spec(self@.0, FACTOR as nat),
                ceil_spec(self@.1, FACTOR as nat),
                FACTOR as nat,
            ),
        ensures
            r@ == adjust_spec(
                self@.0,
                self@.1,
                ceil_spec(self@.0, FACTOR as nat),
                ceil_spec(self@.1, FACTOR as nat),
                FACTOR as nat,
            ),
    {
        self.ceil(BeatTime::one_beat())
    }

    pub fn beat_round(self) -> (r: Self)
        requires
            round_fits(self@.0, FACTOR as nat),
            round_fits(self@.1, FACTOR as nat),
            adjust_fits(
                self@.0,
                self@.1,
                round_spec(self@.0, FACTOR as nat),
                round_spec(self@.1, FACTOR as nat),
                FACTOR as nat,
            ),
        ensures
            r@ == adjust_spec(
                self@.0,
                self@.1,
                round_spec(self@.0, FACTOR as nat),
                round_spec(self@.1, FACTOR as nat),
                FACTOR as nat,
            ),
    {
        self.round(BeatTime::one_beat())
    }

    pub fn bar_floor(self, transport: &Transport) -> (r: Self)
        requires
            adjust_fits(
                self@.0,
                self@.1,
                floor_spec(self@.0, bar_len(*transport)),
                floor_spec(self@.1, bar_len(*transport)),
                bar_len(*transport),
            ),
        ensures
            r@ == adjust_spec(
                self@.0,
                self@.1,
                floor_spec(self@.0, bar_len(*transport)),
                floor_spec(self@.1, bar_len(*transport)),
                bar_len(*transport),
            ),
    {
        self.floor(BeatTime::bar_length(transport))
    }

    pub fn bar_ceil(self, transport: &Transport) -> (r: Self)
        requires
            ceil_fits(self@.0, bar_len(*transport)),
            ceil_fits(self@.1, bar_len(*transport)),
            adjust_fits(
                self@.0,
                self@.1,
                ceil_spec(self@.0, bar_len(*transport)),
                ceil_spec(self@.1, bar_len(*transport)),
                bar_len(*transport),
            ),
        ensures
            r@ == adjust_spec(
                self@.0,
                self@.1,
                ceil_spec(self@.0, bar_len(*transport)),
                ceil_spec(self@.1, bar_len(*transport)),
                bar_len(*transport),
            ),
    {
        self.ceil(BeatTime::bar_length(transport))
    }

    pub fn bar_round(self, transport: &Transport) -> (r: Self)
        requires
            round_fits(self@.0, bar_len(*transport)),
            round_fits(self@.1, bar_len(*transport)),
            adjust_fits(
                self@.0,
                self@.1,
                round_spec(self@.0, bar_len(*transport)),
                round_spec(self@.1, bar_len(*transport)),
                bar_len(*transport),
            ),
        ensures
            r@ == adjust_spec(
                self@.0,
                self@.1,
                round_spec(self@.0, bar_len(*transport)),
                round_spec(self@.1, bar_len(*transport)),
                bar_len(*transport),
            ),
    {
        self.round(BeatTime::bar_length(transport))
    }
}

impl Default for BeatRange {
    fn default() -> (r: Self)
        ensures
            r@ == (0nat, 1nat),
    {
        Self::new(BeatTime::zero(), BeatTime::zero())
    }
}

impl std::ops::Add<BeatTime> for BeatRange {
    type Output = Self;

    fn add(self, rhs: BeatTime) -> (r: Self) {
        proof {
            use_type_invariant(&self);
        }
        BeatRange { start: self.start + rhs, end: self.end + rhs }
    }
}

impl AddSpecImpl<BeatTime> for BeatRange {
    open spec fn obeys_add_spec() -> bool {
        true
    }

    open spec fn add_req(self, rhs: BeatTime) -> bool {
        self@.1 + rhs@ <= u64::MAX
    }

    closed spec fn add_spec(self, rhs: BeatTime) -> Self {
        BeatRange {
            start: BeatTime(FixedPoint((self.start@ + rhs@) as u64)),
            end: BeatTime(FixedPoint((self.end@ + rhs@) as u64)),
        }
    }
}

/// Shifting a range by `t` shifts both of its ends by `t`.
pub broadcast proof fn lemma_range_add(r: BeatRange, t: BeatTime)
    requires
        r@.0 + t@ <= u64::MAX,
        r@.1 + t@ <= u64::MAX,
    ensures
        (#[trigger] AddSpec::add_spec(r, t))@ == (r@.0 + t@, r@.1 + t@),
{
}

/// `x` clamped into `[lo, hi]`.
fn clamp_beat(x: BeatTime, lo: BeatTime, hi: BeatTime) -> (r: BeatTime)
    requires
        lo@ <= hi@,
    ensures
        r@ == clamp_spec(x@, lo@, hi@),
{
    if x.to_bits() < lo.to_bits() {
        lo
    } else if x.to_bits() > hi.to_bits() {
        hi
    } else {
        x
    }
}

/// Snapping ends that already sit on the grid, in order, gives a non-empty range whose ends
/// both sit on the grid.
pub proof fn lemma_adjust_on_grid(start: nat, end: nat, s2: nat, e2: nat, m: nat)
    requires
        m > 0,
        s2 <= e2,
        s2 % m == 0,
        e2 % m == 0,
        adjust_fits(start, end, s2, e2, m),
    ensures
        adjust_spec(start, end, s2, e2, m).0 % m == 0,
        adjust_spec(start, end, s2, e2, m).1 % m == 0,
        adjust_spec(start, end, s2, e2, m).0 < adjust_spec(start, end, s2, e2, m).1,
{
    if s2 != e2 {
    } else if abs_diff_spec(start, s2) < abs_diff_spec(end, e2) {
        assert((s2 + m) % m == 0) by (nonlinear_arith)
            requires s2 % m == 0, m > 0;
    } else {
        assert(((e2 - m) as nat) % m == 0) by (nonlinear_arith)
            requires e2 % m == 0, m > 0, e2 >= m;
    }
}

/// Snapping a range to a grid, rounding its ends down, up or to the nearest grid point,
/// gives a non-empty range whose ends both sit on the grid.
pub proof fn lemma_snap_on_grid(start: nat, end: nat, m: nat)
    requires
        m > 0,
        start < end,
        adjust_fits(start, end, floor_spec(start, m), floor_spec(end, m), m),
        adjust_fits(start, end, ceil_spec(start, m), ceil_spec(end, m), m),
        adjust_fits(start, end, round_spec(start, m), round_spec(end, m), m),
    ensures
        ({
            let r = adjust_spec(start, end, floor_spec(start, m), floor_spec(end, m), m);
            r.0 % m == 0 && r.1 % m == 0 && r.0 < r.1
        }),
        ({
            let r = adjust_spec(start, end, ceil_spec(start, m), ceil_spec(end, m), m);
            r.0 % m == 0 && r.1 % m == 0 && r.0 < r.1
        }),
        ({
            let r = adjust_spec(start, end, round_spec(start, m), round_spec(end, m), m);
            r.0 % m == 0 && r.1 % m == 0 && r.0 < r.1
        }),
{
    lemma_rounding(start, m);
    lemma_rounding(end, m);
    lemma_rounding_monotone(start, end, m);
    lemma_adjust_on_grid(start, end, floor_spec(start, m), floor_spec(end, m), m);
    lemma_adjust_on_grid(start, end, ceil_spec(start, m), ceil_spec(end, m), m);
    lemma_adjust_on_grid(start, end, round_spec(start, m), round_spec(end, m), m);
}

/// Later beat times never fall in earlier frames: `to_frames` keeps the order of times.
pub proof fn lemma_beat_frames_monotone(a: nat, b: nat, transport: Transport)
    requires
        a <= b,
        transport.bpm_spec() > 0,
        transport.sample_rate_spec() > 0,
    ensures
        beat_frames(a, transport) <= beat_frames(b, transport),
{
    crate::time::lemma_conversions_monotone(a, b, transport.bpm_spec());
    crate::time::lemma_conversions_monotone(
        beats_to_seconds(a, transport.bpm_spec()),
        beats_to_seconds(b, transport.bpm_spec()),
        transport.sample_rate_spec(),
    );
}

} // verus!
