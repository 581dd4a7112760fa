use vstd::prelude::*;
use vstd::std_specs::ops::{AddSpec, AddSpecImpl};
use crate::time::beat_range::{beat_frames, beat_frames_fit};
use crate::time::beat_time::BeatTime;
use crate::time::fixed_point::FixedPoint;
use crate::time::seconds_time::SecondsTime;
use crate::time::{beats_to_seconds, seconds_to_beats};
use crate::transport::Transport;

verus! {

/// The end of a span that starts at `start` (in beat ticks) and lasts `len` (in second ticks).
pub open spec fn span_end(start: nat, len: nat, transport: Transport) -> nat {
    start + seconds_to_beats(len, transport.bpm_spec())
}

/// Whether the end of a span can be computed without overflow.
pub open spec fn span_end_fits(start: nat, len: nat, transport: Transport) -> bool {
    &&& len * transport.bpm_spec() <= u64::MAX
    &&& span_end(start, len, transport) <= u64::MAX
}

/// A stretch of time that starts at a point in beats and lasts a duration in seconds, so that
/// its length in seconds does not change with the tempo. The length is at least one tick.
#[derive(Clone, Copy, Debug, PartialEq, Eq, Structural, Hash)]
pub struct BeatSpan {
    start: BeatTime,
    len: SecondsTime,
}

impl View for BeatSpan {
    /// The start in beat ticks and the length in second ticks.
    type V = (nat, nat);

    closed spec fn view(&self) -> (nat, nat) {
        (self.start@, self.len@)
    }
}

impl BeatSpan {
    #[verifier::type_invariant]
    closed spec fn inv(self) -> bool {
        self.len@ > 0
    }

    /// The span from `start` lasting `len`, at least one tick long.
    pub fn new(start: BeatTime, len: SecondsTime) -> (r: Self)
        ensures
            r@ == (start@, if len@ > 1 { len@ } else { 1nat }),
    {
        let len = if len.to_bits() > 1 { len } else { SecondsTime::one_tick() };
        BeatSpan { start, len }
    }

    pub fn to_samples(self, transport: &Transport) -> (r: (usize, usize))
        requires
            span_end_fits(self@.0, self@.1, *transport),
            beat_frames_fit(self@.0, *transport),
            beat_frames_fit(span_end(self@.0, self@.1, *transport), *transport),
        ensures
            r.0 == beat_frames(self@.0, *transport),
            r.1 == beat_frames(span_end(self@.0, self@.1, *transport), *transport),
    {
        (self.start().to_frames(transport), self.end(transport).to_frames(transport))
    }

    pub fn start(self) -> (r: BeatTime)
        ensures
            r@ == self@.0,
    {
        self.start
    }

    /// Where the span ends at the transport's tempo.
    pub fn end(self, transport: &Transport) -> (r: BeatTime)
        requires
            span_end_fits(self@.0, self@.1, *transport),
        ensures
            r@ == span_end(self@.0, self@.1, *transport),
    {
        self.start() + self.len().to_beat_time(transport)
    }

    pub fn len(self) -> (r: SecondsTime)
        ensures
            r@ == self@.1,
            r@ > 0,
    {
        proof {
            use_type_invariant(&self);
        }
        self.len
    }

    /// Moves the start, keeping the end where it is at the transport's tempo; the start stays
    /// at least one tick before the end.
    pub fn trim_start_to(&mut self, new_start: BeatTime, transport: &Transport)
        requires
            span_end_fits(old(self)@.0, old(self)@.1, *transport),
            span_end(old(self)@.0, old(self)@.1, *transport) >= 1,
            span_end(old(self)@.0, old(self)@.1, *transport) * 60 <= u64::MAX,
        ensures
            ({
                let end = span_end(old(self)@.0, old(self)@.1, *transport);
                let start = if new_start@ < end - 1 { new_start@ } else { (end - 1) as nat };
                final(self)@ == (start, beats_to_seconds((end - start) as nat, transport.bpm_spec()))
            }),
    {
        let end = self.end(transport);
        let max_start = end - BeatTime::one_tick();
        let start = if new_start.to_bits() < max_start.to_bits() { new_start } else { max_start };
        let gap = end - start;
        assert(gap@ * 60 <= u64::MAX) by (nonlinear_arith)
            requires gap@ <= end@, end@ * 60 <= u64::MAX;
        let len = gap.to_seconds_time(transport);
        let bpm = transport.bpm();
        proof {
            lemma_div_ceil_positive(gap@ * 60, bpm as nat);
        }
        *self = BeatSpan { start, len };
    }

    /// Sets the length so that the span ends at `new_end` at the transport's tempo, keeping the
    /// start; the length is at least one tick.
    pub fn trim_end_to(&mut self, new_end: BeatTime, transport: &Transport)
        requires
            (if new_end@ >= old(self)@.0 { (new_end@ - old(self)@.0) as nat } else { 0nat }) * 60
                <= u64::MAX,
        ensures
            ({
                let gap = if new_end@ >= old(self)@.0 { (new_end@ - old(self)@.0) as nat } else {
                    0nat
                };
                let len = beats_to_seconds(gap, transport.bpm_spec());
                final(self)@ == (old(self)@.0, if len > 1 { len } else { 1nat })
            }),
    {
        let len = new_end.saturating_sub(self.start).to_seconds_time(transport);
        let len = if len.to_bits() > 1 { len } else { SecondsTime::one_tick() };
        *self = BeatSpan { start: self.start, len };
    }

    pub fn move_to(&mut self, new_start: BeatTime)
        ensures
            final(self)@ == (new_start@, old(self)@.1),
    {
        proof {
            use_type_invariant(&*self);
        }
        *self = BeatSpan { start: new_start, len: self.len };
    }
}

/// A positive amount turns into a positive amount when divided and rounded up.
proof fn lemma_div_ceil_positive(a: nat, d: nat)
    requires
        a > 0,
        d > 0,
    ensures
        crate::time::div_ceil_spec(a, d) > 0,
{
    if a % d == 0 {
        assert(a / d > 0) by (nonlinear_arith)
            requires a > 0, d > 0, a % d == 0;
    }
}

impl Default for BeatSpan {
    fn default() -> (r: Self)
        ensures
            r@ == (0nat, 1nat),
    {
        Self::new(BeatTime::zero(), SecondsTime::zero())
    }
}

impl std::ops::Add<BeatTime> for BeatSpan {
    type Output = Self;

    fn add(self, rhs: BeatTime) -> (r: Self) {
        proof {
            use_type_invariant(&self);
        }
        BeatSpan { start: self.start + rhs, len: self.len }
    }
}

impl AddSpecImpl<BeatTime> for BeatSpan {
    open spec fn obeys_add_spec() -> bool {
        true
    }

    open spec fn add_req(self, rhs: BeatTime) -> bool {
        self@.0 + rhs@ <= u64::MAX
    }

    closed spec fn add_spec(self, rhs: BeatTime) -> Self {
        BeatSpan { start: BeatTime(FixedPoint((self.start@ + rhs@) as u64)), len: self.len }
    }
}

/// Shifting a span by `t` moves its start by `t` and keeps its length.
pub broadcast proof fn lemma_span_add(s: BeatSpan, t: BeatTime)
    requires
        s@.0 + t@ <= u64::MAX,
    ensures
        (#[trigger] AddSpec::add_spec(s, t))@ == (s@.0 + t@, s@.1),
{
}

/// Setting the length of a span so that it ends at `new_end` makes it end there or just after
/// (the length in seconds is rounded up to a tick), at the same tempo.
pub proof fn lemma_trim_end_reaches(start: nat, new_end: nat, transport: Transport)
    requires
        new_end > start,
        transport.bpm_spec() > 0,
    ensures
        ({
            let len = beats_to_seconds((new_end - start) as nat, transport.bpm_spec());
            let len = if len > 1 { len } else { 1nat };
            span_end(start, len, transport) >= new_end
        }),
{
    let bpm = transport.bpm_spec();
    let gap = (new_end - start) as nat;
    crate::time::lemma_beats_seconds_beats(gap, bpm);
    let len = beats_to_seconds(gap, bpm);
    if len <= 1 {
        crate::time::lemma_conversions_monotone(len, 1, bpm);
    }
}

} // verus!
