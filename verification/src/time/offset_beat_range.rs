use vstd::prelude::*;
use vstd::std_specs::convert::{FromSpec, FromSpecImpl};
use crate::time::beat_range::{beat_frames, beat_frames_fit, range_new_spec};
use crate::time::beat_time::BeatTime;
use crate::time::fixed_point::FixedPoint;
use crate::transport::Transport;
use crate::time::beat_range::BeatRange;

verus! {

/// Where the start of a range with an offset ends up when it is trimmed towards
/// `new_start`: no earlier than where the offset reaches zero, and at least one tick before
/// the end.
pub open spec fn offset_trim_start_target(v: (nat, nat, nat), new_start: nat) -> nat {
    let min_start = if v.0 >= v.2 { (v.0 - v.2) as nat } else { 0nat };
    let target = if new_start < min_start { min_start } else { new_start };
    if target < v.1 - 1 { target } else { (v.1 - 1) as nat }
}

/// A range with an offset after trimming its start towards `new_start`: the offset moves
/// with the start.
pub open spec fn offset_trim_start_spec(v: (nat, nat, nat), new_start: nat) -> (nat, nat, nat) {
    let s = offset_trim_start_target(v, new_start);
    (s, v.1, (v.2 + s - v.0) as nat)
}

/// Whether trimming the start stays within `u64`.
pub open spec fn offset_trim_fits(v: (nat, nat, nat), new_start: nat) -> bool {
    v.2 + offset_trim_start_target(v, new_start) - v.0 <= u64::MAX
}

/// A range of beats together with an offset into the content that plays from its start.
#[derive(Clone, Copy, Debug, Default, PartialEq, Eq, Structural, Hash)]
pub struct OffsetBeatRange {
    position: BeatRange,
    offset: BeatTime,
}

impl View for OffsetBeatRange {
    /// The start, the end, and the offset.
    type V = (nat, nat, nat);

    closed spec fn view(&self) -> (nat, nat, nat) {
        (self.position@.0, self.position@.1, self.offset@)
    }
}

impl OffsetBeatRange {
    pub fn new(position: BeatRange, offset: BeatTime) -> (r: Self)
        ensures
            r@ == (position@.0, position@.1, offset@),
    {
        OffsetBeatRange { position, offset }
    }

    pub fn to_samples(self, transport: &Transport) -> (r: (usize, usize, usize))
        requires
            beat_frames_fit(self@.0, *transport),
            beat_frames_fit(self@.1, *transport),
            beat_frames_fit(self@.2, *transport),
        ensures
            r.0 == beat_frames(self@.0, *transport),
            r.1 == beat_frames(self@.1, *transport),
            r.2 == beat_frames(self@.2, *transport),
    {
        (
            self.start().to_frames(transport),
            self.end().to_frames(transport),
            self.offset().to_frames(transport),
        )
    }

    pub fn start(self) -> (r: BeatTime)
        ensures
            r@ == self@.0,
            r@ < self@.1,
    {
        self.position.start()
    }

    pub fn end(self) -> (r: BeatTime)
        ensures
            r@ == self@.1,
            self@.0 < r@,
    {
        self.position.end()
    }

    pub fn offset(self) -> (r: BeatTime)
        ensures
            r@ == self@.2,
    {
        self.offset
    }

    pub fn len(self) -> (r: BeatTime)
        ensures
            r@ == self@.1 - self@.0,
            r@ > 0,
    {
        self.position.len()
    }

    /// Moves the start, leaving the end where it is, and shifts the offset by as much, so that
    /// what is heard at each point in time stays the same. The start moves no earlier than
    /// where the offset would become negative, and stays at least one tick before the end.
    pub fn trim_start_to(&mut self, new_start: BeatTime)
        requires
            offset_trim_fits(old(self)@, new_start@),
        ensures
            final(self)@ == offset_trim_start_spec(old(self)@, new_start@),
            final(self)@.0 < final(self)@.1,
    {
        let old_start = self.start();
        let min_start = old_start.saturating_sub(self.offset());
        let target = if new_start.to_bits() < min_start.to_bits() { min_start } else { new_start };
        let mut position = self.position;
        position.trim_start_to(target);
        let new_start = position.start();
        let diff = new_start.abs_diff(old_start);
        let offset = if old_start.to_bits() < new_start.to_bits() {
            self.offset + diff
        } else {
            self.offset - diff
        };
        *self = OffsetBeatRange { position, offset };
    }

    /// Moves the end, leaving the start and the offset where they are.
    pub fn trim_end_to(&mut self, new_end: BeatTime)
        ensures
            final(self)@.0 == old(self)@.0,
            final(self)@.1 == range_new_spec(old(self)@.0, new_end@).1,
            final(self)@.2 == old(self)@.2,
    {
        let mut position = self.position;
        position.trim_end_to(new_end);
        *self = OffsetBeatRange { position, offset: self.offset };
    }

    /// Moves the whole range to start at `new_start`, keeping its length and offset.
    pub fn move_to(&mut self, new_start: BeatTime)
        requires
            new_start@ + (old(self)@.1 - old(self)@.0) <= u64::MAX,
        ensures
            final(self)@ == (
                new_start@,
                (new_start@ + (old(self)@.1 - old(self)@.0)) as nat,
                old(self)@.2,
            ),
    {
        let mut position = self.position;
        position.move_to(new_start);
        *self = OffsetBeatRange { position, offset: self.offset };
    }

    pub fn position(self) -> (r: BeatRange)
        ensures
            r@ == (self@.0, self@.1),
    {
        self.position
    }
}

impl From<BeatRange> for OffsetBeatRange {
    fn from(value: BeatRange) -> (r: Self) {
        Self { position: value, offset: BeatTime(FixedPoint(0)) }
    }
}

impl FromSpecImpl<BeatRange> for OffsetBeatRange {
    open spec fn obeys_from_spec() -> bool {
        true
    }

    closed spec fn from_spec(v: BeatRange) -> Self {
        OffsetBeatRange { position: v, offset: BeatTime(FixedPoint(0)) }
    }
}

/// A range turned into one with an offset keeps its ends and gets a zero offset.
pub broadcast proof fn lemma_offset_beat_range_from(v: BeatRange)
    ensures
        (#[trigger] <OffsetBeatRange as FromSpec<BeatRange>>::from_spec(v))@ == (v@.0, v@.1, 0nat),
{
}

/// Trimming the start of a range with an offset keeps the content where it was: the start
/// minus the offset, the point at which the content begins, stays the same, and the start
/// moves no earlier than that point and stays before the end.
pub proof fn lemma_trim_start_keeps_content(v: (nat, nat, nat), new_start: nat)
    requires
        v.0 < v.1,
    ensures
        v.2 + offset_trim_start_target(v, new_start) >= v.0,
        offset_trim_start_spec(v, new_start).0 - offset_trim_start_spec(v, new_start).2 == v.0
            - v.2,
        offset_trim_start_spec(v, new_start).0 < offset_trim_start_spec(v, new_start).1,
        offset_trim_start_spec(v, new_start).1 == v.1,
{
}

} // verus!
