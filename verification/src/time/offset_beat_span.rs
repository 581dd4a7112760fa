use vstd::prelude::*;
use crate::time::beat_range::{beat_frames, beat_frames_fit};
use crate::time::beat_span::{BeatSpan, span_end, span_end_fits};
use crate::time::beat_time::BeatTime;
use crate::time::seconds_time::SecondsTime;
use crate::time::beats_to_seconds;
use crate::time::seconds_to_frames;
use crate::transport::Transport;

verus! {

/// A span together with an offset, in seconds, into the content that plays from its start.
#[derive(Clone, Copy, Debug, Default, PartialEq, Eq, Structural, Hash)]
pub struct OffsetBeatSpan {
    position: BeatSpan,
    offset: SecondsTime,
}

impl View for OffsetBeatSpan {
    /// The start in beat ticks, the length and the offset in second ticks.
    type V = (nat, nat, nat);

    closed spec fn view(&self) -> (nat, nat, nat) {
        (self.position@.0, self.position@.1, self.offset@)
    }
}

impl OffsetBeatSpan {
    pub fn new(position: BeatSpan, offset: SecondsTime) -> (r: Self)
        ensures
            r@ == (position@.0, position@.1, offset@),
    {
        OffsetBeatSpan { position, offset }
    }

    pub fn to_samples(self, transport: &Transport) -> (r: (usize, usize, usize))
        requires
            span_end_fits(self@.0, self@.1, *transport),
            beat_frames_fit(self@.0, *transport),
            beat_frames_fit(span_end(self@.0, self@.1, *transport), *transport),
            self@.2 * transport.sample_rate_spec() <= u64::MAX,
            seconds_to_frames(self@.2, transport.sample_rate_spec()) <= usize::MAX,
        ensures
            r.0 == beat_frames(self@.0, *transport),
            r.1 == beat_frames(span_end(self@.0, self@.1, *transport), *transport),
            r.2 == seconds_to_frames(self@.2, transport.sample_rate_spec()),
    {
        (
            self.start().to_frames(transport),
            self.end(transport).to_frames(transport),
            self.offset().to_frames(transport),
        )
    }

    pub fn start(self) -> (r: BeatTime)
        ensures
            r@ == self@.0,
    {
        self.position.start()
    }

    pub fn end(self, transport: &Transport) -> (r: BeatTime)
        requires
            span_end_fits(self@.0, self@.1, *transport),
        ensures
            r@ == span_end(self@.0, self@.1, *transport),
    {
        self.position.end(transport)
    }

    pub fn offset(self) -> (r: SecondsTime)
        ensures
            r@ == self@.2,
    {
        self.offset
    }

    pub fn len(self) -> (r: SecondsTime)
        ensures
            r@ == self@.1,
            r@ > 0,
    {
        self.position.len()
    }

    /// Sets the length so that the span ends at `new_end`, keeping the start and the offset.
    pub fn trim_end_to(&mut self, new_end: BeatTime, transport: &Transport)
        requires
            (if new_end@ >= old(self)@.0 { (new_end@ - old(self)@.0) as nat } else { 0nat }) * 60
                <= u64::MAX,
        ensures
            ({
                let gap = if new_end@ >= old(self)@.0 { (new_end@ - old(self)@.0) as nat } else {
                    0nat
                };
                let len = beats_to_seconds(gap, transport.bpm_spec());
                final(self)@ == (old(self)@.0, if len > 1 { len } else { 1nat }, old(self)@.2)
            }),
    {
        let mut position = self.position;
        position.trim_end_to(new_end, transport);
        *self = OffsetBeatSpan { position, offset: self.offset };
    }

    pub fn move_to(&mut self, new_start: BeatTime)
        ensures
            final(self)@ == (new_start@, old(self)@.1, old(self)@.2),
    {
        let mut position = self.position;
        position.move_to(new_start);
        *self = OffsetBeatSpan { position, offset: self.offset };
    }

    pub fn position(self) -> (r: BeatSpan)
        ensures
            r@ == (self@.0, self@.1),
    {
        self.position
    }
}

} // verus!
