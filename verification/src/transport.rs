use vstd::prelude::*;

verus! {

/// The playback parameters that time conversions depend on: the sample rate in frames
/// per second, the tempo in beats per minute, and the number of beats in a bar.
/// None of them is ever zero.
#[derive(Clone, Copy, Debug, PartialEq, Eq)]
pub struct Transport {
    sample_rate: u32,
    bpm: u16,
    numerator: u8,
}

impl Transport {
    #[verifier::type_invariant]
    closed spec fn inv(self) -> bool {
        &&& self.sample_rate > 0
        &&& self.bpm > 0
        &&& self.numerator > 0
    }

    pub closed spec fn sample_rate_spec(self) -> nat {
        self.sample_rate as nat
    }

    pub closed spec fn bpm_spec(self) -> nat {
        self.bpm as nat
    }

    pub closed spec fn numerator_spec(self) -> nat {
        self.numerator as nat
    }

    /// A transport, or `None` where one of the three values is zero.
    pub fn new(sample_rate: u32, bpm: u16, numerator: u8) -> (r: Option<Self>)
        ensures
            r is Some <==> sample_rate > 0 && bpm > 0 && numerator > 0,
            r matches Some(t) ==> {
                &&& t.sample_rate_spec() == sample_rate
                &&& t.bpm_spec() == bpm
                &&& t.numerator_spec() == numerator
            },
    {
        if sample_rate > 0 && bpm > 0 && numerator > 0 {
            Some(Transport { sample_rate, bpm, numerator })
        } else {
            None
        }
    }

    pub fn sample_rate(&self) -> (r: u32)
        ensures
            r == self.sample_rate_spec(),
            r > 0,
    {
        proof {
            use_type_invariant(self);
        }
        self.sample_rate
    }

    pub fn bpm(&self) -> (r: u16)
        ensures
            r == self.bpm_spec(),
            r > 0,
    {
        proof {
            use_type_invariant(self);
        }
        self.bpm
    }

    pub fn numerator(&self) -> (r: u8)
        ensures
            r == self.numerator_spec(),
            r > 0,
    {
        proof {
            use_type_invariant(self);
        }
        self.numerator
    }

    pub fn set_sample_rate(&mut self, sample_rate: u32)
        requires
            sample_rate > 0,
        ensures
            final(self).sample_rate_spec() == sample_rate,
            final(self).bpm_spec() == old(self).bpm_spec(),
            final(self).numerator_spec() == old(self).numerator_spec(),
    {
        proof {
            use_type_invariant(&*self);
        }
        *self = Transport { sample_rate, bpm: self.bpm, numerator: self.numerator };
    }

    pub fn set_bpm(&mut self, bpm: u16)
        requires
            bpm > 0,
        ensures
            final(self).bpm_spec() == bpm,
            final(self).sample_rate_spec() == old(self).sample_rate_spec(),
            final(self).numerator_spec() == old(self).numerator_spec(),
    {
        proof {
            use_type_invariant(&*self);
        }
        *self = Transport { sample_rate: self.sample_rate, bpm, numerator: self.numerator };
    }

    pub fn set_numerator(&mut self, numerator: u8)
        requires
            numerator > 0,
        ensures
            final(self).numerator_spec() == numerator,
            final(self).sample_rate_spec() == old(self).sample_rate_spec(),
            final(self).bpm_spec() == old(self).bpm_spec(),
    {
        proof {
            use_type_invariant(&*self);
        }
        *self = Transport { sample_rate: self.sample_rate, bpm: self.bpm, numerator };
    }
}

} // verus!
