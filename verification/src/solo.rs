use vstd::prelude::*;

verus! {

/// Which tracks play: each track's enabled flag, and the track that is soloed, if any.
#[derive(Clone, Debug)]
pub struct TrackMutes {
    enabled: Vec<bool>,
    soloed: Option<usize>,
}

/// Only track `t` of `n` tracks is enabled.
pub open spec fn only(n: nat, t: nat) -> Seq<bool> {
    Seq::new(n, |i: int| i == t)
}

/// All `n` tracks are enabled.
pub open spec fn all_enabled(n: nat) -> Seq<bool> {
    Seq::new(n, |i: int| true)
}

/// The flags and solo after soloing `track`: only it plays, or, where it was soloed already,
/// every track plays and none is soloed.
pub open spec fn solo_spec(v: (Seq<bool>, Option<usize>), track: usize) -> (Seq<bool>, Option<usize>) {
    if v.1 == Some(track) {
        (all_enabled(v.0.len()), None)
    } else {
        (only(v.0.len(), track as nat), Some(track))
    }
}

impl View for TrackMutes {
    /// The enabled flags, in track order, and the soloed track.
    type V = (Seq<bool>, Option<usize>);

    closed spec fn view(&self) -> (Seq<bool>, Option<usize>) {
        (self.enabled@, self.soloed)
    }
}

impl TrackMutes {
    /// While a track is soloed, it is the only one enabled.
    pub open spec fn wf(&self) -> bool {
        self@.1 matches Some(t) ==> t < self@.0.len() && self@.0 == only(self@.0.len(), t as nat)
    }

    /// No tracks, none soloed.
    pub fn new() -> (r: Self)
        ensures
            r.wf(),
            r@ == (Seq::<bool>::empty(), None::<usize>),
    {
        TrackMutes { enabled: Vec::new(), soloed: None }
    }

    /// Adds a track at the end: it plays, unless a track is soloed.
    pub fn push_track(&mut self)
        requires
            old(self).wf(),
        ensures
            final(self).wf(),
            final(self)@ == (old(self)@.0.push(old(self)@.1 is None), old(self)@.1),
    {
        let on = self.soloed.is_none();
        self.enabled.push(on);
        proof {
            if let Some(t) = self.soloed {
                assert(self.enabled@ =~= only(self.enabled@.len(), t as nat));
            }
        }
    }

    /// Removes track `track`; the tracks after it move up by one. Removing the soloed track
    /// ends the solo, and the other tracks stay as they are.
    pub fn remove_track(&mut self, track: usize)
        requires
            old(self).wf(),
            track < old(self)@.0.len(),
        ensures
            final(self).wf(),
            final(self)@.0 == old(self)@.0.remove(track as int),
            final(self)@.1 == match old(self)@.1 {
                Some(t) => if t == track {
                    None
                } else if t < track {
                    Some(t)
                } else {
                    Some((t - 1) as usize)
                },
                None => None,
            },
    {
        self.enabled.remove(track);
        self.soloed = match self.soloed {
            Some(t) => if t == track {
                None
            } else if t < track {
                Some(t)
            } else {
                Some(t - 1)
            },
            None => None,
        };
        proof {
            if let Some(t) = self.soloed {
                assert(self.enabled@ =~= only(self.enabled@.len(), t as nat));
            }
        }
    }

    /// Whether track `track` plays.
    pub fn enabled(&self, track: usize) -> (r: bool)
        requires
            track < self@.0.len(),
        ensures
            r == self@.0[track as int],
    {
        self.enabled[track]
    }

    /// The soloed track, if any.
    pub fn soloed(&self) -> (r: Option<usize>)
        ensures
            r == self@.1,
    {
        self.soloed
    }

    /// Turns one track on or off; any solo ends.
    pub fn toggle_enabled(&mut self, track: usize)
        requires
            old(self).wf(),
            track < old(self)@.0.len(),
        ensures
            final(self).wf(),
            final(self)@ == (
                old(self)@.0.update(track as int, !old(self)@.0[track as int]),
                None::<usize>,
            ),
    {
        let e = self.enabled[track];
        self.enabled.set(track, !e);
        self.soloed = None;
    }

    fn set_all(&mut self, solo: Option<usize>)
        requires
            solo matches Some(t) ==> t < old(self)@.0.len(),
        ensures
            final(self)@.0 == match solo {
                Some(t) => only(old(self)@.0.len(), t as nat),
                None => all_enabled(old(self)@.0.len()),
            },
            final(self)@.1 == solo,
    {
        let n = self.enabled.len();
        let mut i: usize = 0;
        while i < n
            invariant
                n == self.enabled@.len(),
                n == old(self)@.0.len(),
                0 <= i <= n,
                forall|k: int|
                    0 <= k < i ==> #[trigger] self.enabled@[k] == match solo {
                        Some(t) => k == t,
                        None => true,
                    },
            decreases n - i,
        {
            let on = match solo {
                Some(t) => i == t,
                None => true,
            };
            self.enabled.set(i, on);
            i = i + 1;
        }
        self.soloed = solo;
        proof {
            match solo {
                Some(t) => assert(self.enabled@ =~= only(n as nat, t as nat)),
                None => assert(self.enabled@ =~= all_enabled(n as nat)),
            }
        }
    }

    /// Solos a track: only it plays. Soloing the soloed track again ends the solo, and every
    /// track plays.
    pub fn toggle_solo(&mut self, track: usize)
        requires
            old(self).wf(),
            track < old(self)@.0.len(),
        ensures
            final(self).wf(),
            final(self)@ == solo_spec(old(self)@, track),
    {
        if self.soloed == Some(track) {
            self.set_all(None);
        } else {
            self.set_all(Some(track));
        }
    }
}

/// Soloing a track twice in a row, from any state in which it is not soloed, leaves every
/// track playing and no track soloed.
pub proof fn lemma_solo_twice(v: (Seq<bool>, Option<usize>), track: usize)
    requires
        v.1 != Some(track),
    ensures
        solo_spec(solo_spec(v, track), track) == (all_enabled(v.0.len()), None::<usize>),
{
}

} // verus!
