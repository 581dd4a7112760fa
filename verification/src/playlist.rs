use vstd::prelude::*;
use crate::time::beat_range::range_new_spec;
use crate::time::beat_span::{span_end, span_end_fits};
use crate::time::beat_time::BeatTime;
use crate::time::offset_beat_range::{offset_trim_fits, offset_trim_start_spec, OffsetBeatRange};
use crate::time::offset_beat_span::OffsetBeatSpan;
use crate::time::beats_to_seconds;
use crate::transport::Transport;
use std::collections::HashSet;
use crate::selection::{lemma_without_map, remove_selected, without};

verus! {

/// Where a clip lies on its track: a MIDI clip by its range in beats and offset, an audio clip
/// by its start in beats, its length and offset in seconds.
#[derive(Clone, Copy, Debug)]
pub enum Clip {
    Midi(OffsetBeatRange),
    Audio(OffsetBeatSpan),
}

/// A clip as whether it is a MIDI clip, and its three numbers.
pub type ClipView = (bool, (nat, nat, nat));

pub open spec fn clip_view(c: Clip) -> ClipView {
    match c {
        Clip::Midi(r) => (true, r@),
        Clip::Audio(s) => (false, s@),
    }
}

/// Where a clip starts.
pub open spec fn clip_start(v: ClipView) -> nat {
    v.1.0
}

/// Where a clip ends, at the transport's tempo.
pub open spec fn clip_end(v: ClipView, transport: Transport) -> nat {
    if v.0 {
        v.1.1
    } else {
        span_end(v.1.0, v.1.1, transport)
    }
}

/// Whether a clip's end can be computed, and turned into seconds, without overflow.
pub open spec fn clip_fits(v: ClipView, transport: Transport) -> bool {
    v.0 || (span_end_fits(v.1.0, v.1.1, transport) && span_end(v.1.0, v.1.1, transport) * 60
        <= u64::MAX)
}

/// A change of a time by some ticks, later or earlier; earlier stops at zero.
#[derive(Clone, Copy, Debug, PartialEq, Eq, Structural)]
pub enum Delta {
    Later(BeatTime),
    Earlier(BeatTime),
}

pub open spec fn shifted(x: nat, d: Delta) -> nat {
    match d {
        Delta::Later(t) => x + t@,
        Delta::Earlier(t) => if x >= t@ { (x - t@) as nat } else { 0 },
    }
}

fn shift(x: BeatTime, d: Delta) -> (r: BeatTime)
    requires
        shifted(x@, d) <= u64::MAX,
    ensures
        r@ == shifted(x@, d),
{
    match d {
        Delta::Later(t) => x + t,
        Delta::Earlier(t) => x.saturating_sub(t),
    }
}

/// A clip whose end was moved to `new_end` where that differs from its end: a MIDI clip keeps
/// its start and at least one tick; an audio clip keeps its start and gets the length in
/// seconds that reaches `new_end`, at least one tick.
pub open spec fn trim_end_view(v: ClipView, new_end: nat, transport: Transport) -> ClipView {
    let s = v.1.0;
    if new_end == clip_end(v, transport) {
        v
    } else if v.0 {
        (true, (s, range_new_spec(s, new_end).1, v.1.2))
    } else {
        let gap = if new_end >= s { (new_end - s) as nat } else { 0nat };
        let len = beats_to_seconds(gap, transport.bpm_spec());
        (false, (s, if len > 1 { len } else { 1nat }, v.1.2))
    }
}

/// Whether moving a clip's end by `d` stays within range.
pub open spec fn trim_end_fits(v: ClipView, d: Delta, transport: Transport) -> bool {
    &&& clip_fits(v, transport)
    &&& shifted(clip_end(v, transport), d) * 60 <= u64::MAX
}

/// A MIDI clip whose start was moved towards `new_start`, where that differs from its start,
/// as `OffsetBeatRange::trim_start_to` moves it. Audio clips are left to the caller.
pub open spec fn trim_start_view(v: ClipView, new_start: nat) -> ClipView {
    if new_start == v.1.0 || !v.0 {
        v
    } else {
        (true, offset_trim_start_spec(v.1, new_start))
    }
}

/// Whether moving a clip's start by `d` stays within range.
pub open spec fn trim_start_fits(v: ClipView, d: Delta) -> bool {
    &&& shifted(v.1.0, d) <= u64::MAX
    &&& (v.0 ==> offset_trim_fits(v.1, shifted(v.1.0, d)))
}

/// The audio clips among the first `j` that are selected and whose start moves, with where
/// their start moves to, in order: their start is trimmed by the caller, which knows how they
/// are stretched.
pub open spec fn start_requests(clips: Seq<ClipView>, selected: Set<usize>, d: Delta, j: nat) -> Seq<(usize, nat)>
    decreases j,
{
    if j == 0 {
        Seq::empty()
    } else {
        let r = start_requests(clips, selected, d, (j - 1) as nat);
        let v = clips[j - 1];
        let t = shifted(v.1.0, d);
        if selected.contains((j - 1) as usize) && !v.0 && t != v.1.0 {
            r.push(((j - 1) as usize, t))
        } else {
            r
        }
    }
}

/// The selected clips among the first `j`, in order.
pub open spec fn selected_clips(clips: Seq<ClipView>, selected: Set<usize>, j: nat) -> Seq<ClipView>
    decreases j,
{
    if j == 0 {
        Seq::empty()
    } else {
        let r = selected_clips(clips, selected, (j - 1) as nat);
        if selected.contains((j - 1) as usize) {
            r.push(clips[j - 1])
        } else {
            r
        }
    }
}

/// Where splitting the selected clips of a track has got to: the clips, the clips selected on
/// the left of the split, those on its right, how many clips were added, and the audio clips
/// whose start the caller is to move, with where to.
pub type ClipSplit = (Seq<ClipView>, Set<usize>, Set<usize>, nat, Seq<(usize, nat)>);

/// Splitting at `pos` the clip that was at index `i` before any split: where the clip ends at
/// `pos` it stays selected on the left, where it starts there it is selected on the right, and
/// where `pos` lies inside it, it becomes two clips that meet at `pos`: the first selected on
/// the left and ending at `pos`, the second on the right and starting there (for an audio clip
/// that start is moved by the caller). Clips that `pos` does not touch drop out.
pub open spec fn clip_split_step(s: ClipSplit, i: nat, pos: nat, transport: Transport) -> ClipSplit {
    let clips = s.0;
    let lhs = i + s.3;
    let v = clips[lhs as int];
    let start = clip_start(v);
    let end = clip_end(v, transport);
    if !(start <= pos <= end) {
        s
    } else if end == pos {
        (clips, s.1.insert(lhs as usize), s.2, s.3, s.4)
    } else if start == pos {
        (clips, s.1, s.2.insert(lhs as usize), s.3, s.4)
    } else if end - start > 1 {
        let left = trim_end_view(v, pos, transport);
        let right = if v.0 { (true, offset_trim_start_spec(v.1, pos)) } else { v };
        (
            clips.update(lhs as int, left).insert(lhs + 1 as int, right),
            s.1.insert(lhs as usize),
            s.2.insert((lhs + 1) as usize),
            s.3 + 1,
            if v.0 { s.4 } else { s.4.push(((lhs + 1) as usize, pos)) },
        )
    } else {
        s
    }
}

/// Splitting the selected clips among the first `k`, in order of their index.
pub open spec fn clip_split_upto(s: ClipSplit, selected: Set<usize>, pos: nat, transport: Transport, k: nat) -> ClipSplit
    decreases k,
{
    if k == 0 {
        s
    } else {
        let before = clip_split_upto(s, selected, pos, transport, (k - 1) as nat);
        if selected.contains((k - 1) as usize) {
            clip_split_step(before, (k - 1) as nat, pos, transport)
        } else {
            before
        }
    }
}

/// The larger of two amounts.
pub open spec fn max_nat(a: nat, b: nat) -> nat {
    if a > b { a } else { b }
}

/// The smaller of two amounts.
pub open spec fn min_nat(a: nat, b: nat) -> nat {
    if a < b { a } else { b }
}

/// The lowest point a split on a track may move to, from its first `j` clips: `pos`, or one
/// tick after the start of a clip selected on the left, if later.
pub open spec fn clip_split_floor(clips: Seq<ClipView>, left: Set<usize>, pos: nat, j: nat) -> nat
    decreases j,
{
    if j == 0 {
        pos
    } else {
        let r = clip_split_floor(clips, left, pos, (j - 1) as nat);
        if left.contains((j - 1) as usize) {
            max_nat(r, clip_start(clips[j - 1]) + 1)
        } else {
            r
        }
    }
}

/// The highest point a split on a track may move to, from its first `j` clips: one tick
/// before the end of the earliest-ending clip selected on the right, if any.
pub open spec fn clip_split_ceiling(clips: Seq<ClipView>, right: Set<usize>, transport: Transport, j: nat) -> Option<nat>
    decreases j,
{
    if j == 0 {
        None
    } else {
        let r = clip_split_ceiling(clips, right, transport, (j - 1) as nat);
        if right.contains((j - 1) as usize) {
            let c = (clip_end(clips[j - 1], transport) - 1) as nat;
            match r {
                Some(h) => Some(min_nat(h, c)),
                None => Some(c),
            }
        } else {
            r
        }
    }
}

/// Where the clips of a track meet after dragging their split towards `pos`.
pub open spec fn clip_split_point(clips: Seq<ClipView>, left: Set<usize>, right: Set<usize>, pos: nat, transport: Transport) -> nat {
    let lo = clip_split_floor(clips, left, pos, clips.len());
    match clip_split_ceiling(clips, right, transport, clips.len()) {
        Some(h) => min_nat(lo, h),
        None => lo,
    }
}

/// The clips after dragging a split: the clips on the left end at the split point and the MIDI
/// clips on the right start there (a clip on both sides has its end moved first).
pub open spec fn drag_split_view(clips: Seq<ClipView>, left: Set<usize>, right: Set<usize>, pos: nat, transport: Transport) -> Seq<ClipView> {
    let t = clip_split_point(clips, left, right, pos, transport);
    Seq::new(
        clips.len(),
        |i: int| {
            let v1 = if left.contains(i as usize) { trim_end_view(clips[i], t, transport) } else { clips[i] };
            if right.contains(i as usize) { trim_start_view(v1, t) } else { v1 }
        },
    )
}

/// The audio clips on the right whose start is to move to the split point, in order.
pub open spec fn drag_split_requests(clips: Seq<ClipView>, left: Set<usize>, right: Set<usize>, pos: nat, transport: Transport, j: nat) -> Seq<usize>
    decreases j,
{
    if j == 0 {
        Seq::empty()
    } else {
        let r = drag_split_requests(clips, left, right, pos, transport, (j - 1) as nat);
        let t = clip_split_point(clips, left, right, pos, transport);
        let i = (j - 1) as int;
        let v1 = if left.contains(i as usize) { trim_end_view(clips[i], t, transport) } else { clips[i] };
        if right.contains(i as usize) && !v1.0 && t != v1.1.0 {
            r.push(i as usize)
        } else {
            r
        }
    }
}

/// Whether dragging a split stays within range: every clip's end can be computed, and the
/// MIDI clips can have their start moved up to one tick before their end.
pub open spec fn drag_split_fits(v: ClipView, transport: Transport) -> bool {
    &&& clip_fits(v, transport)
    &&& clip_end(v, transport) * 60 <= u64::MAX
    &&& (clip_start(v) + 1) * 60 <= u64::MAX
    &&& clip_end(v, transport) >= 1
    &&& (v.0 ==> v.1.2 + v.1.1 <= u64::MAX)
}

/// Whether splitting a clip at `pos` stays within range.
pub open spec fn split_fits(v: ClipView, pos: nat, transport: Transport) -> bool {
    &&& clip_fits(v, transport)
    &&& (v.0 ==> offset_trim_fits(v.1, pos))
}

/// The clips of one track of the playlist, in order.
#[derive(Clone, Debug)]
pub struct TrackClips {
    clips: Vec<Clip>,
}

impl View for TrackClips {
    type V = Seq<ClipView>;

    closed spec fn view(&self) -> Seq<ClipView> {
        self.clips@.map_values(|c: Clip| clip_view(c))
    }
}

fn clip_end_of(c: Clip, transport: &Transport) -> (r: BeatTime)
    requires
        clip_fits(clip_view(c), *transport),
    ensures
        r@ == clip_end(clip_view(c), *transport),
        clip_start(clip_view(c)) <= r@,
{
    match c {
        Clip::Midi(r) => r.end(),
        Clip::Audio(s) => s.end(transport),
    }
}

fn clip_start_of(c: Clip) -> (r: BeatTime)
    ensures
        r@ == clip_start(clip_view(c)),
{
    match c {
        Clip::Midi(r) => r.start(),
        Clip::Audio(s) => s.start(),
    }
}

fn trimmed_end(c: Clip, new_end: BeatTime, transport: &Transport) -> (r: Clip)
    requires
        clip_fits(clip_view(c), *transport),
        new_end@ * 60 <= u64::MAX,
    ensures
        clip_view(r) == trim_end_view(clip_view(c), new_end@, *transport),
{
    let end = clip_end_of(c, transport);
    if end.to_bits() == new_end.to_bits() {
        return c;
    }
    match c {
        Clip::Midi(r) => {
            let mut r = r;
            r.trim_end_to(new_end);
            Clip::Midi(r)
        },
        Clip::Audio(s) => {
            let mut s = s;
            s.trim_end_to(new_end, transport);
            Clip::Audio(s)
        },
    }
}

impl TrackClips {
    /// A track with the clips `clips`.
    pub fn new(clips: Vec<Clip>) -> (r: Self)
        ensures
            r@ == clips@.map_values(|c: Clip| clip_view(c)),
    {
        TrackClips { clips }
    }

    /// The number of clips.
    pub fn clip_count(&self) -> (r: usize)
        ensures
            r == self@.len(),
    {
        self.clips.len()
    }

    /// The clip at `index`.
    pub fn clip(&self, index: usize) -> (r: Clip)
        requires
            index < self@.len(),
        ensures
            clip_view(r) == self@[index as int],
    {
        self.clips[index]
    }

    /// Puts `clip` at `index`, as after moving an audio clip's start, which depends on how it
    /// is stretched.
    pub fn set_clip(&mut self, index: usize, clip: Clip)
        requires
            index < old(self)@.len(),
        ensures
            final(self)@ == old(self)@.update(index as int, clip_view(clip)),
    {
        self.clips.set(index, clip);
        proof {
            assert(self@ =~= old(self)@.update(index as int, clip_view(clip)));
        }
    }

    /// Moves the end of every selected clip by `d`.
    pub fn trim_end(&mut self, selected: &HashSet<usize>, d: Delta, transport: &Transport)
        requires
            forall|i: int| 0 <= i < old(self)@.len() && selected@.contains(i as usize)
                ==> trim_end_fits(#[trigger] old(self)@[i], d, *transport),
        ensures
            final(self)@ == Seq::new(
                old(self)@.len(),
                |i: int| if selected@.contains(i as usize) {
                    trim_end_view(old(self)@[i], shifted(clip_end(old(self)@[i], *transport), d), *transport)
                } else {
                    old(self)@[i]
                },
            ),
    {
        broadcast use vstd::std_specs::hash::group_hash_axioms;

        let ghost orig = self@;
        let n = self.clips.len();
        let mut k: usize = 0;
        while k < n
            invariant
                n == orig.len(),
                orig == old(self)@,
                self@.len() == n,
                0 <= k <= n,
                forall|i: int| 0 <= i < orig.len() && selected@.contains(i as usize)
                    ==> trim_end_fits(#[trigger] orig[i], d, *transport),
                forall|i: int| 0 <= i < k ==> #[trigger] self@[i] == if selected@.contains(i as usize) {
                    trim_end_view(orig[i], shifted(clip_end(orig[i], *transport), d), *transport)
                } else {
                    orig[i]
                },
                forall|i: int| k <= i < n ==> #[trigger] self@[i] == orig[i],
            decreases n - k,
        {
            let ghost before = self@;
            if selected.contains(&k) {
                let c = self.clips[k];
                proof {
                    assert(self@[k as int] == clip_view(c));
                    assert(clip_view(c) == orig[k as int]);
                    assert(trim_end_fits(orig[k as int], d, *transport));
                }
                let end = clip_end_of(c, transport);
                let new_end = shift(end, d);
                let t = trimmed_end(c, new_end, transport);
                self.clips.set(k, t);
                proof {
                    assert(self@ =~= before.update(k as int, clip_view(t)));
                }
            }
            k = k + 1;
        }
        proof {
            assert(self@ =~= Seq::new(
                orig.len(),
                |i: int| if selected@.contains(i as usize) {
                    trim_end_view(orig[i], shifted(clip_end(orig[i], *transport), d), *transport)
                } else {
                    orig[i]
                },
            ));
        }
    }

    /// Moves the start of every selected MIDI clip by `d`, its offset moving with it. The
    /// audio clips whose start is to move are given back with where to, in order of their
    /// index: moving them depends on how they are stretched.
    pub fn trim_start(&mut self, selected: &HashSet<usize>, d: Delta) -> (r: Vec<(usize, BeatTime)>)
        requires
            forall|i: int| 0 <= i < old(self)@.len() && selected@.contains(i as usize)
                ==> trim_start_fits(#[trigger] old(self)@[i], d),
        ensures
            final(self)@ == Seq::new(
                old(self)@.len(),
                |i: int| if selected@.contains(i as usize) {
                    trim_start_view(old(self)@[i], shifted(old(self)@[i].1.0, d))
                } else {
                    old(self)@[i]
                },
            ),
            r@.map_values(|q: (usize, BeatTime)| (q.0, q.1@)) == start_requests(
                old(self)@,
                selected@,
                d,
                old(self)@.len(),
            ),
    {
        broadcast use vstd::std_specs::hash::group_hash_axioms;

        let ghost orig = self@;
        let n = self.clips.len();
        let mut requests: Vec<(usize, BeatTime)> = Vec::new();
        let mut k: usize = 0;
        while k < n
            invariant
                n == orig.len(),
                orig == old(self)@,
                self@.len() == n,
                0 <= k <= n,
                forall|i: int| 0 <= i < orig.len() && selected@.contains(i as usize)
                    ==> trim_start_fits(#[trigger] orig[i], d),
                forall|i: int| 0 <= i < k ==> #[trigger] self@[i] == if selected@.contains(i as usize) {
                    trim_start_view(orig[i], shifted(orig[i].1.0, d))
                } else {
                    orig[i]
                },
                forall|i: int| k <= i < n ==> #[trigger] self@[i] == orig[i],
                requests@.map_values(|q: (usize, BeatTime)| (q.0, q.1@)) == start_requests(
                    orig,
                    selected@,
                    d,
                    k as nat,
                ),
            decreases n - k,
        {
            let ghost before = self@;
            let ghost reqs = requests@;
            if selected.contains(&k) {
                let c = self.clips[k];
                proof {
                    assert(self@[k as int] == clip_view(c));
                    assert(clip_view(c) == orig[k as int]);
                    assert(trim_start_fits(orig[k as int], d));
                }
                let start = clip_start_of(c);
                let target = shift(start, d);
                if target.to_bits() != start.to_bits() {
                    match c {
                        Clip::Midi(r) => {
                            let mut r = r;
                            r.trim_start_to(target);
                            self.clips.set(k, Clip::Midi(r));
                        },
                        Clip::Audio(_) => {
                            requests.push((k, target));
                            proof {
                                assert(requests@.map_values(|q: (usize, BeatTime)| (q.0, q.1@))
                                    =~= reqs.map_values(|q: (usize, BeatTime)| (q.0, q.1@)).push(
                                    (k, target@),
                                ));
                            }
                        },
                    }
                }
                proof {
                    assert(self@ =~= before.update(k as int, trim_start_view(orig[k as int], target@)));
                }
            }
            k = k + 1;
        }
        proof {
            assert(self@ =~= Seq::new(
                orig.len(),
                |i: int| if selected@.contains(i as usize) {
                    trim_start_view(orig[i], shifted(orig[i].1.0, d))
                } else {
                    orig[i]
                },
            ));
        }
        requests
    }

    /// Appends a copy of every selected clip, in order of their index, and selects the copies
    /// in their place.
    pub fn clone_selected(&mut self, primary: &mut HashSet<usize>)
        requires
            old(self)@.len() * 2 <= usize::MAX,
        ensures
            final(self)@ == old(self)@ + selected_clips(old(self)@, old(primary)@, old(self)@.len()),
            final(primary)@ == Set::new(
                |i: usize| old(self)@.len() <= i < old(self)@.len() + selected_clips(
                    old(self)@,
                    old(primary)@,
                    old(self)@.len(),
                ).len(),
            ),
    {
        broadcast use vstd::std_specs::hash::group_hash_axioms;

        let ghost orig = self@;
        let mut selected: HashSet<usize> = HashSet::new();
        std::mem::swap(&mut selected, primary);
        let n = self.clips.len();
        let mut k: usize = 0;
        while k < n
            invariant
                n == orig.len(),
                orig == old(self)@,
                n * 2 <= usize::MAX,
                0 <= k <= n,
                selected@ == old(primary)@,
                self@ == orig + selected_clips(orig, selected@, k as nat),
                selected_clips(orig, selected@, k as nat).len() <= k,
                primary@ == Set::new(|i: usize| n <= i < n + selected_clips(orig, selected@, k as nat).len()),
            decreases n - k,
        {
            if selected.contains(&k) {
                assert(self@.len() == self.clips@.len());
                let c = self.clips[k];
                proof {
                    assert(self@[k as int] == orig[k as int]);
                    assert(clip_view(c) == orig[k as int]);
                }
                let ghost before = self@;
                let index = self.clips.len();
                self.clips.push(c);
                primary.insert(index);
                proof {
                    assert(self@ =~= before.push(clip_view(c)));
                    assert(self@ =~= orig + selected_clips(orig, selected@, (k + 1) as nat));
                    assert(primary@ =~= Set::new(
                        |i: usize| n <= i < n + selected_clips(orig, selected@, (k + 1) as nat).len(),
                    ));
                }
            } else {
                proof {
                    assert(selected_clips(orig, selected@, (k + 1) as nat) == selected_clips(orig, selected@, k as nat));
                }
            }
            k = k + 1;
        }
    }

    /// Splits the selected clips at `pos`, going through them in order of their index. The
    /// selection becomes the clips on the left of the split; those on its right are added to
    /// `secondary`. The audio clips on the right whose start is to move to `pos` are given back,
    /// in order: moving them depends on how they are stretched.
    pub fn split_at(
        &mut self,
        pos: BeatTime,
        primary: &mut HashSet<usize>,
        secondary: &mut HashSet<usize>,
        transport: &Transport,
    ) -> (r: Vec<usize>)
        requires
            old(self)@.len() * 2 <= usize::MAX,
            pos@ * 60 <= u64::MAX,
            forall|i: int| 0 <= i < old(self)@.len() ==> split_fits(#[trigger] old(self)@[i], pos@, *transport),
        ensures
            ({
                let s = clip_split_upto(
                    (old(self)@, Set::<usize>::empty(), old(secondary)@, 0nat, Seq::empty()),
                    old(primary)@,
                    pos@,
                    *transport,
                    old(self)@.len(),
                );
                &&& final(self)@ == s.0
                &&& final(primary)@ == s.1
                &&& final(secondary)@ == s.2
                &&& r@.map_values(|i: usize| (i, pos@)) == s.4
            }),
    {
        broadcast use vstd::std_specs::hash::group_hash_axioms;

        let mut selected: HashSet<usize> = HashSet::new();
        std::mem::swap(&mut selected, primary);
        let ghost init: ClipSplit = (self@, Set::<usize>::empty(), old(secondary)@, 0nat, Seq::empty());
        let n = self.clips.len();
        let mut requests: Vec<usize> = Vec::new();
        let mut extra: usize = 0;
        let mut k: usize = 0;
        while k < n
            invariant
                n == old(self)@.len(),
                n * 2 <= usize::MAX,
                pos@ * 60 <= u64::MAX,
                0 <= k <= n,
                extra <= k,
                self@.len() == n + extra,
                selected@ == old(primary)@,
                init == (old(self)@, Set::<usize>::empty(), old(secondary)@, 0nat, Seq::<(usize, nat)>::empty()),
                forall|i: int| 0 <= i < n ==> split_fits(#[trigger] old(self)@[i], pos@, *transport),
                forall|i: int| k <= i < n ==> #[trigger] self@[i + extra] == old(self)@[i],
                clip_split_upto(init, old(primary)@, pos@, *transport, k as nat) == (
                    self@,
                    primary@,
                    secondary@,
                    extra as nat,
                    requests@.map_values(|i: usize| (i, pos@)),
                ),
            decreases n - k,
        {
            let ghost before = (self@, primary@, secondary@, extra as nat, requests@.map_values(|i: usize| (i, pos@)));
            let ghost old_extra = extra;
            assert(forall|i: int| k <= i < n ==> #[trigger] before.0[i + old_extra] == old(self)@[i]);
            if selected.contains(&k) {
                let lhs = k + extra;
                let c = self.clips[lhs];
                proof {
                    assert(self@[lhs as int] == clip_view(c));
                    assert(self@[k + extra] == old(self)@[k as int]);
                    assert(split_fits(old(self)@[k as int], pos@, *transport));
                }
                let start = clip_start_of(c);
                let end = clip_end_of(c, transport);
                if start.to_bits() <= pos.to_bits() && pos.to_bits() <= end.to_bits() {
                    if end.to_bits() == pos.to_bits() {
                        primary.insert(lhs);
                    } else if start.to_bits() == pos.to_bits() {
                        secondary.insert(lhs);
                    } else if end.to_bits() - start.to_bits() > 1 {
                        let left = trimmed_end(c, pos, transport);
                        let right = match c {
                            Clip::Midi(r) => {
                                let mut r = r;
                                r.trim_start_to(pos);
                                Clip::Midi(r)
                            },
                            Clip::Audio(s) => {
                                requests.push(lhs + 1);
                                Clip::Audio(s)
                            },
                        };
                        self.clips.set(lhs, left);
                        self.clips.insert(lhs + 1, right);
                        primary.insert(lhs);
                        secondary.insert(lhs + 1);
                        extra = extra + 1;
                        proof {
                            assert(self@ =~= before.0.update(lhs as int, clip_view(left)).insert(
                                lhs + 1 as int,
                                clip_view(right),
                            ));
                            assert(requests@.map_values(|i: usize| (i, pos@)) =~= if clip_view(c).0 {
                                before.4
                            } else {
                                before.4.push(((lhs + 1) as usize, pos@))
                            });
                            assert forall|i: int| k + 1 <= i < n implies #[trigger] self@[i + extra] == old(self)@[i] by {
                                assert(self@[i + extra] == before.0[i + old_extra]);
                                assert(before.0[i + old_extra] == old(self)@[i]);
                            }
                        }
                    }
                }
            }
            k = k + 1;
        }
        requests
    }

    fn split_point_of(&self, pos: BeatTime, left: &HashSet<usize>, right: &HashSet<usize>, transport: &Transport) -> (r: BeatTime)
        requires
            forall|i: int| 0 <= i < self@.len() ==> drag_split_fits(#[trigger] self@[i], *transport),
            pos@ * 60 <= u64::MAX,
        ensures
            r@ == clip_split_point(self@, left@, right@, pos@, *transport),
            r@ * 60 <= u64::MAX,
    {
        broadcast use vstd::std_specs::hash::group_hash_axioms;

        let n = self.clips.len();
        let mut lo = pos;
        let mut hi: Option<BeatTime> = None;
        let mut j: usize = 0;
        while j < n
            invariant
                n == self@.len(),
                0 <= j <= n,
                forall|i: int| 0 <= i < self@.len() ==> drag_split_fits(#[trigger] self@[i], *transport),
                lo@ == clip_split_floor(self@, left@, pos@, j as nat),
                lo@ * 60 <= u64::MAX,
                match clip_split_ceiling(self@, right@, *transport, j as nat) {
                    Some(h) => hi matches Some(b) && b@ == h,
                    None => hi is None,
                },
            decreases n - j,
        {
            let c = self.clips[j];
            proof {
                assert(self@[j as int] == clip_view(c));
                assert(drag_split_fits(clip_view(c), *transport));
            }
            let start = clip_start_of(c);
            let end = clip_end_of(c, transport);
            if left.contains(&j) {
                let s = start + BeatTime::one_tick();
                if s.to_bits() > lo.to_bits() {
                    lo = s;
                }
            }
            if right.contains(&j) {
                let e = end - BeatTime::one_tick();
                hi = match hi {
                    Some(h) => if e.to_bits() < h.to_bits() { Some(e) } else { Some(h) },
                    None => Some(e),
                };
            }
            j = j + 1;
        }
        match hi {
            Some(h) => if h.to_bits() < lo.to_bits() { h } else { lo },
            None => lo,
        }
    }

    /// Drags the split between the clips selected on the left and those selected on the right
    /// towards `pos`: they meet at `pos` moved as little as keeps each of them at least one
    /// tick long. The audio clips on the right whose start is to move there are given back,
    /// in order, with the point they meet at: moving them depends on how they are stretched.
    pub fn drag_split(&mut self, pos: BeatTime, left: &HashSet<usize>, right: &HashSet<usize>, transport: &Transport) -> (r: (Vec<usize>, BeatTime))
        requires
            forall|i: int| 0 <= i < old(self)@.len() ==> drag_split_fits(#[trigger] old(self)@[i], *transport),
            forall|i: int| 0 <= i < old(self)@.len() && (#[trigger] old(self)@[i]).0 ==> old(self)@[i].1.2
                + max_nat(old(self)@[i].1.1, clip_split_point(old(self)@, left@, right@, pos@, *transport)) <= u64::MAX,
            pos@ * 60 <= u64::MAX,
        ensures
            final(self)@ == drag_split_view(old(self)@, left@, right@, pos@, *transport),
            r.1@ == clip_split_point(old(self)@, left@, right@, pos@, *transport),
            r.0@ == drag_split_requests(old(self)@, left@, right@, pos@, *transport, old(self)@.len()),
    {
        broadcast use vstd::std_specs::hash::group_hash_axioms;

        let ghost orig = self@;
        let t = self.split_point_of(pos, left, right, transport);
        let n = self.clips.len();
        let mut requests: Vec<usize> = Vec::new();
        let mut k: usize = 0;
        while k < n
            invariant
                n == orig.len(),
                orig == old(self)@,
                self@.len() == n,
                0 <= k <= n,
                t@ == clip_split_point(orig, left@, right@, pos@, *transport),
                t@ * 60 <= u64::MAX,
                forall|i: int| 0 <= i < orig.len() ==> drag_split_fits(#[trigger] orig[i], *transport),
                forall|i: int| 0 <= i < orig.len() && (#[trigger] orig[i]).0 ==> orig[i].1.2
                    + max_nat(orig[i].1.1, t@) <= u64::MAX,
                forall|i: int| 0 <= i < k ==> #[trigger] self@[i] == drag_split_view(orig, left@, right@, pos@, *transport)[i],
                forall|i: int| k <= i < n ==> #[trigger] self@[i] == orig[i],
                requests@ == drag_split_requests(orig, left@, right@, pos@, *transport, k as nat),
            decreases n - k,
        {
            let ghost before = self@;
            let c = self.clips[k];
            proof {
                assert(self@[k as int] == clip_view(c));
                assert(drag_split_fits(orig[k as int], *transport));
                if orig[k as int].0 {
                    assert(orig[k as int].1.2 + max_nat(orig[k as int].1.1, t@) <= u64::MAX);
                }
            }
            let c1 = if left.contains(&k) { trimmed_end(c, t, transport) } else { c };
            let c2 = if right.contains(&k) {
                let start = clip_start_of(c1);
                if t.to_bits() != start.to_bits() {
                    match c1 {
                        Clip::Midi(r) => {
                            let mut r = r;
                            proof {
                                assert(offset_trim_fits(r@, t@));
                            }
                            r.trim_start_to(t);
                            Clip::Midi(r)
                        },
                        Clip::Audio(a) => {
                            requests.push(k);
                            Clip::Audio(a)
                        },
                    }
                } else {
                    c1
                }
            } else {
                c1
            };
            self.clips.set(k, c2);
            proof {
                assert(self@ =~= before.update(k as int, clip_view(c2)));
                assert(clip_view(c2) == drag_split_view(orig, left@, right@, pos@, *transport)[k as int]);
            }
            k = k + 1;
        }
        proof {
            assert(self@ =~= drag_split_view(orig, left@, right@, pos@, *transport));
        }
        (requests, t)
    }

    /// Removes the selected clips, keeping the others in order, and clears the selection.
    pub fn delete_selected(&mut self, primary: &mut HashSet<usize>)
        ensures
            final(self)@ == without(old(self)@, old(primary)@, old(self)@.len()),
            final(primary)@ == Set::<usize>::empty(),
    {
        broadcast use vstd::std_specs::hash::group_hash_axioms;

        proof {
            lemma_without_map(self.clips@, |c: Clip| clip_view(c), primary@, self.clips@.len());
        }
        remove_selected(&mut self.clips, primary);
        primary.clear();
    }
}

/// The clips of every track, in track order.
pub open spec fn tracks_view(tracks: Seq<TrackClips>) -> Seq<Seq<ClipView>> {
    tracks.map_values(|tc: TrackClips| tc@)
}

/// The track that a clip dragged by `diff` tracks from track `t` lands on, among `n` tracks:
/// it stops at the first and at the last.
pub open spec fn target_track(t: nat, diff: int, n: nat) -> nat {
    let x = t + diff;
    if x <= 0 {
        0
    } else if x >= n - 1 {
        (n - 1) as nat
    } else {
        x as nat
    }
}

/// A clip moved to start `d` later or earlier, keeping its length and offset.
pub open spec fn moved_view(v: ClipView, d: Delta) -> ClipView {
    let s = shifted(v.1.0, d);
    if v.0 {
        (true, (s, (s + (v.1.1 - v.1.0)) as nat, v.1.2))
    } else {
        (false, (s, v.1.1, v.1.2))
    }
}

/// Whether a clip can be moved by `d` without its start or end overflowing.
pub open spec fn move_fits(v: ClipView, d: Delta) -> bool {
    &&& shifted(v.1.0, d) <= u64::MAX
    &&& v.0 ==> shifted(v.1.0, d) + (v.1.1 - v.1.0) <= u64::MAX
}

/// Where dragging clips has got to: the clips of every track, and where each dragged clip
/// now is, as track and index, in the order the clips were dragged.
pub type DragState = (Seq<Seq<ClipView>>, Seq<(usize, usize)>);

/// Dragging the clip at index `c` of track `t`: it is moved in time by `d`; where its target
/// track is another, it leaves its track and is appended to the target.
pub open spec fn drag_step(s: DragState, t: nat, c: nat, diff: int, d: Delta) -> DragState {
    let tracks = s.0;
    let v = moved_view(tracks[t as int][c as int], d);
    let nt = target_track(t, diff, tracks.len());
    if nt == t {
        (tracks.update(t as int, tracks[t as int].update(c as int, v)), s.1.push((t as usize, c as usize)))
    } else {
        (
            tracks.update(t as int, tracks[t as int].remove(c as int)).update(nt as int, tracks[nt as int].push(v)),
            s.1.push((nt as usize, tracks[nt as int].len() as usize)),
        )
    }
}

/// Dragging the selected clips of track `t` whose index is below `k`, the highest index first.
pub open spec fn drag_track_from(s: DragState, selected: Set<usize>, t: nat, k: nat, diff: int, d: Delta) -> DragState
    decreases k,
{
    if k == 0 {
        s
    } else {
        let c = (k - 1) as nat;
        let s1 = if selected.contains(c as usize) { drag_step(s, t, c, diff, d) } else { s };
        drag_track_from(s1, selected, t, c, diff, d)
    }
}

/// Dragging the selected clips of the tracks from `t` up to `n`, the first track first.
pub open spec fn drag_tracks_up(s: DragState, selected: Seq<Set<usize>>, t: nat, n: nat, diff: int, d: Delta) -> DragState
    decreases n - t,
{
    if t >= n {
        s
    } else {
        let s1 = drag_track_from(s, selected[t as int], t, s.0[t as int].len(), diff, d);
        drag_tracks_up(s1, selected, t + 1, n, diff, d)
    }
}

/// Dragging the selected clips of the tracks below `t`, the last track first.
pub open spec fn drag_tracks_down(s: DragState, selected: Seq<Set<usize>>, t: nat, diff: int, d: Delta) -> DragState
    decreases t,
{
    if t == 0 {
        s
    } else {
        let u = (t - 1) as nat;
        let s1 = drag_track_from(s, selected[u as int], u, s.0[u as int].len(), diff, d);
        drag_tracks_down(s1, selected, u, diff, d)
    }
}

/// Dragging the selected clips by `diff` tracks and `d` in time: clips are taken track by
/// track, the highest index first within a track, and the tracks in the direction opposite to
/// the drag (the last track first when dragging to later tracks), so that no clip lands on a
/// track whose clips are still to be dragged.
pub open spec fn drag_spec(tracks: Seq<Seq<ClipView>>, selected: Seq<Set<usize>>, diff: int, d: Delta) -> DragState {
    let s: DragState = (tracks, Seq::empty());
    if diff > 0 {
        drag_tracks_down(s, selected, tracks.len(), diff, d)
    } else {
        drag_tracks_up(s, selected, 0, tracks.len(), diff, d)
    }
}

fn moved(c: Clip, d: Delta) -> (r: Clip)
    requires
        move_fits(clip_view(c), d),
    ensures
        clip_view(r) == moved_view(clip_view(c), d),
{
    let start = clip_start_of(c);
    let s = shift(start, d);
    match c {
        Clip::Midi(r) => {
            let mut r = r;
            r.move_to(s);
            Clip::Midi(r)
        },
        Clip::Audio(a) => {
            let mut a = a;
            a.move_to(s);
            Clip::Audio(a)
        },
    }
}

fn target_track_of(t: usize, diff: i8, n: usize) -> (r: usize)
    requires
        t < n,
    ensures
        r == target_track(t as nat, diff as int, n as nat),
        r < n,
{
    if diff < 0 {
        let back: usize = if diff == -128i8 { 128 } else { (-diff) as usize };
        if t <= back { 0 } else { t - back }
    } else {
        let ahead: usize = diff as usize;
        if n - 1 - t <= ahead { n - 1 } else { t + ahead }
    }
}

fn drag_track(
    tracks: &mut Vec<TrackClips>,
    selected: &HashSet<usize>,
    t: usize,
    diff: i8,
    d: Delta,
    placed: &mut Vec<(usize, usize)>,
)
    requires
        t < old(tracks)@.len(),
        forall|c: int| 0 <= c < old(tracks)@[t as int]@.len() && selected@.contains(c as usize)
            ==> move_fits(#[trigger] old(tracks)@[t as int]@[c], d),
    ensures
        (tracks_view(final(tracks)@), final(placed)@) == drag_track_from(
            (tracks_view(old(tracks)@), old(placed)@),
            selected@,
            t as nat,
            old(tracks)@[t as int]@.len(),
            diff as int,
            d,
        ),
        final(tracks)@.len() == old(tracks)@.len(),
        forall|u: int| 0 <= u < old(tracks)@.len() && u != t
            && u != target_track(t as nat, diff as int, old(tracks)@.len())
            ==> #[trigger] final(tracks)@[u]@ == old(tracks)@[u]@,
{
    broadcast use vstd::std_specs::hash::group_hash_axioms;

    let ghost orig = tracks@;
    let ghost placed0 = placed@;
    let n = tracks.len();
    let nt = target_track_of(t, diff, n);
    let mut k = tracks[t].clips.len();
    assert(k == orig[t as int]@.len());
    while k > 0
        invariant
            tracks@.len() == n,
            n == orig.len(),
            t < n,
            nt < n,
            nt == target_track(t as nat, diff as int, n as nat),
            k <= tracks@[t as int]@.len(),
            k <= orig[t as int]@.len(),
            forall|c: int| 0 <= c < k ==> #[trigger] tracks@[t as int]@[c] == orig[t as int]@[c],
            forall|c: int| 0 <= c < orig[t as int]@.len() && selected@.contains(c as usize)
                ==> move_fits(#[trigger] orig[t as int]@[c], d),
            drag_track_from((tracks_view(tracks@), placed@), selected@, t as nat, k as nat, diff as int, d)
                == drag_track_from((tracks_view(orig), placed0), selected@, t as nat, orig[t as int]@.len(), diff as int, d),
            forall|u: int| 0 <= u < n && u != t && u != nt ==> #[trigger] tracks@[u]@ == orig[u]@,
        decreases k,
    {
        let c = k - 1;
        let ghost before = tracks@;
        let ghost placed_before = placed@;
        if selected.contains(&c) {
            let v = moved(tracks[t].clips[c], d);
            assert(tracks_view(before)[t as int][c as int] == before[t as int]@[c as int]);
            if nt == t {
                tracks[t].clips.set(c, v);
                placed.push((t, c));
                proof {
                    let s = drag_step((tracks_view(before), placed_before), t as nat, c as nat, diff as int, d);
                    assert(tracks@[t as int]@ =~= before[t as int]@.update(c as int, clip_view(v)));
                    assert(tracks_view(tracks@) =~= s.0);
                    assert(placed@ =~= s.1);
                }
            } else {
                tracks[t].clips.remove(c);
                let len = tracks[nt].clips.len();
                tracks[nt].clips.push(v);
                placed.push((nt, len));
                proof {
                    let s = drag_step((tracks_view(before), placed_before), t as nat, c as nat, diff as int, d);
                    assert(tracks@[t as int]@ =~= before[t as int]@.remove(c as int));
                    assert(tracks@[nt as int]@ =~= before[nt as int]@.push(clip_view(v)));
                    assert(tracks_view(tracks@) =~= s.0);
                    assert(placed@ =~= s.1);
                }
            }
        }
        k = c;
    }
}

/// The selection of every track, as sets of clip indices.
pub open spec fn selections_view(selected: Seq<HashSet<usize>>) -> Seq<Set<usize>> {
    selected.map_values(|h: HashSet<usize>| h@)
}

/// Drags the selected clips of every track (`selected` holds one set of clip indices per
/// track) by `diff` tracks, later tracks where positive, and by `d` in time. A clip whose
/// target track is another leaves its track and is appended to the target. Returns where each
/// dragged clip now is, as track and index, which is the new selection.
pub fn drag(tracks: &mut Vec<TrackClips>, selected: &Vec<HashSet<usize>>, diff: i8, d: Delta) -> (r: Vec<(usize, usize)>)
    requires
        selected@.len() == old(tracks)@.len(),
        forall|t: int, c: int| 0 <= t < old(tracks)@.len() && 0 <= c < old(tracks)@[t]@.len()
            && selected@[t]@.contains(c as usize) ==> move_fits(#[trigger] old(tracks)@[t]@[c], d),
    ensures
        (tracks_view(final(tracks)@), r@) == drag_spec(tracks_view(old(tracks)@), selections_view(selected@), diff as int, d),
{
    let ghost orig = tracks@;
    let ghost sels = selections_view(selected@);
    let n = tracks.len();
    let mut placed: Vec<(usize, usize)> = Vec::new();
    if diff > 0 {
        let mut t = n;
        while t > 0
            invariant
                tracks@.len() == n,
                n == orig.len(),
                selected@.len() == n,
                t <= n,
                diff > 0,
                sels == selections_view(selected@),
                forall|u: int| 0 <= u < t ==> #[trigger] tracks@[u]@ == orig[u]@,
                forall|u: int, c: int| 0 <= u < n && 0 <= c < orig[u]@.len()
                    && selected@[u]@.contains(c as usize) ==> move_fits(#[trigger] orig[u]@[c], d),
                drag_tracks_down((tracks_view(tracks@), placed@), sels, t as nat, diff as int, d)
                    == drag_tracks_down((tracks_view(orig), Seq::empty()), sels, n as nat, diff as int, d),
            decreases t,
        {
            let u = t - 1;
            let ghost before = tracks@;
            let ghost placed_before = placed@;
            assert(tracks_view(before)[u as int] == before[u as int]@);
            drag_track(tracks, &selected[u], u, diff, d, &mut placed);
            proof {
                let nt = target_track(u as nat, diff as int, n as nat);
                assert(nt >= u);
                assert forall|w: int| 0 <= w < u implies #[trigger] tracks@[w]@ == orig[w]@ by {
                    assert(w != u && w != nt);
                    assert(before[w]@ == orig[w]@);
                }
            }
            t = u;
        }
    } else {
        let mut t: usize = 0;
        while t < n
            invariant
                tracks@.len() == n,
                n == orig.len(),
                selected@.len() == n,
                t <= n,
                diff <= 0,
                sels == selections_view(selected@),
                forall|u: int| t <= u < n ==> #[trigger] tracks@[u]@ == orig[u]@,
                forall|u: int, c: int| 0 <= u < n && 0 <= c < orig[u]@.len()
                    && selected@[u]@.contains(c as usize) ==> move_fits(#[trigger] orig[u]@[c], d),
                drag_tracks_up((tracks_view(tracks@), placed@), sels, t as nat, n as nat, diff as int, d)
                    == drag_tracks_up((tracks_view(orig), Seq::empty()), sels, 0, n as nat, diff as int, d),
            decreases n - t,
        {
            let ghost before = tracks@;
            assert(tracks_view(before)[t as int] == before[t as int]@);
            drag_track(tracks, &selected[t], t, diff, d, &mut placed);
            proof {
                let nt = target_track(t as nat, diff as int, n as nat);
                assert(nt <= t);
                assert forall|w: int| t + 1 <= w < n implies #[trigger] tracks@[w]@ == orig[w]@ by {
                    assert(w != t && w != nt);
                    assert(before[w]@ == orig[w]@);
                }
            }
            t = t + 1;
        }
    }
    placed
}

/// Whether the clip at index `c` of track `t` exists and is selected.
pub open spec fn is_selected_clip(tracks: Seq<Seq<ClipView>>, selected: Seq<Set<usize>>, t: int, c: int) -> bool {
    0 <= t < tracks.len() && 0 <= c < tracks[t].len() && selected[t].contains(c as usize)
}

/// Whether some clip is selected.
pub open spec fn has_selected(tracks: Seq<Seq<ClipView>>, selected: Seq<Set<usize>>) -> bool {
    exists|t: int, c: int| is_selected_clip(tracks, selected, t, c)
}

/// Whether `lo` is the earliest start and `hi` the latest end among the selected clips.
pub open spec fn is_selection_span(
    tracks: Seq<Seq<ClipView>>,
    selected: Seq<Set<usize>>,
    transport: Transport,
    lo: nat,
    hi: nat,
) -> bool {
    &&& forall|t: int, c: int| #[trigger] is_selected_clip(tracks, selected, t, c)
        ==> lo <= clip_start(tracks[t][c]) && clip_end(tracks[t][c], transport) <= hi
    &&& exists|t: int, c: int| #[trigger] is_selected_clip(tracks, selected, t, c)
        && clip_start(tracks[t][c]) == lo
    &&& exists|t: int, c: int| #[trigger] is_selected_clip(tracks, selected, t, c)
        && clip_end(tracks[t][c], transport) == hi
}

/// The earliest start and the latest end among the selected clips of every track, or `None`
/// where no clip is selected.
pub fn selection_span(tracks: &Vec<TrackClips>, selected: &Vec<HashSet<usize>>, transport: &Transport) -> (r: Option<(BeatTime, BeatTime)>)
    requires
        selected@.len() == tracks@.len(),
        forall|t: int, c: int| #[trigger] is_selected_clip(tracks_view(tracks@), selections_view(selected@), t, c)
            ==> clip_fits(tracks@[t]@[c], *transport),
    ensures
        r is None <==> !has_selected(tracks_view(tracks@), selections_view(selected@)),
        r matches Some((lo, hi)) ==> is_selection_span(
            tracks_view(tracks@),
            selections_view(selected@),
            *transport,
            lo@,
            hi@,
        ) && lo@ <= hi@,
{
    broadcast use vstd::std_specs::hash::group_hash_axioms;

    let ghost tv = tracks_view(tracks@);
    let ghost sv = selections_view(selected@);
    let mut span: Option<(BeatTime, BeatTime)> = None;
    let n = tracks.len();
    let mut t: usize = 0;
    while t < n
        invariant
            n == tracks@.len(),
            tv == tracks_view(tracks@),
            sv == selections_view(selected@),
            selected@.len() == n,
            t <= n,
            forall|u: int, c: int| #[trigger] is_selected_clip(tv, sv, u, c) ==> clip_fits(tracks@[u]@[c], *transport),
            span is None <==> !(exists|u: int, c: int| u < t && #[trigger] is_selected_clip(tv, sv, u, c)),
            span matches Some((lo, hi)) ==> {
                &&& lo@ <= hi@
                &&& forall|u: int, c: int| u < t && #[trigger] is_selected_clip(tv, sv, u, c)
                    ==> lo@ <= clip_start(tv[u][c]) && clip_end(tv[u][c], *transport) <= hi@
                &&& exists|u: int, c: int| u < t && #[trigger] is_selected_clip(tv, sv, u, c)
                    && clip_start(tv[u][c]) == lo@
                &&& exists|u: int, c: int| u < t && #[trigger] is_selected_clip(tv, sv, u, c)
                    && clip_end(tv[u][c], *transport) == hi@
            },
        decreases n - t,
    {
        let len = tracks[t].clips.len();
        let mut c: usize = 0;
        while c < len
            invariant
                n == tracks@.len(),
                tv == tracks_view(tracks@),
                sv == selections_view(selected@),
                selected@.len() == n,
                t < n,
                len == tv[t as int].len(),
                c <= len,
                forall|u: int, c: int| #[trigger] is_selected_clip(tv, sv, u, c) ==> clip_fits(tracks@[u]@[c], *transport),
                span is None <==> !(exists|u: int, k: int| (u < t || (u == t && k < c)) && #[trigger] is_selected_clip(tv, sv, u, k)),
                span matches Some((lo, hi)) ==> {
                    &&& lo@ <= hi@
                    &&& forall|u: int, k: int| (u < t || (u == t && k < c)) && #[trigger] is_selected_clip(tv, sv, u, k)
                        ==> lo@ <= clip_start(tv[u][k]) && clip_end(tv[u][k], *transport) <= hi@
                    &&& exists|u: int, k: int| (u < t || (u == t && k < c)) && #[trigger] is_selected_clip(tv, sv, u, k)
                        && clip_start(tv[u][k]) == lo@
                    &&& exists|u: int, k: int| (u < t || (u == t && k < c)) && #[trigger] is_selected_clip(tv, sv, u, k)
                        && clip_end(tv[u][k], *transport) == hi@
                },
            decreases len - c,
        {
            if selected[t].contains(&c) {
                assert(is_selected_clip(tv, sv, t as int, c as int));
                let clip = tracks[t].clips[c];
                assert(clip_view(clip) == tv[t as int][c as int]);
                let start = clip_start_of(clip);
                let end = clip_end_of(clip, transport);
                span = match span {
                    None => Some((start, end)),
                    Some((lo, hi)) => Some((
                        if start.to_bits() < lo.to_bits() { start } else { lo },
                        if end.to_bits() > hi.to_bits() { end } else { hi },
                    )),
                };
            }
            c = c + 1;
        }
        t = t + 1;
    }
    span
}

/// The tracks once every track has appended copies of its selected clips.
pub open spec fn cloned_tracks(tracks: Seq<Seq<ClipView>>, selected: Seq<Set<usize>>) -> Seq<Seq<ClipView>> {
    Seq::new(tracks.len(), |t: int| tracks[t] + selected_clips(tracks[t], selected[t], tracks[t].len()))
}

/// The selection once every track has appended copies of its selected clips: the copies.
pub open spec fn cloned_selections(tracks: Seq<Seq<ClipView>>, selected: Seq<Set<usize>>) -> Seq<Set<usize>> {
    Seq::new(
        tracks.len(),
        |t: int| Set::new(
            |i: usize| tracks[t].len() <= i < tracks[t].len() + selected_clips(tracks[t], selected[t], tracks[t].len()).len(),
        ),
    )
}

/// Whether the copies of the selected clips can be moved past the latest end of the
/// selection without their start or end overflowing.
pub open spec fn duplicate_fits(tracks: Seq<Seq<ClipView>>, selected: Seq<Set<usize>>, transport: Transport) -> bool {
    forall|lo: nat, hi: nat| #[trigger] is_selection_span(tracks, selected, transport, lo, hi)
        ==> forall|t: int, c: int| #[trigger] is_selected_clip(tracks, selected, t, c) ==> {
            &&& clip_start(tracks[t][c]) + (hi - lo) <= u64::MAX
            &&& tracks[t][c].0 ==> tracks[t][c].1.1 + (hi - lo) <= u64::MAX
        }
}

proof fn lemma_selected_clips_from(clips: Seq<ClipView>, selected: Set<usize>, k: nat)
    requires
        k <= clips.len(),
    ensures
        selected_clips(clips, selected, k).len() <= k,
        forall|j: int| #![trigger selected_clips(clips, selected, k)[j]]
            0 <= j < selected_clips(clips, selected, k).len() ==> exists|i: int|
                0 <= i < k && selected.contains(i as usize) && selected_clips(clips, selected, k)[j] == #[trigger] clips[i],
    decreases k,
{
    if k > 0 {
        lemma_selected_clips_from(clips, selected, (k - 1) as nat);
        assert forall|j: int| #![trigger selected_clips(clips, selected, k)[j]]
            0 <= j < selected_clips(clips, selected, k).len() implies exists|i: int|
                0 <= i < k && selected.contains(i as usize) && selected_clips(clips, selected, k)[j] == #[trigger] clips[i] by {
            if j < selected_clips(clips, selected, (k - 1) as nat).len() {
                let i = choose|i: int| 0 <= i < k - 1 && selected.contains(i as usize)
                    && selected_clips(clips, selected, (k - 1) as nat)[j] == #[trigger] clips[i];
                assert(selected_clips(clips, selected, k)[j] == clips[i]);
            } else {
                assert(selected_clips(clips, selected, k)[j] == clips[k - 1]);
            }
        }
    } else {
        assert(selected_clips(clips, selected, k).len() == 0);
        assert(forall|j: int| #![trigger selected_clips(clips, selected, k)[j]]
            0 <= j < selected_clips(clips, selected, k).len() ==> exists|i: int|
                0 <= i < k && selected.contains(i as usize) && selected_clips(clips, selected, k)[j] == #[trigger] clips[i]);
    }
}

/// Duplicates the selected clips: every track appends copies of its selected clips, which
/// become the selection, and the copies are dragged later by the length of the selection's
/// span, from its earliest start to its latest end. Returns that length and where the copies
/// are, or `None`, changing nothing, where no clip is selected.
pub fn duplicate(
    tracks: &mut Vec<TrackClips>,
    selected: &mut Vec<HashSet<usize>>,
    transport: &Transport,
) -> (r: Option<(BeatTime, Vec<(usize, usize)>)>)
    requires
        old(selected)@.len() == old(tracks)@.len(),
        forall|t: int| 0 <= t < old(tracks)@.len() ==> #[trigger] old(tracks)@[t]@.len() * 2 <= usize::MAX,
        forall|t: int, c: int| #[trigger] is_selected_clip(tracks_view(old(tracks)@), selections_view(old(selected)@), t, c)
            ==> clip_fits(old(tracks)@[t]@[c], *transport),
        duplicate_fits(tracks_view(old(tracks)@), selections_view(old(selected)@), *transport),
    ensures
        r is None <==> !has_selected(tracks_view(old(tracks)@), selections_view(old(selected)@)),
        r is None ==> final(tracks)@ == old(tracks)@ && final(selected)@ == old(selected)@,
        r matches Some((dt, placed)) ==> {
            &&& exists|lo: nat, hi: nat| is_selection_span(
                tracks_view(old(tracks)@),
                selections_view(old(selected)@),
                *transport,
                lo,
                hi,
            ) && dt@ == hi - lo
            &&& (tracks_view(final(tracks)@), placed@) == drag_spec(
                cloned_tracks(tracks_view(old(tracks)@), selections_view(old(selected)@)),
                cloned_selections(tracks_view(old(tracks)@), selections_view(old(selected)@)),
                0,
                Delta::Later(dt),
            )
            &&& selections_view(final(selected)@) == cloned_selections(
                tracks_view(old(tracks)@),
                selections_view(old(selected)@),
            )
        },
{
    broadcast use vstd::std_specs::hash::group_hash_axioms;

    let ghost tv = tracks_view(tracks@);
    let ghost sv = selections_view(selected@);
    let span = selection_span(tracks, selected, transport);
    let (lo, hi) = match span {
        None => return None,
        Some(s) => s,
    };
    let dt = hi - lo;
    let n = tracks.len();
    let mut t: usize = 0;
    while t < n
        invariant
            n == tracks@.len(),
            n == selected@.len(),
            n == tv.len(),
            t <= n,
            forall|u: int| 0 <= u < n ==> #[trigger] tv[u].len() * 2 <= usize::MAX,
            forall|u: int| 0 <= u < t ==> #[trigger] tracks@[u]@ == cloned_tracks(tv, sv)[u],
            forall|u: int| 0 <= u < t ==> #[trigger] selected@[u]@ == cloned_selections(tv, sv)[u],
            forall|u: int| t <= u < n ==> #[trigger] tracks@[u]@ == tv[u],
            forall|u: int| t <= u < n ==> #[trigger] selected@[u]@ == sv[u],
        decreases n - t,
    {
        assert(tracks@[t as int]@ == tv[t as int]);
        tracks[t].clone_selected(&mut selected[t]);
        t = t + 1;
    }
    proof {
        assert(tracks_view(tracks@) =~= cloned_tracks(tv, sv));
        assert(selections_view(selected@) =~= cloned_selections(tv, sv));
        let ct = cloned_tracks(tv, sv);
        let cs = cloned_selections(tv, sv);
        assert(is_selection_span(tv, sv, *transport, lo@, hi@));
        assert forall|u: int, c: int| 0 <= u < tracks@.len() && 0 <= c < tracks@[u]@.len()
            && selected@[u]@.contains(c as usize) implies move_fits(#[trigger] tracks@[u]@[c], Delta::Later(dt)) by {
            let len = tv[u].len();
            let sc = selected_clips(tv[u], sv[u], len);
            lemma_selected_clips_from(tv[u], sv[u], len);
            assert(tracks@[u]@ == ct[u]);
            assert(cs[u].contains(c as usize));
            assert(len <= c < len + sc.len());
            assert(ct[u][c] == sc[c - len]);
            let i = choose|i: int| 0 <= i < len && sv[u].contains(i as usize) && sc[c - len] == #[trigger] tv[u][i];
            assert(is_selected_clip(tv, sv, u, i));
        }
    }
    let placed = drag(tracks, selected, 0, Delta::Later(dt));
    Some((dt, placed))
}

/// The clips of every track with each selected clip moved by `d` where it is.
pub open spec fn moved_in_place(tracks: Seq<Seq<ClipView>>, selected: Seq<Set<usize>>, d: Delta) -> Seq<Seq<ClipView>> {
    Seq::new(
        tracks.len(),
        |t: int| Seq::new(
            tracks[t].len(),
            |c: int| if selected[t].contains(c as usize) { moved_view(tracks[t][c], d) } else { tracks[t][c] },
        ),
    )
}

proof fn lemma_drag_track_in_place(s: DragState, selected: Set<usize>, t: nat, k: nat, d: Delta)
    requires
        t < s.0.len(),
        k <= s.0[t as int].len(),
    ensures
        drag_track_from(s, selected, t, k, 0, d).0 == s.0.update(
            t as int,
            Seq::new(
                s.0[t as int].len(),
                |c: int| if c < k && selected.contains(c as usize) { moved_view(s.0[t as int][c], d) } else { s.0[t as int][c] },
            ),
        ),
    decreases k,
{
    let n = s.0.len();
    if k == 0 {
        assert(Seq::new(
            s.0[t as int].len(),
            |c: int| if c < k && selected.contains(c as usize) { moved_view(s.0[t as int][c], d) } else { s.0[t as int][c] },
        ) =~= s.0[t as int]);
        assert(s.0.update(
            t as int,
            Seq::new(
                s.0[t as int].len(),
                |c: int| if c < k && selected.contains(c as usize) { moved_view(s.0[t as int][c], d) } else { s.0[t as int][c] },
            ),
        ) =~= s.0);
    } else {
        let c = (k - 1) as nat;
        assert(target_track(t, 0, n) == t);
        let s1 = if selected.contains(c as usize) { drag_step(s, t, c, 0, d) } else { s };
        assert(s1.0.len() == n);
        assert(s1.0[t as int].len() == s.0[t as int].len());
        lemma_drag_track_in_place(s1, selected, t, c, d);
        assert(drag_track_from(s, selected, t, k, 0, d) == drag_track_from(s1, selected, t, c, 0, d));
        let lhs = s1.0.update(
            t as int,
            Seq::new(
                s1.0[t as int].len(),
                |i: int| if i < c && selected.contains(i as usize) { moved_view(s1.0[t as int][i], d) } else { s1.0[t as int][i] },
            ),
        );
        let rhs = s.0.update(
            t as int,
            Seq::new(
                s.0[t as int].len(),
                |i: int| if i < k && selected.contains(i as usize) { moved_view(s.0[t as int][i], d) } else { s.0[t as int][i] },
            ),
        );
        assert(lhs[t as int] =~= rhs[t as int]);
        assert(lhs =~= rhs);
    }
}

proof fn lemma_drag_tracks_in_place(s: DragState, selected: Seq<Set<usize>>, t: nat, n: nat, d: Delta)
    requires
        n == s.0.len(),
        t <= n,
    ensures
        drag_tracks_up(s, selected, t, n, 0, d).0 == Seq::new(
            n,
            |u: int| if u < t { s.0[u] } else {
                Seq::new(
                    s.0[u].len(),
                    |c: int| if selected[u].contains(c as usize) { moved_view(s.0[u][c], d) } else { s.0[u][c] },
                )
            },
        ),
    decreases n - t,
{
    let goal = Seq::new(
        n,
        |u: int| if u < t { s.0[u] } else {
            Seq::new(
                s.0[u].len(),
                |c: int| if selected[u].contains(c as usize) { moved_view(s.0[u][c], d) } else { s.0[u][c] },
            )
        },
    );
    if t >= n {
        assert(goal =~= s.0);
    } else {
        lemma_drag_track_in_place(s, selected[t as int], t, s.0[t as int].len(), d);
        let s1 = drag_track_from(s, selected[t as int], t, s.0[t as int].len(), 0, d);
        lemma_drag_tracks_in_place(s1, selected, t + 1, n, d);
        let next = Seq::new(
            n,
            |u: int| if u < t + 1 { s1.0[u] } else {
                Seq::new(
                    s1.0[u].len(),
                    |c: int| if selected[u].contains(c as usize) { moved_view(s1.0[u][c], d) } else { s1.0[u][c] },
                )
            },
        );
        assert(next[t as int] =~= goal[t as int]);
        assert(next =~= goal);
    }
}

/// Dragging by no tracks keeps every clip on its track and at its index, moves each selected
/// clip by `d`, and leaves every other clip as it was.
pub proof fn lemma_drag_in_place(tracks: Seq<Seq<ClipView>>, selected: Seq<Set<usize>>, d: Delta)
    ensures
        drag_spec(tracks, selected, 0, d).0 == moved_in_place(tracks, selected, d),
{
    let s: DragState = (tracks, Seq::empty());
    lemma_drag_tracks_in_place(s, selected, 0, tracks.len(), d);
    assert(drag_tracks_up(s, selected, 0, tracks.len(), 0, d).0 =~= moved_in_place(tracks, selected, d));
}

/// Duplicating keeps every track's clips as they were and appends, in order of their index,
/// a copy of each selected clip moved by `d`.
pub proof fn lemma_duplicate_appends_moved_copies(tracks: Seq<Seq<ClipView>>, selected: Seq<Set<usize>>, d: Delta)
    requires
        selected.len() == tracks.len(),
        forall|t: int| 0 <= t < tracks.len() ==> #[trigger] tracks[t].len() * 2 <= usize::MAX,
    ensures
        drag_spec(cloned_tracks(tracks, selected), cloned_selections(tracks, selected), 0, d).0 == Seq::new(
            tracks.len(),
            |t: int| tracks[t] + selected_clips(tracks[t], selected[t], tracks[t].len()).map_values(
                |v: ClipView| moved_view(v, d),
            ),
        ),
{
    let ct = cloned_tracks(tracks, selected);
    let cs = cloned_selections(tracks, selected);
    lemma_drag_in_place(ct, cs, d);
    let goal = Seq::new(
        tracks.len(),
        |t: int| tracks[t] + selected_clips(tracks[t], selected[t], tracks[t].len()).map_values(
            |v: ClipView| moved_view(v, d),
        ),
    );
    assert forall|t: int| 0 <= t < tracks.len() implies #[trigger] moved_in_place(ct, cs, d)[t] =~= goal[t] by {
        let len = tracks[t].len();
        let sc = selected_clips(tracks[t], selected[t], len);
        lemma_selected_clips_from(tracks[t], selected[t], len);
        assert forall|c: int| 0 <= c < ct[t].len() implies #[trigger] moved_in_place(ct, cs, d)[t][c] == goal[t][c] by {
            assert(sc.len() <= len);
            assert(c < 2 * len);
            if c < len {
                assert(!cs[t].contains(c as usize));
            } else {
                assert(cs[t].contains(c as usize));
            }
        }
    }
    assert(moved_in_place(ct, cs, d) =~= goal);
}

} // verus!
