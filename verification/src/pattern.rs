use vstd::prelude::*;
use crate::time::beat_range::{BeatRange, range_new_spec, adjust_spec, adjust_fits};
use crate::time::fixed_point::{round_fits, round_spec};
use crate::time::beat_time::BeatTime;
use std::collections::HashSet;
use crate::selection::{lemma_without_map, remove_selected, without};

verus! {

/// A note of a pattern: its key, its velocity (of whatever type the caller keeps velocities
/// in), and where it lies in the pattern.
#[derive(Clone, Copy, Debug)]
pub struct PatternNote<V> {
    pub key: u8,
    pub velocity: V,
    pub position: BeatRange,
}

/// A note as its key, velocity and range `(start, end)` in ticks.
pub open spec fn pattern_note_view<V>(n: PatternNote<V>) -> (u8, V, (nat, nat)) {
    (n.key, n.velocity, n.position@)
}

/// An edit of a pattern; notes are named by their index.
#[derive(Clone, Copy, Debug)]
pub enum PatternAction<V> {
    Add(PatternNote<V>),
    Remove(usize),
    ChangeKey(usize, u8),
    MoveTo(usize, BeatTime),
    TrimStartTo(usize, BeatTime),
    TrimEndTo(usize, BeatTime),
}

/// Whether an edit applies to the notes: the note it names exists, and a note moved keeps its
/// length within range.
pub open spec fn applies<V>(notes: Seq<(u8, V, (nat, nat))>, action: PatternAction<V>) -> bool {
    match action {
        PatternAction::Add(_) => true,
        PatternAction::Remove(i) => i < notes.len(),
        PatternAction::ChangeKey(i, _) => i < notes.len(),
        PatternAction::MoveTo(i, t) => i < notes.len() && t@ + (notes[i as int].2.1
            - notes[i as int].2.0) <= u64::MAX,
        PatternAction::TrimStartTo(i, _) => i < notes.len(),
        PatternAction::TrimEndTo(i, _) => i < notes.len(),
    }
}

/// The notes after an edit. A moved note keeps its length; a note trimmed at its start keeps
/// its end and at least one tick; a note trimmed at its end keeps its start and at least one
/// tick.
pub open spec fn apply_spec<V>(notes: Seq<(u8, V, (nat, nat))>, action: PatternAction<V>) -> Seq<
    (u8, V, (nat, nat)),
> {
    match action {
        PatternAction::Add(n) => notes.push(pattern_note_view(n)),
        PatternAction::Remove(i) => notes.remove(i as int),
        PatternAction::ChangeKey(i, key) => {
            let n = notes[i as int];
            notes.update(i as int, (key, n.1, n.2))
        },
        PatternAction::MoveTo(i, t) => {
            let n = notes[i as int];
            notes.update(i as int, (n.0, n.1, (t@, t@ + (n.2.1 - n.2.0) as nat)))
        },
        PatternAction::TrimStartTo(i, t) => {
            let n = notes[i as int];
            let start = if t@ < n.2.1 - 1 { t@ } else { (n.2.1 - 1) as nat };
            notes.update(i as int, (n.0, n.1, (start, n.2.1)))
        },
        PatternAction::TrimEndTo(i, t) => {
            let n = notes[i as int];
            notes.update(i as int, (n.0, n.1, range_new_spec(n.2.0, t@)))
        },
    }
}

/// The latest end among the notes, or zero where there are none.
pub open spec fn max_end<V>(notes: Seq<(u8, V, (nat, nat))>) -> nat
    decreases notes.len(),
{
    if notes.len() == 0 {
        0
    } else {
        let rest = max_end(notes.drop_last());
        let e = notes.last().2.1;
        if e > rest {
            e
        } else {
            rest
        }
    }
}

/// Where splitting the selected notes of a pattern has got to: the notes, the notes selected
/// on the left of the split, those selected on the right, and how many notes were added.
pub type SplitState<V> = (Seq<(u8, V, (nat, nat))>, Set<usize>, Set<usize>, nat);

/// Splitting at `pos` the note that was at index `i` before any split: where the note ends
/// at `pos` it stays selected on the left, where it starts there it is selected on the right,
/// and where `pos` lies inside it, it becomes two notes that meet at `pos`, the first selected
/// on the left and the second on the right. Notes that `pos` does not touch drop out.
pub open spec fn split_step<V>(s: SplitState<V>, i: nat, pos: nat) -> SplitState<V> {
    let notes = s.0;
    let lhs = i + s.3;
    let n = notes[lhs as int];
    let start = n.2.0;
    let end = n.2.1;
    if !(start <= pos <= end) {
        s
    } else if end == pos {
        (notes, s.1.insert(lhs as usize), s.2, s.3)
    } else if start == pos {
        (notes, s.1, s.2.insert(lhs as usize), s.3)
    } else if end - start > 1 {
        (
            notes.update(lhs as int, (n.0, n.1, (start, pos))).insert(
                lhs + 1 as int,
                (n.0, n.1, (pos, end)),
            ),
            s.1.insert(lhs as usize),
            s.2.insert((lhs + 1) as usize),
            s.3 + 1,
        )
    } else {
        s
    }
}

/// Splitting the selected notes among the first `k`, in order of their index.
pub open spec fn split_upto<V>(s: SplitState<V>, selected: Set<usize>, pos: nat, k: nat) -> SplitState<
    V,
>
    decreases k,
{
    if k == 0 {
        s
    } else {
        let before = split_upto(s, selected, pos, (k - 1) as nat);
        if selected.contains((k - 1) as usize) {
            split_step(before, (k - 1) as nat, pos)
        } else {
            before
        }
    }
}

/// The larger of two amounts.
pub open spec fn max_nat(a: nat, b: nat) -> nat {
    if a > b {
        a
    } else {
        b
    }
}

/// The smaller of two amounts.
pub open spec fn min_nat(a: nat, b: nat) -> nat {
    if a < b {
        a
    } else {
        b
    }
}

/// The lowest point that a split of key `key` may move to, from the first `j` notes: `pos`,
/// or one tick after the start of a note of that key selected on the left, if later.
pub open spec fn split_floor<V>(notes: Seq<(u8, V, (nat, nat))>, left: Set<usize>, key: u8, pos: nat, j: nat) -> nat
    decreases j,
{
    if j == 0 {
        pos
    } else {
        let r = split_floor(notes, left, key, pos, (j - 1) as nat);
        let n = notes[j - 1];
        if left.contains((j - 1) as usize) && n.0 == key {
            max_nat(r, n.2.0 + 1)
        } else {
            r
        }
    }
}

/// The highest point that a split of key `key` may move to, from the first `j` notes: one
/// tick before the end of the earliest-ending note of that key selected on the right, if any.
pub open spec fn split_ceiling<V>(notes: Seq<(u8, V, (nat, nat))>, right: Set<usize>, key: u8, j: nat) -> Option<nat>
    decreases j,
{
    if j == 0 {
        None
    } else {
        let r = split_ceiling(notes, right, key, (j - 1) as nat);
        let n = notes[j - 1];
        if right.contains((j - 1) as usize) && n.0 == key {
            let c = (n.2.1 - 1) as nat;
            match r {
                Some(h) => Some(min_nat(h, c)),
                None => Some(c),
            }
        } else {
            r
        }
    }
}

/// Where the notes of key `key` meet after dragging their split towards `pos`: no earlier than
/// one tick after the start of a note on the left, and no later than one tick before the end
/// of a note on the right.
pub open spec fn split_point<V>(notes: Seq<(u8, V, (nat, nat))>, left: Set<usize>, right: Set<usize>, key: u8, pos: nat) -> nat {
    let lo = split_floor(notes, left, key, pos, notes.len());
    match split_ceiling(notes, right, key, notes.len()) {
        Some(h) => min_nat(lo, h),
        None => lo,
    }
}

/// The notes after dragging a split to `pos`: the notes on the left end, and those on the right
/// start, at the split point of their key (a note on both sides is trimmed at its end first).
pub open spec fn drag_split_spec<V>(notes: Seq<(u8, V, (nat, nat))>, left: Set<usize>, right: Set<usize>, pos: nat) -> Seq<(u8, V, (nat, nat))> {
    Seq::new(
        notes.len(),
        |i: int| {
            let n = notes[i];
            let t = split_point(notes, left, right, n.0, pos);
            let r1 = if left.contains(i as usize) { range_new_spec(n.2.0, t) } else { n.2 };
            let r2 = if right.contains(i as usize) {
                (if t < r1.1 - 1 { t } else { (r1.1 - 1) as nat }, r1.1)
            } else {
                r1
            };
            (n.0, n.1, r2)
        },
    )
}

/// A note quantized to a grid of step `m`: its range is rounded to the grid (kept non-empty),
/// then its end and its start are moved there.
pub open spec fn quantized<V>(n: (u8, V, (nat, nat)), m: nat) -> (u8, V, (nat, nat)) {
    let (s, e) = n.2;
    let q = adjust_spec(s, e, round_spec(s, m), round_spec(e, m), m);
    let r1 = range_new_spec(s, q.1);
    (n.0, n.1, (if q.0 < r1.1 - 1 { q.0 } else { (r1.1 - 1) as nat }, r1.1))
}

/// Whether quantizing a note to a grid of step `m` stays within range.
pub open spec fn quantize_fits<V>(n: (u8, V, (nat, nat)), m: nat) -> bool {
    let (s, e) = n.2;
    &&& round_fits(s, m)
    &&& round_fits(e, m)
    &&& adjust_fits(s, e, round_spec(s, m), round_spec(e, m), m)
}

/// The selection with every index below `n` toggled.
pub open spec fn inverted(sel: Set<usize>, n: nat) -> Set<usize> {
    Set::new(|i: usize| if i < n { !sel.contains(i) } else { sel.contains(i) })
}

/// Toggles whether each of the indices below `n` is selected.
pub fn select_inverse(selection: &mut HashSet<usize>, n: usize)
    ensures
        final(selection)@ == inverted(old(selection)@, n as nat),
{
    broadcast use vstd::std_specs::hash::group_hash_axioms;

    let mut i: usize = 0;
    while i < n
        invariant
            0 <= i <= n,
            selection@ == Set::new(|k: usize| if k < i { !old(selection)@.contains(k) } else { old(selection)@.contains(k) }),
        decreases n - i,
    {
        let ghost before = selection@;
        if !selection.insert(i) {
            selection.remove(&i);
        }
        proof {
            assert(selection@ =~= Set::new(|k: usize| if k < i + 1 { !old(selection)@.contains(k) } else { old(selection)@.contains(k) }));
        }
        i = i + 1;
    }
    proof {
        assert(selection@ =~= inverted(old(selection)@, n as nat));
    }
}

/// Selects exactly the indices below `n`.
pub fn select_all(selection: &mut HashSet<usize>, n: usize)
    ensures
        final(selection)@ == Set::new(|i: usize| i < n),
{
    broadcast use vstd::std_specs::hash::group_hash_axioms;

    selection.clear();
    let mut i: usize = 0;
    while i < n
        invariant
            0 <= i <= n,
            selection@ == Set::new(|k: usize| k < i),
        decreases n - i,
    {
        selection.insert(i);
        proof {
            assert(selection@ =~= Set::new(|k: usize| k < i + 1));
        }
        i = i + 1;
    }
}

/// A MIDI pattern: an id and its notes, in order.
#[derive(Clone, Debug)]
pub struct Pattern<V> {
    id: u64,
    notes: Vec<PatternNote<V>>,
}

impl<V> View for Pattern<V> {
    type V = Seq<(u8, V, (nat, nat))>;

    closed spec fn view(&self) -> Seq<(u8, V, (nat, nat))> {
        self.notes@.map_values(|n: PatternNote<V>| pattern_note_view(n))
    }
}

impl<V> Pattern<V> {
    /// The pattern's id.
    pub closed spec fn id_spec(&self) -> u64 {
        self.id
    }
}

impl<V: Copy> Pattern<V> {
    pub fn id(&self) -> (r: u64)
        ensures
            r == self.id_spec(),
    {
        self.id
    }

    /// The pattern with id `id` and the notes `notes`.
    pub fn new(id: u64, notes: Vec<PatternNote<V>>) -> (r: Self)
        ensures
            r.id_spec() == id,
            r@ == notes@.map_values(|n: PatternNote<V>| pattern_note_view(n)),
    {
        Pattern { id, notes }
    }

    /// The number of notes.
    pub fn note_count(&self) -> (r: usize)
        ensures
            r == self@.len(),
    {
        self.notes.len()
    }

    /// The note at `index`.
    pub fn note(&self, index: usize) -> (r: PatternNote<V>)
        requires
            index < self@.len(),
        ensures
            pattern_note_view(r) == self@[index as int],
    {
        self.notes[index]
    }

    /// Where the last note ends; zero where there are no notes.
    pub fn end(&self) -> (r: BeatTime)
        ensures
            r@ == max_end(self@),
    {
        let mut end = BeatTime::zero();
        let n = self.notes.len();
        let mut i: usize = 0;
        while i < n
            invariant
                n == self.notes@.len(),
                0 <= i <= n,
                end@ == max_end(self@.take(i as int)),
            decreases n - i,
        {
            let e = self.notes[i].position.end();
            proof {
                assert(self@.take(i + 1).drop_last() =~= self@.take(i as int));
                assert(self@.take(i + 1).last() == pattern_note_view(self.notes@[i as int]));
            }
            if e.to_bits() > end.to_bits() {
                end = e;
            }
            i = i + 1;
        }
        proof {
            assert(self@.take(n as int) =~= self@);
        }
        end
    }

    /// Applies an edit to the notes.
    pub fn apply(&mut self, action: PatternAction<V>)
        requires
            applies(old(self)@, action),
        ensures
            final(self).id_spec() == old(self).id_spec(),
            final(self)@ == apply_spec(old(self)@, action),
    {
        let ghost before = self@;
        match action {
            PatternAction::Add(note) => {
                self.notes.push(note);
                proof {
                    assert(self@ =~= apply_spec(before, action));
                }
            },
            PatternAction::Remove(i) => {
                self.notes.remove(i);
                proof {
                    assert(self@ =~= apply_spec(before, action));
                }
            },
            PatternAction::ChangeKey(i, key) => {
                let mut note = self.notes[i];
                note.key = key;
                self.notes.set(i, note);
                proof {
                    assert(self@ =~= apply_spec(before, action));
                }
            },
            PatternAction::MoveTo(i, t) => {
                let mut note = self.notes[i];
                note.position.move_to(t);
                self.notes.set(i, note);
                proof {
                    assert(self@ =~= apply_spec(before, action));
                }
            },
            PatternAction::TrimStartTo(i, t) => {
                let mut note = self.notes[i];
                note.position.trim_start_to(t);
                self.notes.set(i, note);
                proof {
                    assert(self@ =~= apply_spec(before, action));
                }
            },
            PatternAction::TrimEndTo(i, t) => {
                let mut note = self.notes[i];
                note.position.trim_end_to(t);
                self.notes.set(i, note);
                proof {
                    assert(self@ =~= apply_spec(before, action));
                }
            },
        }
    }

    /// Splits the selected notes at `pos`, going through them in order of their index. The
    /// selection becomes the notes on the left of the split; those on its right are added to
    /// `secondary`.
    pub fn split_at(
        &mut self,
        pos: BeatTime,
        primary: &mut HashSet<usize>,
        secondary: &mut HashSet<usize>,
    )
        requires
            old(self)@.len() * 2 <= usize::MAX,
        ensures
            final(self).id_spec() == old(self).id_spec(),
            ({
                let s = split_upto(
                    (old(self)@, Set::<usize>::empty(), old(secondary)@, 0nat),
                    old(primary)@,
                    pos@,
                    old(self)@.len(),
                );
                &&& final(self)@ == s.0
                &&& final(primary)@ == s.1
                &&& final(secondary)@ == s.2
            }),
    {
        broadcast use vstd::std_specs::hash::group_hash_axioms;

        let mut selected: HashSet<usize> = HashSet::new();
        std::mem::swap(&mut selected, primary);
        let ghost init: SplitState<V> = (self@, Set::<usize>::empty(), old(secondary)@, 0nat);
        let n = self.notes.len();
        let mut extra: usize = 0;
        let mut k: usize = 0;
        while k < n
            invariant
                n == old(self)@.len(),
                n * 2 <= usize::MAX,
                0 <= k <= n,
                extra <= k,
                self.id == old(self).id,
                self@.len() == n + extra,
                selected@ == old(primary)@,
                init == (old(self)@, Set::<usize>::empty(), old(secondary)@, 0nat),
                split_upto(init, old(primary)@, pos@, k as nat) == (
                    self@,
                    primary@,
                    secondary@,
                    extra as nat,
                ),
            decreases n - k,
        {
            let ghost before = (self@, primary@, secondary@, extra as nat);
            if selected.contains(&k) {
                let lhs = k + extra;
                let note = self.notes[lhs];
                let start = note.position.start();
                let end = note.position.end();
                proof {
                    assert(self@[lhs as int] == pattern_note_view(note));
                }
                if start.to_bits() <= pos.to_bits() && pos.to_bits() <= end.to_bits() {
                    if end.to_bits() == pos.to_bits() {
                        primary.insert(lhs);
                    } else if start.to_bits() == pos.to_bits() {
                        secondary.insert(lhs);
                    } else if end.to_bits() - start.to_bits() > 1 {
                        let mut left = note;
                        left.position.trim_end_to(pos);
                        let mut right = note;
                        right.position.trim_start_to(pos);
                        self.notes.set(lhs, left);
                        self.notes.insert(lhs + 1, right);
                        primary.insert(lhs);
                        secondary.insert(lhs + 1);
                        extra = extra + 1;
                        proof {
                            let n0 = before.0[lhs as int];
                            assert(self@ =~= before.0.update(lhs as int, (n0.0, n0.1, (n0.2.0, pos@))).insert(
                                lhs + 1 as int,
                                (n0.0, n0.1, (pos@, n0.2.1)),
                            ));
                        }
                    }
                }
            }
            k = k + 1;
        }
    }

    fn split_point_of(&self, key: u8, pos: BeatTime, left: &HashSet<usize>, right: &HashSet<usize>) -> (r: BeatTime)
        ensures
            r@ == split_point(self@, left@, right@, key, pos@),
    {
        broadcast use vstd::std_specs::hash::group_hash_axioms;

        let n = self.notes.len();
        let mut lo = pos;
        let mut hi: Option<BeatTime> = None;
        let mut j: usize = 0;
        while j < n
            invariant
                n == self@.len(),
                0 <= j <= n,
                lo@ == split_floor(self@, left@, key, pos@, j as nat),
                match split_ceiling(self@, right@, key, j as nat) {
                    Some(h) => hi matches Some(b) && b@ == h,
                    None => hi is None,
                },
            decreases n - j,
        {
            let note = self.notes[j];
            proof {
                assert(self@[j as int] == pattern_note_view(note));
            }
            if note.key == key {
                let start = note.position.start();
                let end = note.position.end();
                if left.contains(&j) {
                    let s = start + BeatTime::one_tick();
                    if s.to_bits() > lo.to_bits() {
                        lo = s;
                    }
                }
                if right.contains(&j) {
                    let c = end - BeatTime::one_tick();
                    hi = match hi {
                        Some(h) => if c.to_bits() < h.to_bits() { Some(c) } else { Some(h) },
                        None => Some(c),
                    };
                }
            }
            j = j + 1;
        }
        match hi {
            Some(h) => if h.to_bits() < lo.to_bits() { h } else { lo },
            None => lo,
        }
    }

    /// Drags a split to `pos`: the notes selected on the left end, and those selected on the
    /// right start, where the notes of their key meet, which is `pos` moved as little as keeps
    /// every one of those notes at least one tick long.
    pub fn drag_split(&mut self, pos: BeatTime, left: &HashSet<usize>, right: &HashSet<usize>)
        ensures
            final(self).id_spec() == old(self).id_spec(),
            final(self)@ == drag_split_spec(old(self)@, left@, right@, pos@),
    {
        broadcast use vstd::std_specs::hash::group_hash_axioms;

        let ghost orig = self@;
        let n = self.notes.len();
        let mut points: Vec<BeatTime> = Vec::new();
        let mut j: usize = 0;
        while j < n
            invariant
                n == orig.len(),
                self@ == orig,
                0 <= j <= n,
                points@.len() == j,
                forall|i: int| 0 <= i < j ==> (#[trigger] points@[i])@ == split_point(orig, left@, right@, orig[i].0, pos@),
            decreases n - j,
        {
            let key = self.notes[j].key;
            proof {
                assert(orig[j as int].0 == key);
            }
            let t = self.split_point_of(key, pos, left, right);
            points.push(t);
            j = j + 1;
        }
        let mut i: usize = 0;
        while i < n
            invariant
                n == orig.len(),
                self.id == old(self).id,
                self@.len() == n,
                0 <= i <= n,
                points@.len() == n,
                forall|k: int| 0 <= k < n ==> (#[trigger] points@[k])@ == split_point(orig, left@, right@, orig[k].0, pos@),
                forall|k: int| 0 <= k < i ==> #[trigger] self@[k] == drag_split_spec(orig, left@, right@, pos@)[k],
                forall|k: int| i <= k < n ==> #[trigger] self@[k] == orig[k],
            decreases n - i,
        {
            let ghost before = self@;
            let mut note = self.notes[i];
            proof {
                assert(self@[i as int] == pattern_note_view(note));
                assert(note.key == orig[i as int].0);
            }
            let t = points[i];
            if left.contains(&i) {
                note.position.trim_end_to(t);
            }
            if right.contains(&i) {
                note.position.trim_start_to(t);
            }
            self.notes.set(i, note);
            proof {
                assert(self@ =~= before.update(i as int, pattern_note_view(note)));
                assert(pattern_note_view(note) == drag_split_spec(orig, left@, right@, pos@)[i as int]);
            }
            i = i + 1;
        }
        proof {
            assert(self@ =~= drag_split_spec(orig, left@, right@, pos@));
        }
    }

    /// Quantizes the selected notes to a grid of step `step`.
    pub fn quantize(&mut self, selected: &HashSet<usize>, step: BeatTime)
        requires
            step@ > 0,
            forall|i: int| 0 <= i < old(self)@.len() && selected@.contains(i as usize)
                ==> quantize_fits(#[trigger] old(self)@[i], step@),
        ensures
            final(self).id_spec() == old(self).id_spec(),
            final(self)@ == Seq::new(
                old(self)@.len(),
                |i: int| if selected@.contains(i as usize) { quantized(old(self)@[i], step@) } else { old(self)@[i] },
            ),
    {
        broadcast use vstd::std_specs::hash::group_hash_axioms;

        let ghost orig = self@;
        let n = self.notes.len();
        let mut k: usize = 0;
        while k < n
            invariant
                n == orig.len(),
                orig == old(self)@,
                self.id == old(self).id,
                self@.len() == n,
                step@ > 0,
                0 <= k <= n,
                forall|i: int| 0 <= i < orig.len() && selected@.contains(i as usize)
                    ==> quantize_fits(#[trigger] orig[i], step@),
                forall|i: int| 0 <= i < k ==> #[trigger] self@[i] == if selected@.contains(i as usize) {
                    quantized(orig[i], step@)
                } else {
                    orig[i]
                },
                forall|i: int| k <= i < n ==> #[trigger] self@[i] == orig[i],
            decreases n - k,
        {
            let ghost before = self@;
            if selected.contains(&k) {
                let mut note = self.notes[k];
                proof {
                    assert(self@[k as int] == pattern_note_view(note));
                    assert(quantize_fits(orig[k as int], step@));
                }
                let r = note.position.round(step);
                note.position.trim_end_to(r.end());
                note.position.trim_start_to(r.start());
                self.notes.set(k, note);
                proof {
                    assert(self@ =~= before.update(k as int, pattern_note_view(note)));
                }
            }
            k = k + 1;
        }
        proof {
            assert(self@ =~= Seq::new(
                orig.len(),
                |i: int| if selected@.contains(i as usize) { quantized(orig[i], step@) } else { orig[i] },
            ));
        }
    }

    /// Removes the selected notes, keeping the others in order, and clears the selection.
    pub fn delete_selected(&mut self, primary: &mut HashSet<usize>)
        ensures
            final(self).id_spec() == old(self).id_spec(),
            final(self)@ == without(old(self)@, old(primary)@, old(self)@.len()),
            final(primary)@ == Set::<usize>::empty(),
    {
        broadcast use vstd::std_specs::hash::group_hash_axioms;

        proof {
            lemma_without_map(self.notes@, |n: PatternNote<V>| pattern_note_view(n), primary@, self.notes@.len());
        }
        remove_selected(&mut self.notes, primary);
        primary.clear();
    }
}

} // verus!
