use vstd::prelude::*;
use vstd::std_specs::cmp::PartialEqSpec;
use std::cmp::Ordering;

verus! {

/// One sounding voice: who asked for it, the note id it plays under, whether it is still
/// wanted, and what it plays.
#[derive(Clone, Copy, Debug)]
pub struct Voice<Id, Info> {
    pub id: Id,
    pub note_id: u32,
    pub active: bool,
    pub info: Info,
}

/// The largest note id plus one: note ids count up and wrap around to zero here.
pub open spec fn note_id_bound() -> nat {
    0x7fff_ffff
}

/// The voice that a fresh allocation hands out.
pub open spec fn fresh_voice<Id, Info>(id: Id, info: Info, note_id: nat) -> Voice<Id, Info> {
    Voice { id, note_id: note_id as u32, active: true, info }
}

/// The note id that follows `n`.
pub open spec fn next_note_id(n: nat) -> nat {
    (n + 1) % note_id_bound()
}

/// Whether voice `v` was asked for by `id`, as `Id`'s equality sees it.
pub open spec fn voice_is<Id: PartialEq, Info>(v: Voice<Id, Info>, id: Id) -> bool {
    v.id.eq_spec(&id)
}

/// Whether `i` is the first voice in `s` asked for by `id`.
pub open spec fn first_voice_of<Id: PartialEq, Info>(s: Seq<Voice<Id, Info>>, id: Id, i: int) -> bool {
    &&& 0 <= i < s.len()
    &&& voice_is(s[i], id)
    &&& forall|k: int| 0 <= k < i ==> !voice_is(#[trigger] s[k], id)
}

/// The voice at index `i`.
pub open spec fn voice_at<Id, Info>(s: Seq<Voice<Id, Info>>, i: usize) -> Voice<Id, Info> {
    s[i as int]
}

/// Entry `j` of a path of indices.
pub open spec fn path_at(path: Seq<usize>, j: usize) -> usize {
    path[j as int]
}

/// The entry of a path of indices before entry `j`.
pub open spec fn prev_at(path: Seq<usize>, j: usize) -> usize {
    path[j as int - 1]
}

/// The index before `j`.
pub open spec fn before_index(j: usize) -> usize {
    (j - 1) as usize
}

/// The index of the last voice.
pub open spec fn last_index<Id, Info>(s: Seq<Voice<Id, Info>>) -> usize {
    (s.len() - 1) as usize
}

/// The voices with the voice at index `i` replaced by `v`.
pub open spec fn replaced<Id, Info>(s: Seq<Voice<Id, Info>>, i: usize, v: Voice<Id, Info>) -> Seq<Voice<Id, Info>> {
    s.update(i as int, v)
}

/// The voice with its `active` flag set to `active`.
pub open spec fn with_active<Id, Info>(v: Voice<Id, Info>, active: bool) -> Voice<Id, Info> {
    Voice { active, ..v }
}

/// A pool of at most a fixed number of voices.
#[derive(Debug)]
pub struct VoiceAlloc<Id, Info> {
    voices: Vec<Voice<Id, Info>>,
    capacity: usize,
    next_note_id: u32,
}

impl<Id, Info> View for VoiceAlloc<Id, Info> {
    /// The voices in order, the most voices there can be, and the next note id.
    type V = (Seq<Voice<Id, Info>>, nat, nat);

    closed spec fn view(&self) -> (Seq<Voice<Id, Info>>, nat, nat) {
        (self.voices@, self.capacity as nat, self.next_note_id as nat)
    }
}

/// One step of `Iterator::min_by` over the voices: comparing the voice found so far, at
/// `cur`, with the voice at `j`, the search moves on to `j` exactly where `f` said the voice
/// found so far is greater.
pub open spec fn steps_to<Id, Info, F: Fn(&Voice<Id, Info>, &Voice<Id, Info>) -> Ordering>(
    f: F,
    s: Seq<Voice<Id, Info>>,
    cur: usize,
    j: usize,
    next: usize,
) -> bool {
    ||| next == j && f.ensures((&voice_at(s, cur), &voice_at(s, j)), Ordering::Greater)
    ||| next == cur && exists|o: Ordering|
        o != Ordering::Greater && #[trigger] f.ensures((&voice_at(s, cur), &voice_at(s, j)), o)
}

/// `path` is the run of `Iterator::min_by` over the voices under `f`: it starts at the first
/// voice, and each later voice is compared with the one found so far; its last entry is the
/// voice chosen.
pub open spec fn min_by_path<Id, Info, F: Fn(&Voice<Id, Info>, &Voice<Id, Info>) -> Ordering>(
    f: F,
    s: Seq<Voice<Id, Info>>,
    path: Seq<usize>,
) -> bool {
    &&& 0 < s.len() <= usize::MAX
    &&& path.len() == s.len()
    &&& path_at(path, 0usize) == 0usize
    &&& forall|k: usize| 0 < k < s.len() ==> #[trigger] steps_to(f, s, prev_at(path, k), k, path_at(path, k))
}

/// How two keys compare.
pub open spec fn compare_keys(x: int, y: int) -> Ordering {
    if x < y {
        Ordering::Less
    } else if x == y {
        Ordering::Equal
    } else {
        Ordering::Greater
    }
}

/// `f` compares voices by the key `key`.
pub open spec fn orders_by<Id, Info, F: Fn(&Voice<Id, Info>, &Voice<Id, Info>) -> Ordering>(
    f: F,
    key: spec_fn(Voice<Id, Info>) -> int,
) -> bool {
    forall|a: &Voice<Id, Info>, b: &Voice<Id, Info>, o: Ordering|
        #[trigger] f.ensures((a, b), o) ==> o == compare_keys(key(*a), key(*b))
}

/// Where `f` compares voices by a key, the run of `min_by` up to voice `j` stands on the first
/// of the voices `0..=j` with the lowest key.
proof fn lemma_min_by_prefix<Id, Info, F: Fn(&Voice<Id, Info>, &Voice<Id, Info>) -> Ordering>(
    f: F,
    key: spec_fn(Voice<Id, Info>) -> int,
    s: Seq<Voice<Id, Info>>,
    path: Seq<usize>,
    j: usize,
)
    requires
        min_by_path(f, s, path),
        orders_by(f, key),
        j < s.len(),
    ensures
        path_at(path, j) <= j,
        forall|k: usize| k <= j ==> key(voice_at(s, path_at(path, j))) <= key(#[trigger] voice_at(s, k)),
        forall|k: usize| k < path_at(path, j) ==> key(#[trigger] voice_at(s, k)) > key(voice_at(s, path_at(path, j))),
    decreases j,
{
    if j > 0 {
        let p = before_index(j);
        lemma_min_by_prefix(f, key, s, path, p);
        assert(prev_at(path, j) == path_at(path, p));
        assert(steps_to(f, s, prev_at(path, j), j, path_at(path, j)));
    }
}

/// Where `f` compares voices by a key, `min_by` chooses the first voice with the lowest key.
pub proof fn lemma_min_by_first_lowest<Id, Info, F: Fn(&Voice<Id, Info>, &Voice<Id, Info>) -> Ordering>(
    f: F,
    key: spec_fn(Voice<Id, Info>) -> int,
    s: Seq<Voice<Id, Info>>,
    path: Seq<usize>,
)
    requires
        min_by_path(f, s, path),
        orders_by(f, key),
    ensures
        path.last() < s.len(),
        forall|k: usize| k < s.len() ==> key(voice_at(s, path.last())) <= key(#[trigger] voice_at(s, k)),
        forall|k: usize| k < path.last() ==> key(#[trigger] voice_at(s, k)) > key(voice_at(s, path.last())),
{
    let last = last_index(s);
    lemma_min_by_prefix(f, key, s, path, last);
    assert(path.last() == path_at(path, last));
}

impl<Id: Copy + Eq, Info: Copy> VoiceAlloc<Id, Info> {
    /// Whether the pool holds no more voices than it may, and its next note id is in range.
    pub open spec fn wf(&self) -> bool {
        &&& self@.0.len() <= self@.1
        &&& self@.2 < note_id_bound()
    }

    /// An empty pool that holds at most `count` voices.
    pub fn new(count: usize) -> (r: Self)
        requires
            count > 0,
        ensures
            r.wf(),
            r@ == (Seq::<Voice<Id, Info>>::empty(), count as nat, 0nat),
    {
        VoiceAlloc { voices: Vec::with_capacity(count), capacity: count, next_note_id: 0 }
    }

    /// The number of voices in use.
    pub fn current_polyphony(&self) -> (r: usize)
        ensures
            r == self@.0.len(),
    {
        self.voices.len()
    }

    /// Marks every voice as no longer wanted.
    pub fn deactivate_all(&mut self)
        requires
            old(self).wf(),
        ensures
            final(self).wf(),
            final(self)@.1 == old(self)@.1,
            final(self)@.2 == old(self)@.2,
            final(self)@.0.len() == old(self)@.0.len(),
            forall|i: int|
                0 <= i < old(self)@.0.len() ==> #[trigger] final(self)@.0[i] == with_active(
                    old(self)@.0[i],
                    false,
                ),
    {
        let n = self.voices.len();
        let mut i: usize = 0;
        while i < n
            invariant
                n == old(self)@.0.len(),
                self.voices@.len() == n,
                self.capacity == old(self)@.1,
                self.next_note_id == old(self)@.2,
                0 <= i <= n,
                forall|k: int| 0 <= k < i ==> #[trigger] self.voices@[k] == with_active(
                    old(self)@.0[k],
                    false,
                ),
                forall|k: int| i <= k < n ==> #[trigger] self.voices@[k] == old(self)@.0[k],
            decreases n - i,
        {
            let mut v = self.voices[i];
            v.active = false;
            self.voices.set(i, v);
            i = i + 1;
        }
    }

    /// Takes out the voices that are no longer wanted, in order; the others stay, in order.
    pub fn drain_inactive(&mut self) -> (r: Vec<Voice<Id, Info>>)
        requires
            old(self).wf(),
        ensures
            final(self).wf(),
            final(self)@.1 == old(self)@.1,
            final(self)@.2 == old(self)@.2,
            r@ == old(self)@.0.filter(|v: Voice<Id, Info>| !v.active),
            final(self)@.0 == old(self)@.0.filter(|v: Voice<Id, Info>| v.active),
    {
        let ghost orig = self.voices@;
        let mut kept: Vec<Voice<Id, Info>> = Vec::new();
        let mut drained: Vec<Voice<Id, Info>> = Vec::new();
        let n = self.voices.len();
        let mut i: usize = 0;
        while i < n
            invariant
                orig == old(self)@.0,
                self.voices@ == orig,
                n == orig.len(),
                0 <= i <= n,
                kept@ == orig.take(i as int).filter(|v: Voice<Id, Info>| v.active),
                drained@ == orig.take(i as int).filter(|v: Voice<Id, Info>| !v.active),
            decreases n - i,
        {
            let v = self.voices[i];
            proof {
                reveal_with_fuel(Seq::<_>::filter, 1);
                assert(orig.take(i + 1).drop_last() =~= orig.take(i as int));
            }
            if v.active {
                kept.push(v);
            } else {
                drained.push(v);
            }
            i = i + 1;
        }
        proof {
            assert(orig.take(n as int) =~= orig);
        }
        self.voices = kept;
        drained
    }

    /// Marks the first voice asked for by `id` as wanted again; `false` where there is none.
    pub fn activate(&mut self, id: Id) -> (r: bool)
        requires
            old(self).wf(),
        ensures
            final(self).wf(),
            final(self)@.1 == old(self)@.1,
            final(self)@.2 == old(self)@.2,
            r ==> exists|i: int|
                0 <= i < old(self)@.0.len() && final(self)@.0 == old(self)@.0.update(
                    i,
                    #[trigger] with_active(old(self)@.0[i], true),
                ) && (Id::obeys_eq_spec() ==> first_voice_of(old(self)@.0, id, i)),
            !r ==> final(self)@.0 == old(self)@.0,
            Id::obeys_eq_spec() ==> (r <==> exists|i: int|
                0 <= i < old(self)@.0.len() && voice_is(#[trigger] old(self)@.0[i], id)),
    {
        let n = self.voices.len();
        let mut i: usize = 0;
        while i < n
            invariant
                old(self).wf(),
                self.voices@ == old(self)@.0,
                self.capacity == old(self)@.1,
                self.next_note_id == old(self)@.2,
                n == self.voices@.len(),
                0 <= i <= n,
                Id::obeys_eq_spec() ==> forall|k: int|
                    0 <= k < i ==> !voice_is(#[trigger] self.voices@[k], id),
            decreases n - i,
        {
            if self.voices[i].id == id {
                let mut v = self.voices[i];
                v.active = true;
                self.voices.set(i, v);
                assert(Id::obeys_eq_spec() ==> first_voice_of(old(self)@.0, id, i as int));
                assert(v == with_active(old(self)@.0[i as int], true));
                assert(self.voices@ =~= old(self)@.0.update(
                    i as int,
                    with_active(old(self)@.0[i as int], true),
                ));
                return true;
            }
            i = i + 1;
        }
        false
    }

    fn new_voice(&mut self, id: Id, info: Info) -> (r: Voice<Id, Info>)
        requires
            old(self).wf(),
        ensures
            final(self).wf(),
            r == fresh_voice(id, info, old(self)@.2),
            final(self)@ == (old(self)@.0, old(self)@.1, next_note_id(old(self)@.2)),
    {
        let note_id = self.next_note_id;
        self.next_note_id = (self.next_note_id + 1) % 0x7fff_ffff;
        Voice { id, note_id, active: true, info }
    }

    /// Starts a new voice for `id`, or `None` where the pool is full.
    pub fn allocate(&mut self, id: Id, info: Info) -> (r: Option<Voice<Id, Info>>)
        requires
            old(self).wf(),
        ensures
            final(self).wf(),
            final(self)@.1 == old(self)@.1,
            r is Some <==> old(self)@.0.len() < old(self)@.1,
            match r {
                Some(v) => {
                    &&& v == fresh_voice(id, info, old(self)@.2)
                    &&& final(self)@.0 == old(self)@.0.push(v)
                    &&& final(self)@.2 == next_note_id(old(self)@.2)
                },
                None => final(self)@ == old(self)@,
            },
    {
        if self.voices.len() == self.capacity {
            return None;
        }
        let voice = self.new_voice(id, info);
        self.voices.push(voice);
        Some(voice)
    }

    /// Starts a new voice for `id` in the place of the voice that `f` orders lowest, chosen
    /// as `Iterator::min_by` chooses it (the first one where several tie), and returns the new
    /// voice and the one it replaced.
    pub fn steal(
        &mut self,
        id: Id,
        info: Info,
        f: impl Fn(&Voice<Id, Info>, &Voice<Id, Info>) -> Ordering,
    ) -> (r: (Voice<Id, Info>, Voice<Id, Info>))
        requires
            old(self).wf(),
            old(self)@.0.len() > 0,
            forall|a: &Voice<Id, Info>, b: &Voice<Id, Info>| f.requires((a, b)),
        ensures
            final(self).wf(),
            final(self)@.1 == old(self)@.1,
            final(self)@.2 == next_note_id(old(self)@.2),
            r.0 == fresh_voice(id, info, old(self)@.2),
            exists|path: Seq<usize>|
                #[trigger] min_by_path(f, old(self)@.0, path) && r.1 == voice_at(
                    old(self)@.0,
                    path.last(),
                ) && final(self)@.0 == replaced(old(self)@.0, path.last(), r.0),
    {
        let n = self.voices.len();
        let mut cur: usize = 0;
        let mut j: usize = 1;
        let ghost mut path: Seq<usize> = seq![0usize];
        while j < n
            invariant
                old(self).wf(),
                self.voices@ == old(self)@.0,
                self.capacity == old(self)@.1,
                self.next_note_id == old(self)@.2,
                n == self.voices@.len(),
                0 <= cur < j,
                j <= n,
                forall|a: &Voice<Id, Info>, b: &Voice<Id, Info>| f.requires((a, b)),
                path.len() == j,
                path_at(path, 0usize) == 0usize,
                path.last() == cur,
                forall|k: usize| 0 < k < j ==> #[trigger] steps_to(f, self.voices@, prev_at(path, k), k, path_at(path, k)),
            decreases n - j,
        {
            let o = f(&self.voices[cur], &self.voices[j]);
            let ghost before = path;
            proof {
                assert(f.ensures((&voice_at(self.voices@, cur), &voice_at(self.voices@, j)), o));
            }
            match o {
                Ordering::Greater => {
                    proof {
                        path = path.push(j);
                        assert(steps_to(f, self.voices@, cur, j, j));
                    }
                    cur = j;
                },
                _ => {
                    proof {
                        path = path.push(cur);
                        assert(steps_to(f, self.voices@, cur, j, cur));
                    }
                },
            }
            proof {
                assert(prev_at(path, j) == before.last());
                assert(path_at(path, j) == cur);
                assert(steps_to(f, self.voices@, prev_at(path, j), j, path_at(path, j)));
                assert forall|k: usize| 0 < k < j + 1 implies #[trigger] steps_to(f, self.voices@, prev_at(path, k), k, path_at(path, k)) by {
                    if k < j {
                        assert(prev_at(path, k) == prev_at(before, k));
                        assert(path_at(path, k) == path_at(before, k));
                    }
                }
            }
            j = j + 1;
        }
        let voice = self.new_voice(id, info);
        let old_voice = self.voices[cur];
        self.voices.set(cur, voice);
        proof {
            assert(min_by_path(f, old(self)@.0, path));
        }
        (voice, old_voice)
    }

    /// Takes out the first voice asked for by `id`, putting the last voice in its place; `None`
    /// where there is none.
    pub fn dealloc(&mut self, id: Id) -> (r: Option<Voice<Id, Info>>)
        requires
            old(self).wf(),
        ensures
            final(self).wf(),
            final(self)@.1 == old(self)@.1,
            final(self)@.2 == old(self)@.2,
            match r {
                Some(v) => exists|i: int|
                    0 <= i < old(self)@.0.len() && v == old(self)@.0[i] && final(self)@.0
                        == old(self)@.0.update(i, old(self)@.0.last()).drop_last() && (
                    Id::obeys_eq_spec() ==> first_voice_of(old(self)@.0, id, i)),
                None => final(self)@.0 == old(self)@.0,
            },
            Id::obeys_eq_spec() ==> (r is Some <==> exists|i: int|
                0 <= i < old(self)@.0.len() && voice_is(#[trigger] old(self)@.0[i], id)),
    {
        let n = self.voices.len();
        let mut i: usize = 0;
        while i < n
            invariant
                old(self).wf(),
                self.voices@ == old(self)@.0,
                self.capacity == old(self)@.1,
                self.next_note_id == old(self)@.2,
                n == self.voices@.len(),
                0 <= i <= n,
                Id::obeys_eq_spec() ==> forall|k: int|
                    0 <= k < i ==> !voice_is(#[trigger] self.voices@[k], id),
            decreases n - i,
        {
            if self.voices[i].id == id {
                let v = self.voices.swap_remove(i);
                return Some(v);
            }
            i = i + 1;
        }
        None
    }
}

/// Starting a voice for an id that has none and then taking out that id's voice leaves the
/// voices as they were.
pub proof fn lemma_allocate_then_dealloc<Id: PartialEq, Info>(
    voices: Seq<Voice<Id, Info>>,
    v: Voice<Id, Info>,
    id: Id,
    i: int,
)
    requires
        Id::obeys_eq_spec(),
        voice_is(v, id),
        forall|k: int| 0 <= k < voices.len() ==> !voice_is(#[trigger] voices[k], id),
        first_voice_of(voices.push(v), id, i),
    ensures
        i == voices.len(),
        voices.push(v).update(i, voices.push(v).last()).drop_last() == voices,
{
    let s = voices.push(v);
    if i < voices.len() {
        assert(s[i] == voices[i]);
    }
    assert(s.update(i, s.last()).drop_last() =~= voices);
}

} // verus!
