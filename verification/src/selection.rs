use vstd::prelude::*;
use std::collections::HashSet;

verus! {

/// Where the selected clip `(track, clip)` ends up once the track `removed_track` is removed
/// (where `removed_clip` is `None`) or the clip `removed_clip` of that track is removed:
/// `None` where the selection itself goes; otherwise it moves up by one where what was removed
/// came before it.
pub open spec fn update_selection_spec(
    selected: (usize, usize),
    removed_track: usize,
    removed_clip: Option<usize>,
) -> Option<(usize, usize)> {
    let (ct, cc) = selected;
    match removed_clip {
        Some(clip) if ct == removed_track => if cc == clip {
            None
        } else if cc < clip {
            Some((ct, cc))
        } else {
            Some((ct, (cc - 1) as usize))
        },
        _ => if ct == removed_track {
            None
        } else if ct < removed_track {
            Some((ct, cc))
        } else {
            Some(((ct - 1) as usize, cc))
        },
    }
}

/// The selected clip after a track or one of its clips is removed.
pub fn update_selection(
    selected: (usize, usize),
    track: usize,
    clip: Option<usize>,
) -> (r: Option<(usize, usize)>)
    ensures
        r == update_selection_spec(selected, track, clip),
{
    let (ct, cc) = selected;
    match clip {
        Some(clip) if ct == track => {
            if cc == clip {
                None
            } else if cc < clip {
                Some((ct, cc))
            } else {
                Some((ct, cc - 1))
            }
        },
        _ => {
            if ct == track {
                None
            } else if ct < track {
                Some((ct, cc))
            } else {
                Some((ct - 1, cc))
            }
        },
    }
}

/// The items among the first `j` whose index is not selected, in order.
pub open spec fn without<T>(s: Seq<T>, selected: Set<usize>, j: nat) -> Seq<T>
    decreases j,
{
    if j == 0 {
        Seq::empty()
    } else {
        let r = without(s, selected, (j - 1) as nat);
        if selected.contains((j - 1) as usize) {
            r
        } else {
            r.push(s[j - 1])
        }
    }
}

/// How many of the indices below `j` are selected.
pub open spec fn count_below(selected: Set<usize>, j: nat) -> nat
    decreases j,
{
    if j == 0 {
        0
    } else {
        count_below(selected, (j - 1) as nat) + if selected.contains((j - 1) as usize) { 1nat } else { 0nat }
    }
}

/// Removes the items whose index is selected, keeping the others in order.
pub fn remove_selected<T: Copy>(items: &mut Vec<T>, selected: &HashSet<usize>)
    ensures
        final(items)@ == without(old(items)@, selected@, old(items)@.len()),
{
    broadcast use vstd::std_specs::hash::group_hash_axioms;

    let n = items.len();
    let mut kept: Vec<T> = Vec::new();
    let mut i: usize = 0;
    while i < n
        invariant
            n == items@.len(),
            items@ == old(items)@,
            0 <= i <= n,
            kept@ == without(old(items)@, selected@, i as nat),
        decreases n - i,
    {
        if !selected.contains(&i) {
            kept.push(items[i]);
        }
        i = i + 1;
    }
    *items = kept;
}

/// Where the selected clip `(track, clip)` ends up once the clips `removed` of the track
/// `track_removed` are removed: `None` where it is one of them; otherwise it moves up by the
/// number of removed clips before it on its track.
pub fn selection_after_removing(
    selected: (usize, usize),
    track_removed: usize,
    removed: &HashSet<usize>,
) -> (r: Option<(usize, usize)>)
    ensures
        r == if selected.0 != track_removed {
            Some(selected)
        } else if removed@.contains(selected.1) {
            None
        } else {
            Some((selected.0, (selected.1 - count_below(removed@, selected.1 as nat)) as usize))
        },
{
    broadcast use vstd::std_specs::hash::group_hash_axioms;

    if selected.0 != track_removed {
        return Some(selected);
    }
    if removed.contains(&selected.1) {
        return None;
    }
    let mut below: usize = 0;
    let mut i: usize = 0;
    while i < selected.1
        invariant
            0 <= i <= selected.1,
            below == count_below(removed@, i as nat),
            below <= i,
        decreases selected.1 - i,
    {
        if removed.contains(&i) {
            below = below + 1;
        }
        i = i + 1;
    }
    Some((selected.0, selected.1 - below))
}

/// Leaving out the selected items commutes with mapping the items.
pub(crate) proof fn lemma_without_map<T, U>(s: Seq<T>, f: spec_fn(T) -> U, selected: Set<usize>, j: nat)
    requires
        j <= s.len(),
    ensures
        without(s.map_values(f), selected, j) == without(s, selected, j).map_values(f),
    decreases j,
{
    if j > 0 {
        lemma_without_map(s, f, selected, (j - 1) as nat);
        let r = without(s, selected, (j - 1) as nat);
        assert(r.push(s[j - 1]).map_values(f) =~= r.map_values(f).push(f(s[j - 1])));
    } else {
        assert(Seq::<T>::empty().map_values(f) =~= Seq::<U>::empty());
    }
}

} // verus!
