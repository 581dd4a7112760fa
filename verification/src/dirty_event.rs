use vstd::prelude::*;

verus! {

/// What last changed in a pattern's notes.
#[derive(Clone, Copy, Debug, Default, PartialEq, Eq, Structural)]
pub enum DirtyEvent {
    #[default]
    Unchanged,
    NoteAdded,
    NoteRemoved,
    NoteReplaced,
}

} // verus!
