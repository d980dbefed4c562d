use vstd::prelude::*;

use std::collections::HashMap;

verus! {

broadcast use vstd::std_specs::hash::group_hash_axioms;

/// Tracks, for each currently-sounding incoming pitch, the outgoing pitch it
/// was mapped to, so that a note-off resolves to the same outgoing pitch as
/// its note-on even if the scale changed in between. An entry exists exactly
/// while a note-on for its incoming pitch has been forwarded and no matching
/// note-off has been processed yet.
pub struct ActiveNoteTable {
    notes: HashMap<u8, u8>,
}

impl View for ActiveNoteTable {
    type V = Map<u8, u8>;

    closed spec fn view(&self) -> Map<u8, u8> {
        self.notes@
    }
}

impl ActiveNoteTable {
    /// A table created at engine startup, with no sounding notes.
    pub fn new() -> (t: ActiveNoteTable)
        ensures
            t@ == Map::<u8, u8>::empty(),
    {
        ActiveNoteTable { notes: HashMap::new() }
    }

    /// Records that `incoming` now sounds as `outgoing`. Unconditionally
    /// inserts or overwrites the entry: re-pressing a key before its release
    /// replaces the mapping, last press wins.
    pub fn on_note_on(&mut self, incoming: u8, outgoing: u8)
        ensures
            final(self)@ == old(self)@.insert(incoming, outgoing),
    {
        self.notes.insert(incoming, outgoing);
    }

    /// Removes and returns the entry for `incoming` if one exists, else
    /// returns nothing — the note-off is then suppressed, which is the right
    /// action when the originating note-on was itself suppressed or the table
    /// was cleared while the note was sounding.
    pub fn on_note_off(&mut self, incoming: u8) -> (r: Option<u8>)
        ensures
            final(self)@ == old(self)@.remove(incoming),
            r == (if old(self)@.contains_key(incoming) {
                Some(old(self)@[incoming])
            } else {
                None::<u8>
            }),
    {
        self.notes.remove(&incoming)
    }

    /// Removes all entries; notes still held at this moment become untracked,
    /// so their eventual note-off will be suppressed.
    pub fn clear(&mut self)
        ensures
            final(self)@ == Map::<u8, u8>::empty(),
    {
        self.notes.clear();
    }

    /// The outgoing pitch `incoming` currently sounds as, without removing it.
    pub fn lookup(&self, incoming: u8) -> (r: Option<u8>)
        ensures
            r == (if self@.contains_key(incoming) {
                Some(self@[incoming])
            } else {
                None::<u8>
            }),
    {
        match self.notes.get(&incoming) {
            Some(outgoing) => Some(*outgoing),
            None => None,
        }
    }

    /// The number of currently-sounding notes.
    pub fn len(&self) -> (n: usize)
        ensures
            n == self@.len(),
    {
        self.notes.len()
    }

    /// Whether no note is currently sounding.
    pub fn is_empty(&self) -> (r: bool)
        ensures
            r == self@.is_empty(),
    {
        self.notes.is_empty()
    }
}

} // verus!
