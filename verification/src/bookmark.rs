//! The saved entries: an ordered list keyed by entry id, newest first.
//! Loading and writing the backing file happen outside; this holds the
//! membership logic.

use vstd::prelude::*;
use crate::entry::ListEntry;

verus! {

/// Whether some entry in the list carries the given id.
pub open spec fn spec_has_id(s: Seq<ListEntry>, id: Seq<char>) -> bool {
    exists|j: int| 0 <= j < s.len() && #[trigger] s[j].id@ == id
}

/// The saved entries, newest first, ids unique by construction of
/// `toggle`.
pub struct Bookmarks {
    entries: Vec<ListEntry>,
}

impl Bookmarks {
    /// The stored rows.
    pub closed spec fn rows(&self) -> Seq<ListEntry> {
        self.entries@
    }

    /// Wraps an already loaded list of saved entries.
    pub fn new(entries: Vec<ListEntry>) -> (r: Bookmarks)
        ensures
            r.rows() == entries@,
    {
        Bookmarks { entries }
    }

    /// The saved rows, newest first.
    pub fn entries(&self) -> (r: &Vec<ListEntry>)
        ensures
            r@ == self.rows(),
    {
        &self.entries
    }

    /// A copy of the saved rows.
    pub fn entries_vec(&self) -> (r: Vec<ListEntry>)
        ensures
            r@ == self.rows(),
    {
        let mut r: Vec<ListEntry> = Vec::new();
        let mut i: usize = 0;
        while i < self.entries.len()
            invariant
                i <= self.entries@.len(),
                r@ == self.entries@.take(i as int),
            decreases self.entries@.len() - i,
        {
            r.push(self.entries[i].clone());
            i = i + 1;
            proof {
                assert(r@ =~= self.entries@.take(i as int));
            }
        }
        proof {
            assert(r@ =~= self.entries@);
        }
        r
    }

    /// Whether nothing is saved.
    pub fn is_empty(&self) -> (r: bool)
        ensures
            r == (self.rows().len() == 0),
    {
        self.entries.len() == 0
    }

    /// Removes the entry with the given id, if present; says whether one
    /// was removed.
    pub fn remove(&mut self, id: &str) -> (r: bool)
        ensures
            r == spec_has_id(old(self).rows(), id@),
            !r ==> final(self).rows() == old(self).rows(),
            r ==> (exists|pos: int|
                0 <= pos < old(self).rows().len() && #[trigger] old(self).rows()[pos].id@ == id@
                    && (forall|j: int| 0 <= j < pos ==> #[trigger] old(self).rows()[j].id@ != id@)
                    && final(self).rows() == old(self).rows().subrange(0, pos) + old(self).rows().skip(pos + 1)),
    {
        let mut i: usize = 0;
        while i < self.entries.len()
            invariant
                i <= self.entries@.len(),
                self.entries@ == old(self).entries@,
                forall|j: int| 0 <= j < i ==> #[trigger] self.entries@[j].id@ != id@,
            decreases self.entries@.len() - i,
        {
            if crate::text::str_eq(self.entries[i].id.as_str(), id) {
                let ghost pre = self.entries@;
                self.entries.remove(i);
                proof {
                    assert(self.entries@ =~= pre.subrange(0, i as int) + pre.skip(i + 1));
                    assert(pre[i as int].id@ == id@);
                }
                return true;
            }
            i = i + 1;
        }
        proof {
            if spec_has_id(self.entries@, id@) {
                let j = choose|j: int|
                    0 <= j < self.entries@.len() && #[trigger] self.entries@[j].id@ == id@;
                assert(self.entries@[j].id@ != id@);
            }
        }
        false
    }

    /// Toggles an entry: removes it when its id is saved, otherwise saves
    /// a copy in front.  Says whether the entry is now present.
    pub fn toggle(&mut self, entry: &ListEntry) -> (r: bool)
        ensures
            r == !spec_has_id(old(self).rows(), entry.id@),
            r ==> final(self).rows() == seq![*entry] + old(self).rows(),
            !r ==> (exists|pos: int|
                0 <= pos < old(self).rows().len() && #[trigger] old(self).rows()[pos].id@
                    == entry.id@ && final(self).rows() == old(self).rows().subrange(0, pos) + old(self).rows().skip(pos + 1)),
    {
        if self.has_id(entry.id.as_str()) {
            self.remove(entry.id.as_str());
            false
        } else {
            let ghost pre = self.entries@;
            self.entries.insert(0, entry.clone());
            proof {
                assert(self.entries@.skip(1) =~= pre);
            }
            true
        }
    }

    fn has_id(&self, id: &str) -> (r: bool)
        ensures
            r == spec_has_id(self.rows(), id@),
    {
        let mut i: usize = 0;
        while i < self.entries.len()
            invariant
                i <= self.entries@.len(),
                forall|j: int| 0 <= j < i ==> #[trigger] self.entries@[j].id@ != id@,
            decreases self.entries@.len() - i,
        {
            if crate::text::str_eq(self.entries[i].id.as_str(), id) {
                return true;
            }
            i = i + 1;
        }
        proof {
            if spec_has_id(self.entries@, id@) {
                let j = choose|j: int|
                    0 <= j < self.entries@.len() && #[trigger] self.entries@[j].id@ == id@;
                assert(self.entries@[j].id@ != id@);
            }
        }
        false
    }
}

} // verus!
