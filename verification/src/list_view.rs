//! The paginated flat list: an ordered sequence of rows with a clamped
//! selection index and scroll offset.

use vstd::prelude::*;

verus! {

/// An ordered list of rows with a selection and a scroll offset, both kept
/// inside the list's bounds whenever it is not empty.
pub struct ListView<T> {
    pub items: Vec<T>,
    pub offset: usize,
    pub selected: usize,
}

impl<T> ListView<T> {
    /// The view's invariant: when the list is empty, selection and offset
    /// rest at zero; otherwise both lie strictly inside the bounds.
    pub open spec fn wf(&self) -> bool {
        if self.items@.len() == 0 {
            self.selected == 0 && self.offset == 0
        } else {
            self.selected < self.items@.len() && self.offset < self.items@.len()
        }
    }

    /// The selected row's index: nothing when empty, otherwise the stored
    /// selection clamped to the last row.
    pub open spec fn spec_selected_index(&self) -> Option<usize> {
        if self.items@.len() == 0 {
            None
        } else if self.selected < self.items@.len() {
            Some(self.selected)
        } else {
            Some((self.items@.len() - 1) as usize)
        }
    }

    /// The effective scroll offset: never past the selected row.
    pub open spec fn spec_offset(&self) -> usize {
        if self.items@.len() == 0 {
            0
        } else if self.offset < self.spec_selected_index()->Some_0 {
            self.offset
        } else {
            self.spec_selected_index()->Some_0
        }
    }

    pub fn new(items: Vec<T>) -> (r: ListView<T>)
        ensures
            r.items@ == items@,
            r.selected == 0,
            r.offset == 0,
            r.wf(),
    {
        ListView { items, offset: 0, selected: 0 }
    }

    /// Appends rows at the end; the stored selection and offset stay as
    /// they are, so a non-empty view keeps its selected index.
    pub fn extend(&mut self, items: Vec<T>)
        requires
            old(self).wf(),
        ensures
            final(self).items@ == old(self).items@ + items@,
            final(self).selected == old(self).selected,
            final(self).offset == old(self).offset,
            final(self).wf(),
            old(self).items@.len() > 0 ==> final(self).spec_selected_index() == old(self).spec_selected_index(),
            old(self).items@.len() == 0 && items@.len() > 0 ==> final(self).spec_selected_index()
                == Some(0usize),
            old(self).items@.len() == 0 && items@.len() == 0 ==> final(self).spec_selected_index() is None,
    {
        let mut rest = items;
        let ghost added = rest@;
        proof {
            assert(self.items@ + rest@ =~= old(self).items@ + added);
        }
        while rest.len() > 0
            invariant
                self.items@ + rest@ == old(self).items@ + added,
                self.selected == old(self).selected,
                self.offset == old(self).offset,
            decreases rest@.len(),
        {
            let x = rest.remove(0);
            self.items.push(x);
            proof {
                assert(self.items@ + rest@ =~= old(self).items@ + added);
            }
        }
        proof {
            assert(self.items@ =~= self.items@ + rest@);
        }
    }

    pub fn is_empty(&self) -> (r: bool)
        ensures
            r == (self.items@.len() == 0),
    {
        self.items.len() == 0
    }

    pub fn items(&self) -> (r: &Vec<T>)
        ensures
            r@ == self.items@,
    {
        &self.items
    }

    pub fn len(&self) -> (r: usize)
        ensures
            r == self.items@.len(),
    {
        self.items.len()
    }

    /// The effective scroll offset, clamped to the selected row.
    pub fn offset(&self) -> (r: usize)
        ensures
            r == self.spec_offset(),
    {
        if self.items.len() == 0 {
            0
        } else {
            let selected = match self.selected_index() {
                Some(i) => i,
                None => 0,
            };
            if self.offset < selected {
                self.offset
            } else {
                selected
            }
        }
    }

    /// The selected row's index, clamped into bounds; nothing when empty.
    pub fn selected_index(&self) -> (r: Option<usize>)
        ensures
            r == self.spec_selected_index(),
    {
        if self.items.len() == 0 {
            None
        } else if self.selected < self.items.len() {
            Some(self.selected)
        } else {
            Some(self.items.len() - 1)
        }
    }

    /// The selected row itself, when there is one.
    pub fn selected_item(&self) -> (r: Option<&T>)
        ensures
            self.items@.len() == 0 ==> r is None,
            self.items@.len() > 0 ==> (r matches Some(x) && x == &self.items@[self.spec_selected_index()->Some_0 as int]),
    {
        match self.selected_index() {
            Some(index) => Some(&self.items[index]),
            None => None,
        }
    }

    /// The stored selection before clamping.
    pub fn selected_raw(&self) -> (r: usize)
        ensures
            r == self.selected,
    {
        self.selected
    }

    /// Moves the scroll offset, clamped to the last row; zero when empty.
    pub fn set_offset(&mut self, offset: usize)
        ensures
            final(self).items == old(self).items,
            final(self).selected == old(self).selected,
            final(self).offset == if old(self).items@.len() == 0 {
                0usize
            } else if offset < old(self).items@.len() {
                offset
            } else {
                (old(self).items@.len() - 1) as usize
            },
            old(self).wf() ==> final(self).wf(),
    {
        if self.items.len() == 0 {
            self.offset = 0;
        } else {
            let max_offset = self.items.len() - 1;
            self.offset = if offset < max_offset {
                offset
            } else {
                max_offset
            };
        }
    }

    /// Moves the selection, clamped to the last row; after the call the
    /// selected index is the requested one or the last row, and nothing
    /// when the list is empty.
    pub fn set_selected(&mut self, index: usize)
        ensures
            final(self).items == old(self).items,
            final(self).offset == old(self).offset,
            final(self).selected == if old(self).items@.len() == 0 {
                0usize
            } else if index < old(self).items@.len() {
                index
            } else {
                (old(self).items@.len() - 1) as usize
            },
            old(self).wf() ==> final(self).wf(),
            final(self).spec_selected_index() == if old(self).items@.len() == 0 {
                Option::<usize>::None
            } else if index < old(self).items@.len() {
                Some(index)
            } else {
                Some((old(self).items@.len() - 1) as usize)
            },
    {
        if self.items.len() == 0 {
            self.selected = 0;
        } else {
            let max_index = self.items.len() - 1;
            self.selected = if index < max_index {
                index
            } else {
                max_index
            };
        }
    }
}

impl<T> Default for ListView<T> {
    /// An empty view with selection and offset at zero.
    fn default() -> (r: Self)
        ensures
            r.items@.len() == 0,
            r.selected == 0,
            r.offset == 0,
            r.wf(),
    {
        ListView { items: Vec::new(), offset: 0, selected: 0 }
    }
}

} // verus!
