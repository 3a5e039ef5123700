//! The cursor of a scrollable list pane: which row is highlighted and which
//! row the visible window starts at.

use vstd::prelude::*;

verus! {

/// The highlighted row (an index into the list being shown, if any) and the
/// first visible row of a list pane.
pub struct ListCursor {
    pub selected: Option<usize>,
    pub offset: usize,
}

impl ListCursor {
    /// A cursor with nothing highlighted, at the top.
    pub fn new() -> (c: Self)
        ensures
            c.selected is None,
            c.offset == 0,
    {
        ListCursor { selected: None, offset: 0 }
    }

    /// Highlights the given row (or nothing), keeping the window.
    pub fn select(&mut self, idx: Option<usize>)
        ensures
            final(self).selected == idx,
            final(self).offset == old(self).offset,
    {
        self.selected = idx;
    }

    /// The highlighted row.
    pub fn selected(&self) -> (r: Option<usize>)
        ensures
            r == self.selected,
    {
        self.selected
    }

    /// The first visible row.
    pub fn offset(&self) -> (r: usize)
        ensures
            r == self.offset,
    {
        self.offset
    }

    /// Borrows the first visible row for assignment.
    pub fn offset_mut(&mut self) -> (r: &mut usize)
        ensures
            *r == old(self).offset,
            final(self).offset == *final(r),
            final(self).selected == old(self).selected,
    {
        &mut self.offset
    }
}

impl Clone for ListCursor {
    fn clone(&self) -> (res: Self)
        ensures
            res == *self,
    {
        ListCursor { selected: self.selected, offset: self.offset }
    }
}

/// Whether two optional indices differ.
pub fn opt_usize_neq(a: Option<usize>, b: Option<usize>) -> (r: bool)
    ensures
        r == (a != b),
{
    match (a, b) {
        (None, None) => false,
        (Some(x), Some(y)) => x != y,
        _ => true,
    }
}

} // verus!
