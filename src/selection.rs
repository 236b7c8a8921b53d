//! The selected row of a list on screen.
use vstd::prelude::*;

verus! {

/// Index of the selected row, if any.
#[derive(Clone, Copy, Debug, Default, PartialEq, Eq, Structural)]
pub struct Selection {
    pub selected: Option<usize>,
}

/// The selection after moving down in a list of `count` rows: the first row
/// when nothing is selected, no move past the last row.
pub open spec fn next_spec(sel: Option<usize>, count: usize) -> Option<usize> {
    match sel {
        None => if count > 0 {
            Some(0usize)
        } else {
            None
        },
        Some(i) => if i + 1 < count {
            Some((i + 1) as usize)
        } else {
            Some(i)
        },
    }
}

/// The selection after moving up: the first row when nothing is selected,
/// no move before the first row.
pub open spec fn previous_spec(sel: Option<usize>, count: usize) -> Option<usize> {
    match sel {
        None => if count > 0 {
            Some(0usize)
        } else {
            None
        },
        Some(i) => if i > 0 {
            Some((i - 1) as usize)
        } else {
            Some(i)
        },
    }
}

/// The selection after row `ix` is removed: cleared if it was that row,
/// moved up with its row if it was below it.
pub open spec fn removal_spec(sel: Option<usize>, ix: usize) -> Option<usize> {
    match sel {
        None => None,
        Some(i) => if i == ix {
            None
        } else if i > ix {
            Some((i - 1) as usize)
        } else {
            Some(i)
        },
    }
}

impl Selection {
    pub fn new() -> (r: Selection)
        ensures
            r.selected is None,
    {
        Selection { selected: None }
    }

    pub fn selected(&self) -> (r: Option<usize>)
        ensures
            r == self.selected,
    {
        self.selected
    }

    pub fn select(&mut self, ix: Option<usize>)
        ensures
            final(self).selected == ix,
    {
        self.selected = ix;
    }

    /// Moves down in a list of `count` rows.
    pub fn select_next(&mut self, count: usize)
        ensures
            final(self).selected == next_spec(old(self).selected, count),
    {
        self.selected = match self.selected {
            None => if count > 0 {
                Some(0)
            } else {
                None
            },
            Some(i) => if i < count && i + 1 < count {
                Some(i + 1)
            } else {
                Some(i)
            },
        };
    }

    /// Moves up in a list of `count` rows.
    pub fn select_previous(&mut self, count: usize)
        ensures
            final(self).selected == previous_spec(old(self).selected, count),
    {
        self.selected = match self.selected {
            None => if count > 0 {
                Some(0)
            } else {
                None
            },
            Some(i) => if i > 0 {
                Some(i - 1)
            } else {
                Some(i)
            },
        };
    }

    /// Follows the removal of row `ix`.
    pub fn remove_row(&mut self, ix: usize)
        ensures
            final(self).selected == removal_spec(old(self).selected, ix),
    {
        self.selected = match self.selected {
            None => None,
            Some(i) => if i == ix {
                None
            } else if i > ix {
                Some(i - 1)
            } else {
                Some(i)
            },
        };
    }
}

} // verus!
