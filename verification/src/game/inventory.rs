//! The inventory screen's cursor and the window of rows it scrolls.

use vstd::prelude::*;

verus! {

/// The rows of the inventory that are visible at once.
pub const VISIBLE_ROWS: usize = 6;

/// The inventory screen: the item under the cursor and the first visible
/// row.
#[derive(Debug, Clone, Copy, PartialEq, Eq, Structural)]
pub struct InventoryState {
    pub selected: usize,
    pub scroll: usize,
}

impl InventoryState {
    /// The screen with the cursor one row up, if there is one; the window
    /// follows a cursor that leaves it at the top.
    pub open spec fn moved_up(self) -> InventoryState {
        if self.selected > 0 {
            let selected = (self.selected - 1) as usize;
            InventoryState {
                selected,
                scroll: if selected < self.scroll {
                    selected
                } else {
                    self.scroll
                },
            }
        } else {
            self
        }
    }

    /// The screen with the cursor one row down in a list of `item_count`
    /// rows, if there is one; the window follows a cursor that leaves it
    /// at the bottom.
    pub open spec fn moved_down(self, item_count: usize) -> InventoryState {
        if item_count > 0 && self.selected < item_count - 1 {
            let selected = (self.selected + 1) as usize;
            InventoryState {
                selected,
                scroll: if selected >= self.scroll + VISIBLE_ROWS {
                    (selected - (VISIBLE_ROWS - 1)) as usize
                } else {
                    self.scroll
                },
            }
        } else {
            self
        }
    }

    pub fn move_up(&mut self)
        ensures
            *final(self) == old(self).moved_up(),
    {
        if self.selected > 0 {
            self.selected -= 1;
            if self.selected < self.scroll {
                self.scroll = self.selected;
            }
        }
    }

    pub fn move_down(&mut self, item_count: usize)
        ensures
            *final(self) == old(self).moved_down(item_count),
    {
        if item_count > 0 && self.selected < item_count - 1 {
            self.selected += 1;
            if self.selected >= VISIBLE_ROWS && self.selected - VISIBLE_ROWS >= self.scroll {
                self.scroll = self.selected - (VISIBLE_ROWS - 1);
            }
        }
    }
}

impl Default for InventoryState {
    fn default() -> (r: Self)
        ensures
            r == (InventoryState { selected: 0, scroll: 0 }),
    {
        InventoryState { selected: 0, scroll: 0 }
    }
}

} // verus!
