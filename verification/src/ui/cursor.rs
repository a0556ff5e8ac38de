//! The cell that marks the cursor of a text area.

use vstd::prelude::*;

verus! {

/// The place of a cursor in a text, in columns and rows, and the scroll
/// offset of the area that shows the text.
#[derive(Clone, Copy, Debug)]
pub struct Cursor {
    position: (u16, u16),
    scroll: (u16, u16),
}

impl Default for Cursor {
    fn default() -> (r: Self)
        ensures
            r.column() == 0,
            r.row() == 0,
            r.scrolled_columns() == 0,
            r.scrolled_rows() == 0,
    {
        Cursor { position: (0, 0), scroll: (0, 0) }
    }
}

impl Cursor {
    /// Column of the cursor in the text.
    pub closed spec fn column(&self) -> u16 {
        self.position.0
    }

    /// Row of the cursor in the text.
    pub closed spec fn row(&self) -> u16 {
        self.position.1
    }

    /// Columns that the area has scrolled.
    pub closed spec fn scrolled_columns(&self) -> u16 {
        self.scroll.0
    }

    /// Rows that the area has scrolled.
    pub closed spec fn scrolled_rows(&self) -> u16 {
        self.scroll.1
    }

    pub fn position(self, x: u16, y: u16) -> (r: Self)
        ensures
            r.column() == x,
            r.row() == y,
            r.scrolled_columns() == self.scrolled_columns(),
            r.scrolled_rows() == self.scrolled_rows(),
    {
        Cursor { position: (x, y), scroll: self.scroll }
    }

    /// Sets the scroll offset. The rows come first, as in the scroll
    /// offset of a paragraph.
    pub fn scroll(self, y: u16, x: u16) -> (r: Self)
        ensures
            r.scrolled_columns() == x,
            r.scrolled_rows() == y,
            r.column() == self.column(),
            r.row() == self.row(),
    {
        Cursor { position: self.position, scroll: (x, y) }
    }

    /// The cell of the screen that shows the cursor, for an area whose
    /// first cell is at column `area_x` and row `area_y`: the cursor's
    /// place, moved by the area's origin and back by the scroll offset.
    /// There is none where that leaves the sixteen bits of a coordinate.
    pub fn cell(&self, area_x: u16, area_y: u16) -> (r: Option<(u16, u16)>)
        ensures
            ({
                let x = area_x + self.column() - self.scrolled_columns();
                let y = area_y + self.row() - self.scrolled_rows();
                let fits = area_x + self.column() <= u16::MAX && area_y + self.row() <= u16::MAX
                    && x >= 0 && y >= 0;
                &&& r is Some <==> fits
                &&& fits ==> r == Some((x as u16, y as u16))
            }),
    {
        if self.position.0 > u16::MAX - area_x || self.position.1 > u16::MAX - area_y {
            return None;
        }
        let x: u16 = area_x + self.position.0;
        let y: u16 = area_y + self.position.1;
        if x < self.scroll.0 || y < self.scroll.1 {
            return None;
        }
        Some((x - self.scroll.0, y - self.scroll.1))
    }
}

} // verus!
