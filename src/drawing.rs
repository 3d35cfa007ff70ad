//! Screen geometry: the size of the columns and the bars above and below.
use vstd::prelude::*;

verus! {

pub type Coord = i32;

/// A one-line bar filled with texts from both ends.
pub struct Bar {
    pub y: Coord,
    pub ready_left: Coord,
    pub ready_right: Coord,
}

impl Bar {
    pub fn with_y_and_width(y: Coord, width: Coord) -> (r: Bar)
        ensures
            r == (Bar { y, ready_left: 0, ready_right: width }),
    {
        Bar { y, ready_left: 0, ready_right: width }
    }

    /// The cells still free between the texts on the left and on the right.
    pub fn free_space(&self) -> (r: usize)
        requires
            0 <= self.ready_left <= self.ready_right + 1,
        ensures
            r == self.ready_right - self.ready_left + 1,
    {
        let d: i64 = self.ready_right as i64 - self.ready_left as i64 + 1;
        d as usize
    }

    /// Whether the bar can place a text: its free cells are counted from
    /// a left edge that has not passed the right one.
    pub open spec fn placeable(&self, padding: Coord) -> bool {
        0 <= self.ready_left <= self.ready_right + 1 && self.ready_right < 1000000 && 0 <= padding <= 1000
    }

    /// Takes room on the left for a text of `len` characters: returns the
    /// column to write at and how many characters fit there.
    pub fn take_left(&mut self, len: usize, padding: Coord) -> (r: (Coord, usize))
        requires
            old(self).placeable(padding),
        ensures
            r.0 == old(self).ready_left,
            r.1 == if len <= old(self).free_space_spec() { len as int } else { old(self).free_space_spec() },
            final(self).ready_left == old(self).ready_left + r.1 + padding,
            final(self).ready_right == old(self).ready_right,
            final(self).y == old(self).y,
    {
        let free = self.free_space();
        let shown = if len > free { free } else { len };
        let x = self.ready_left;
        self.ready_left = self.ready_left + shown as Coord + padding;
        (x, shown)
    }

    /// Takes room on the right for a text of `len` characters: returns the
    /// column to write at and how many characters fit there.
    pub fn take_right(&mut self, len: usize, padding: Coord) -> (r: (Coord, usize))
        requires
            old(self).placeable(padding),
        ensures
            r.1 == if len <= old(self).free_space_spec() { len as int } else { old(self).free_space_spec() },
            r.0 == old(self).ready_right - r.1,
            final(self).ready_right == old(self).ready_right - r.1 - padding,
            final(self).ready_left == old(self).ready_left,
            final(self).y == old(self).y,
    {
        let free = self.free_space();
        let shown = if len > free { free } else { len };
        let x = self.ready_right - shown as Coord;
        self.ready_right = x - padding;
        (x, shown)
    }

    pub open spec fn free_space_spec(&self) -> int {
        self.ready_right - self.ready_left + 1
    }
}

pub struct DisplaySettings {
    pub height: Coord,
    pub width: Coord,
    pub columns_coord: Vec<(Coord, Coord)>,
    pub scrolling_gap: usize,
    pub column_effective_height: usize,
    pub entries_display_begin: Coord,
}

impl DisplaySettings {
    /// A gap around the cursor that the columns can hold.
    pub open spec fn wf(&self) -> bool {
        2 * self.scrolling_gap < self.column_effective_height
    }

    /// The settings for a screen of the given size: the columns lose two
    /// rows of border and two of padding, and the scrolling gap shrinks
    /// until it fits.
    pub fn from_dimensions(height: Coord, width: Coord, scrolling_gap: usize, columns_coord: Vec<(Coord, Coord)>) -> (r: DisplaySettings)
        requires
            height >= 5,
        ensures
            r.wf(),
            r.height == height,
            r.width == width,
            r.columns_coord == columns_coord,
            r.column_effective_height == height - 4,
            r.scrolling_gap == gap_that_fits(scrolling_gap as int, height - 4),
            r.entries_display_begin == 2,
    {
        let column_effective_height = (height - 4) as usize;
        let scrolling_gap = DisplaySettings::resize_scrolling_gap_until_fits(scrolling_gap, column_effective_height);
        DisplaySettings {
            height,
            width,
            columns_coord,
            scrolling_gap,
            column_effective_height,
            entries_display_begin: 2,
        }
    }

    /// The largest gap up to `gap` whose double is less than the height.
    pub fn resize_scrolling_gap_until_fits(gap: usize, column_effective_height: usize) -> (r: usize)
        requires
            column_effective_height >= 1,
        ensures
            r == gap_that_fits(gap as int, column_effective_height as int),
            2 * r < column_effective_height,
    {
        let ghost g0 = gap;
        let mut gap = gap;
        while 2 * (gap as u128) >= column_effective_height as u128
            invariant
                gap_that_fits(gap as int, column_effective_height as int) == gap_that_fits(
                    g0 as int,
                    column_effective_height as int,
                ),
                column_effective_height >= 1,
            decreases gap,
        {
            gap = gap - 1;
        }
        gap
    }

    /// The width of a column.
    pub fn column_width(&self, column_index: usize) -> (r: usize)
        requires
            column_index < self.columns_coord@.len(),
            self.columns_coord@[column_index as int].0 <= self.columns_coord@[column_index as int].1,
        ensures
            r == self.columns_coord@[column_index as int].1 - self.columns_coord@[column_index as int].0,
    {
        let (begin, end) = self.columns_coord[column_index];
        (end as i64 - begin as i64) as usize
    }
}

pub open spec fn gap_that_fits(gap: int, height: int) -> int
    decreases gap,
{
    if gap <= 0 || 2 * gap < height {
        gap
    } else {
        gap_that_fits(gap - 1, height)
    }
}

} // verus!
