//! Screen geometry: the width of the file list, and where the auto-scroll
//! moves the text cursor.

use vstd::prelude::*;

verus! {

/// Width of the file list column when it is shown.
pub const FILE_LIST_WIDTH: u16 = 20;

/// A rectangle of the screen, in terminal cells.
#[derive(Clone, Copy, Debug, PartialEq, Eq, Structural)]
pub struct Area {
    pub x: u16,
    pub y: u16,
    pub width: u16,
    pub height: u16,
}

/// The first row below the area, clamped to the largest row number.
pub open spec fn spec_bottom(area: Area) -> int {
    if area.y + area.height <= u16::MAX {
        area.y + area.height
    } else {
        u16::MAX as int
    }
}

impl Area {
    /// The first row below the area, clamped to the largest row number (as
    /// ratatui's `Rect::bottom`).
    pub fn bottom(&self) -> (b: u16)
        ensures
            b == spec_bottom(*self),
    {
        self.y.saturating_add(self.height)
    }
}

/// Width of the file list column: the fixed width while the list is shown,
/// nothing while it is hidden.
pub fn file_list_width(show_files: bool) -> (w: u16)
    ensures
        w == (if show_files { FILE_LIST_WIDTH } else { 0 }),
{
    if show_files {
        FILE_LIST_WIDTH
    } else {
        0
    }
}

/// The row the text cursor is on: the cursor's row when the text area shows
/// a cursor, else the area's top row.
pub open spec fn cursor_row(cursor: Option<(u16, u16)>, area: Area) -> int {
    match cursor {
        Some(c) => c.1 as int,
        None => area.y as int,
    }
}

/// The row the auto-scroll step starts from: the last visible row when the
/// cursor is above it, else the cursor's row.
pub open spec fn scroll_from_row(cursor: Option<(u16, u16)>, area: Area) -> int {
    let row = cursor_row(cursor, area);
    if row + 1 < spec_bottom(area) {
        spec_bottom(area) - 1
    } else {
        row
    }
}

/// A row number taken as a signed 16-bit number, as `as i16` does.
pub open spec fn as_signed_row(row: int) -> int {
    if row < 0x8000 {
        row
    } else {
        row - 0x10000
    }
}

/// Where one auto-scroll step puts the text cursor, relative to the text
/// area: in the first column, one row below the row the step starts from,
/// so that the text scrolls by one line.
pub fn auto_scroll(cursor: Option<(u16, u16)>, area: &Area) -> (target: (i16, i16))
    requires
        cursor_row(cursor, *area) < u16::MAX,
        as_signed_row(scroll_from_row(cursor, *area)) < i16::MAX,
    ensures
        target.0 == 0,
        target.1 == as_signed_row(scroll_from_row(cursor, *area)) + 1,
{
    let (_, mut row) = match cursor {
        Some(c) => c,
        None => (area.x, area.y),
    };
    let bottom = area.bottom();
    if row + 1 < bottom {
        row = bottom.saturating_sub(1);
    }
    let signed: i16 = if row < 0x8000 {
        row as i16
    } else {
        i16::MIN + ((row - 0x8000) as i16)
    };
    (0, signed + 1)
}

/// Whether `auto_scroll` can compute the step for this cursor and area: the
/// cursor is not on the largest row number, and the target row fits in a
/// signed 16-bit number.
pub fn auto_scroll_in_range(cursor: Option<(u16, u16)>, area: &Area) -> (ok: bool)
    ensures
        ok == (cursor_row(cursor, *area) < u16::MAX && as_signed_row(scroll_from_row(cursor, *area))
            < i16::MAX),
{
    let row = match cursor {
        Some(c) => c.1,
        None => area.y,
    };
    if row == u16::MAX {
        return false;
    }
    let bottom = area.bottom();
    let from = if row + 1 < bottom {
        bottom - 1
    } else {
        row
    };
    from != 0x7fff
}

/// One auto-scroll step moves the cursor at least one row down, and at
/// least to the first row below the area, so that the next line of text
/// comes into view (for rows that fit in a signed 16-bit number).
pub proof fn lemma_auto_scroll_advances(cursor: Option<(u16, u16)>, area: Area)
    requires
        scroll_from_row(cursor, area) < i16::MAX,
    ensures
        as_signed_row(scroll_from_row(cursor, area)) + 1 >= cursor_row(cursor, area) + 1,
        as_signed_row(scroll_from_row(cursor, area)) + 1 >= spec_bottom(area),
{
}

} // verus!
