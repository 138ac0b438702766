//! A cursor on a screen of known size, and its distances to the screen's edges.
use vstd::prelude::*;

verus! {

/// A cursor: its column and row on screen, and the first column and row shown.
pub struct Cursor {
    pub x: usize,
    pub y: usize,
    pub x_offset: usize,
    pub y_offset: usize,
}

/// Rows above the cursor.
pub fn distance_from_top(cursor: &Cursor) -> (r: usize)
    ensures
        r == cursor.y,
{
    cursor.y
}

/// Rows from the cursor to the bottom of a screen of `screen_rows` rows.
pub fn distance_from_bottom(cursor: &Cursor, screen_rows: u16) -> (r: usize)
    requires
        cursor.y <= screen_rows,
    ensures
        r == screen_rows - cursor.y,
{
    screen_rows as usize - cursor.y
}

/// Columns left of the cursor.
pub fn distance_from_left(cursor: &Cursor) -> (r: usize)
    ensures
        r == cursor.x,
{
    cursor.x
}

/// Columns from the cursor to the right edge of a screen of `screen_cols` columns.
pub fn distance_from_right(cursor: &Cursor, screen_cols: u16) -> (r: usize)
    requires
        cursor.x <= screen_cols,
    ensures
        r == screen_cols - cursor.x,
{
    screen_cols as usize - cursor.x
}

} // verus!
