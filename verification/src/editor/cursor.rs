//! Where the cursor stands in the text and which part of the text the screen shows.
use vstd::prelude::*;

verus! {

/// The cursor: its place in the text, the first row and column on screen, the column it
/// keeps to when moving between lines, and a column put aside while the status bar prompts.
pub struct Cursor {
    pub x: usize,
    pub y: usize,
    pub x_offset: usize,
    pub y_offset: usize,
    pub horizon: usize,
    pub stored_x: Option<usize>,
}

impl Cursor {
    /// A cursor at the start of the text.
    pub fn get() -> (r: Self)
        ensures
            r.x == 0 && r.y == 0 && r.x_offset == 0 && r.y_offset == 0 && r.horizon == 0,
            r.stored_x is None,
    {
        Self { x: 0, y: 0, x_offset: 0, y_offset: 0, horizon: 0, stored_x: None }
    }

    /// Back to the start of the text, with nothing put aside.
    pub fn refresh(&mut self)
        ensures
            final(self).x == 0 && final(self).y == 0 && final(self).x_offset == 0,
            final(self).y_offset == 0 && final(self).horizon == 0,
            final(self).stored_x is None,
    {
        self.x = 0;
        self.y = 0;
        self.x_offset = 0;
        self.y_offset = 0;
        self.horizon = 0;
        self.stored_x = None;
    }

    /// Puts the column aside, unless one is aside already.
    pub fn store_x(&mut self)
        ensures
            final(self).stored_x == stored_after_store(old(self).stored_x, old(self).x),
            final(self).x == old(self).x && final(self).y == old(self).y,
            final(self).x_offset == old(self).x_offset && final(self).y_offset == old(self).y_offset,
            final(self).horizon == old(self).horizon,
    {
        if self.stored_x.is_some() {
            return;
        }
        self.stored_x = Some(self.x)
    }

    /// Takes back the column put aside, if any.
    pub fn restore_x(&mut self)
        ensures
            final(self).x == x_after_restore(old(self).stored_x, old(self).x),
            final(self).stored_x is None,
            final(self).y == old(self).y,
            final(self).x_offset == old(self).x_offset && final(self).y_offset == old(self).y_offset,
            final(self).horizon == old(self).horizon,
    {
        let stored_x = self.stored_x.take();
        if stored_x.is_none() {
            return;
        }
        self.x = stored_x.unwrap()
    }
}

/// The column put aside after `store_x`, given what was aside and the column `x`.
pub open spec fn stored_after_store(stored: Option<usize>, x: usize) -> Option<usize> {
    match stored {
        Some(s) => Some(s),
        None => Some(x),
    }
}

/// The column after `restore_x`, given what was aside and the column `x`.
pub open spec fn x_after_restore(stored: Option<usize>, x: usize) -> usize {
    match stored {
        Some(s) => s,
        None => x,
    }
}

/// Putting the column aside and later taking it back returns the cursor to the column it
/// had when a column was first put aside, wherever it went in between.
pub proof fn restore_returns_first_stored(stored: Option<usize>, x_at_store: usize, x_at_restore: usize)
    ensures
        x_after_restore(stored_after_store(stored, x_at_store), x_at_restore)
            == x_after_restore(stored, x_at_store),
{
}


/// The column put aside after `store_x` at each of the columns `xs` in turn.
pub open spec fn stored_after_stores(stored: Option<usize>, xs: Seq<usize>) -> Option<usize>
    decreases xs.len(),
{
    if xs.len() == 0 {
        stored
    } else {
        stored_after_store(stored_after_stores(stored, xs.drop_last()), xs.last())
    }
}

/// With nothing put aside, putting the column `x0` aside, then putting aside again at any
/// columns `xs`, whatever the column becomes in between, and then taking the column back,
/// returns the cursor to `x0`.
pub proof fn restore_after_any_stores(x0: usize, xs: Seq<usize>, x_at_restore: usize)
    ensures
        stored_after_stores(stored_after_store(None, x0), xs) == Some(x0),
        x_after_restore(stored_after_stores(stored_after_store(None, x0), xs), x_at_restore) == x0,
    decreases xs.len(),
{
    if xs.len() > 0 {
        restore_after_any_stores(x0, xs.drop_last(), x_at_restore);
    }
}
} // verus!
