use vstd::prelude::*;

verus! {

/// Where the next line of a frame is drawn.
pub struct Screen {
    pub row: u16,
    pub col: u16,
}

impl Screen {
    pub fn new(row: u16, col: u16) -> (r: Screen)
        ensures
            r.row == row,
            r.col == col,
    {
        Screen { row, col }
    }

    /// Moves to the next row, leaving the current one as it is.
    pub fn skip_line(&mut self)
        requires
            old(self).row < u16::MAX,
        ensures
            final(self).row == old(self).row + 1,
            final(self).col == old(self).col,
    {
        self.row = self.row + 1;
    }

    /// Goes back to the top left corner.
    pub fn reset(&mut self)
        ensures
            final(self).row == 0,
            final(self).col == 0,
    {
        self.col = 0;
        self.row = 0;
    }
}

} // verus!
