//! Rendering a grid as text: one character per cell, one line per row.

use crate::grid::Grid;
use vstd::prelude::*;
use vstd::string::StringExecFns;

verus! {

/// The character a cell renders as: '#' when alive, ' ' when dead.
pub open spec fn glyph(alive: bool) -> char {
    if alive {
        '#'
    } else {
        ' '
    }
}

impl Grid {
    /// The text of row `r`: one glyph per column, then a newline.
    pub open spec fn row_text(self, r: int) -> Seq<char> {
        Seq::new(self.dim.width as nat, |c: int| glyph(self.alive(c, r))).push('\n')
    }

    /// The text of the first `r` rows, top row first.
    pub open spec fn text_upto(self, r: int) -> Seq<char>
        decreases r,
    {
        if r <= 0 {
            Seq::empty()
        } else {
            self.text_upto(r - 1) + self.row_text(r - 1)
        }
    }

    /// The text of the whole grid.
    pub open spec fn text(self) -> Seq<char> {
        self.text_upto(self.h())
    }

    /// Render the grid as text: '#' for a live cell, ' ' for a dead one,
    /// one line per row.
    pub fn to_text(&self) -> (out: String)
        requires
            self.wf(),
        ensures
            out@ == self.text(),
    {
        let h = self.dim.height;
        let w = self.dim.width;
        let mut out = String::new();
        let mut row: usize = 0;
        while row < h
            invariant
                self.wf(),
                w == self.dim.width,
                h == self.dim.height,
                row <= h,
                out@ == self.text_upto(row as int),
            decreases h - row,
        {
            let mut col: usize = 0;
            while col < w
                invariant
                    self.wf(),
                    w == self.dim.width,
                    h == self.dim.height,
                    row < h,
                    col <= w,
                    out@ == self.text_upto(row as int) + Seq::new(
                        col as nat,
                        |c: int| glyph(self.alive(c, row as int)),
                    ),
                decreases w - col,
            {
                if self.cell_is_alive_at(col, row) {
                    out.append("#");
                    proof {
                        reveal_strlit("#");
                    }
                } else {
                    out.append(" ");
                    proof {
                        reveal_strlit(" ");
                    }
                }
                proof {
                    assert(out@ =~= self.text_upto(row as int) + Seq::new(
                        (col + 1) as nat,
                        |c: int| glyph(self.alive(c, row as int)),
                    ));
                }
                col = col + 1;
            }
            out.append("\n");
            proof {
                reveal_strlit("\n");
                assert(out@ =~= self.text_upto(row as int + 1));
            }
            row = row + 1;
        }
        out
    }
}

} // verus!
