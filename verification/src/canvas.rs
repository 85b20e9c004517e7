//! The hit-test canvas: one slot per terminal cell, each holding the
//! table element last painted there, so that a pointer position can be
//! resolved back to the logical element drawn at it.

use vstd::prelude::*;

use crate::store::Element;

verus! {

/// A resizeable two-dimensional provenance buffer addressed by
/// (column, row) within the last known terminal dimensions.
pub struct Canvas {
    pub width: usize,
    pub height: usize,
    pub grid: Vec<Vec<Option<Element>>>,
}

impl Canvas {
    /// Well-formedness: the grid has exactly `height` rows of `width`
    /// slots each.
    pub open spec fn wf(self) -> bool {
        &&& self.grid@.len() == self.height
        &&& forall|r: int| 0 <= r < self.grid@.len() ==> (#[trigger] self.grid@[r])@.len()
            == self.width
    }

    /// The slot at (col, row); out-of-bounds positions hold nothing.
    pub open spec fn at(self, col: int, row: int) -> Option<Element> {
        if 0 <= row < self.height && 0 <= col < self.width {
            self.grid@[row]@[col]
        } else {
            None
        }
    }

    /// An empty canvas of zero size.
    pub fn new() -> (c: Canvas)
        ensures
            c.wf(),
            c.width == 0,
            c.height == 0,
    {
        Canvas { width: 0, height: 0, grid: Vec::new() }
    }

    /// Reallocates the buffer to the new dimensions, discarding all
    /// prior provenance: afterwards every lookup returns nothing.
    pub fn resize(&mut self, width: usize, height: usize)
        ensures
            final(self).wf(),
            final(self).width == width,
            final(self).height == height,
            forall|col: int, row: int| final(self).at(col, row) is None,
    {
        self.width = width;
        self.height = height;
        self.grid = empty_grid(width, height);
    }

    /// Empties every slot, keeping the dimensions.
    pub fn clear(&mut self)
        ensures
            final(self).wf(),
            final(self).width == old(self).width,
            final(self).height == old(self).height,
            forall|col: int, row: int| final(self).at(col, row) is None,
    {
        self.grid = empty_grid(self.width, self.height);
    }

    /// Marks `len` consecutive horizontal slots, starting at
    /// (column, row), as owned by `elem`. Writes past the right edge or
    /// below the bottom are silently truncated, never out of bounds.
    pub fn paint(&mut self, elem: Element, column: usize, row: usize, len: usize)
        requires
            old(self).wf(),
        ensures
            final(self).wf(),
            final(self).width == old(self).width,
            final(self).height == old(self).height,
            forall|c: int, r: int|
                final(self).at(c, r) == if r == row && column <= c < column + len {
                    if 0 <= c < final(self).width && 0 <= r < final(self).height {
                        Some(elem)
                    } else {
                        old(self).at(c, r)
                    }
                } else {
                    old(self).at(c, r)
                },
    {
        if row >= self.height || column >= self.width {
            return ;
        }
        let end: usize = if len < self.width - column {
            column + len
        } else {
            self.width
        };
        let target: &mut Vec<Option<Element>> = &mut self.grid[row];
        let mut c: usize = column;
        while c < end
            invariant
                column <= c <= end <= target@.len(),
                end <= column + len,
                end == if len < target@.len() - column {
                    column + len as int
                } else {
                    target@.len() as int
                },
                target@.len() == old(self).width,
                forall|i: int|
                    0 <= i < target@.len() ==> (#[trigger] target@[i]) == if column <= i < c {
                        Some(elem)
                    } else {
                        old(self).grid@[row as int]@[i]
                    },
            decreases end - c,
        {
            target[c] = Some(elem);
            c += 1;
        }
    }

    /// Returns the element last painted at (column, row), or nothing if
    /// that slot is empty or out of bounds.
    pub fn lookup(&self, column: usize, row: usize) -> (r: Option<Element>)
        requires
            self.wf(),
        ensures
            r == self.at(column as int, row as int),
    {
        if row < self.height && column < self.width {
            self.grid[row][column]
        } else {
            None
        }
    }

    /// One line per buffer row, `'1'` where a slot is owned and `'0'`
    /// where it is empty: the diagnostic view of the provenance buffer.
    pub fn mask_lines(&self) -> (lines: Vec<String>)
        requires
            self.wf(),
        ensures
            lines@.len() == self.height,
            forall|r: int|
                0 <= r < lines@.len() ==> (#[trigger] lines@[r])@ == mask_line(*self, r),
    {
        proof {
            reveal_strlit("1");
            reveal_strlit("0");
            reveal_strlit("");
        }
        let mut lines: Vec<String> = Vec::new();
        let mut r: usize = 0;
        while r < self.height
            invariant
                self.wf(),
                r <= self.height,
                lines@.len() == r,
                forall|i: int|
                    0 <= i < r ==> (#[trigger] lines@[i])@ == mask_line(*self, i),
            decreases self.height - r,
        {
            let mut line = String::new();
            let mut c: usize = 0;
            while c < self.width
                invariant
                    self.wf(),
                    r < self.height,
                    c <= self.width,
                    line@ == mask_line(*self, r as int).take(c as int),
                decreases self.width - c,
            {
                proof {
                    reveal_strlit("1");
                    reveal_strlit("0");
                }
                let slot = self.grid[r][c];
                if slot.is_some() {
                    line.append("1");
                } else {
                    line.append("0");
                }
                proof {
                    assert(line@ =~= mask_line(*self, r as int).take(c + 1));
                }
                c += 1;
            }
            proof {
                assert(mask_line(*self, r as int).take(self.width as int) =~= mask_line(
                    *self,
                    r as int,
                ));
            }
            lines.push(line);
            r += 1;
        }
        lines
    }
}

/// The diagnostic mask of row `r`: one character per slot.
pub open spec fn mask_line(canvas: Canvas, r: int) -> Seq<char> {
    Seq::new(canvas.width as nat, |c: int| if canvas.at(c, r) is Some {
        '1'
    } else {
        '0'
    })
}

/// A grid of `height` rows of `width` empty slots.
fn empty_grid(width: usize, height: usize) -> (grid: Vec<Vec<Option<Element>>>)
    ensures
        grid@.len() == height,
        forall|r: int| 0 <= r < grid@.len() ==> (#[trigger] grid@[r])@.len() == width,
        forall|r: int, c: int|
            0 <= r < grid@.len() && 0 <= c < width ==> (#[trigger] grid@[r]@[c]) is None,
{
    let mut grid: Vec<Vec<Option<Element>>> = Vec::new();
    let mut r: usize = 0;
    while r < height
        invariant
            r <= height,
            grid@.len() == r,
            forall|i: int| 0 <= i < r ==> (#[trigger] grid@[i])@.len() == width,
            forall|i: int, c: int|
                0 <= i < r && 0 <= c < width ==> (#[trigger] grid@[i]@[c]) is None,
        decreases height - r,
    {
        let mut line: Vec<Option<Element>> = Vec::new();
        let mut c: usize = 0;
        while c < width
            invariant
                c <= width,
                line@.len() == c,
                forall|i: int| 0 <= i < c ==> (#[trigger] line@[i]) is None,
            decreases width - c,
        {
            line.push(None);
            c += 1;
        }
        grid.push(line);
        r += 1;
    }
    grid
}

} // verus!
