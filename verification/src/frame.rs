use vstd::prelude::*;

use crate::cell::{Cell, TermColor};

verus! {

/// A blank cell over the given background, as a spec value.
pub open spec fn spec_blank_cell(bg: Option<TermColor>) -> Cell {
    Cell { ch: ' ', fg: None, bg: bg, bold: false }
}

/// A row-major index stays below the grid size, and the grid size fits
/// a 32-bit machine word.
pub proof fn lemma_row_major_bound(x: int, y: int, w: int, h: int)
    by (nonlinear_arith)
    requires
        0 <= x < w,
        0 <= y < h,
        w <= 0xffff,
        h <= 0xffff,
    ensures
        y * w + x < w * h,
        w * h < 0x1_0000_0000,
{
}

/// Distinct in-range coordinates have distinct row-major indices.
pub proof fn lemma_row_major_injective(w: int, x1: int, y1: int, x2: int, y2: int)
    by (nonlinear_arith)
    requires
        0 <= x1 < w,
        0 <= x2 < w,
        0 <= y1,
        0 <= y2,
    ensures
        (y1 * w + x1 == y2 * w + x2) <==> (x1 == x2 && y1 == y2),
{
}

/// A row-major index splits into in-range coordinates and rejoins.
pub proof fn lemma_cell_coords(i: int, w: int, h: int)
    by (nonlinear_arith)
    requires
        0 <= i < w * h,
        0 < w,
    ensures
        0 <= i % w < w,
        0 <= i / w < h,
        i == (i / w) * w + i % w,
{
}

/// The size of a grid with 16-bit dimensions fits a 32-bit machine word.
pub proof fn lemma_grid_size_fits(w: int, h: int)
    by (nonlinear_arith)
    requires
        0 <= w <= 0xffff,
        0 <= h <= 0xffff,
    ensures
        w * h < 0x1_0000_0000,
{
}

/// An owned width x height grid of cells, row-major; the logical screen
/// state for one simulated instant.
#[derive(Clone, Debug)]
pub struct Frame {
    pub width: u16,
    pub height: u16,
    pub cells: Vec<Cell>,
}

impl Frame {
    /// The grid holds exactly one cell per coordinate.
    pub open spec fn wf(self) -> bool {
        self.cells@.len() == self.width as int * self.height as int
    }

    /// The cell at column `x`, line `y` (both in range).
    pub open spec fn spec_at(self, x: int, y: int) -> Cell {
        self.cells@[y * self.width as int + x]
    }

    /// A frame of the given size, every cell blank over `bg`.
    pub fn new(width: u16, height: u16, bg: Option<TermColor>) -> (f: Frame)
        ensures
            f.wf(),
            f.width == width,
            f.height == height,
            forall|i: int| 0 <= i < f.cells@.len() ==> f.cells@[i] == spec_blank_cell(bg),
    {
        proof {
            lemma_grid_size_fits(width as int, height as int);
        }
        let len: usize = width as usize * height as usize;
        let mut cells: Vec<Cell> = Vec::new();
        let mut i: usize = 0;
        while i < len
            invariant
                i <= len,
                cells@.len() == i as int,
                forall|j: int| 0 <= j < i as int ==> cells@[j] == spec_blank_cell(bg),
            decreases len - i,
        {
            cells.push(Cell::blank_with_bg(bg));
            i = i + 1;
        }
        Frame { width, height, cells }
    }

    /// Blank every cell, with no background.
    pub fn clear(&mut self)
        ensures
            final(self).width == old(self).width,
            final(self).height == old(self).height,
            final(self).cells@.len() == old(self).cells@.len(),
            forall|i: int|
                0 <= i < final(self).cells@.len() ==> final(self).cells@[i] == spec_blank_cell(
                    None,
                ),
    {
        self.clear_with_bg(None);
    }

    /// Blank every cell over the given background.
    pub fn clear_with_bg(&mut self, bg: Option<TermColor>)
        ensures
            final(self).width == old(self).width,
            final(self).height == old(self).height,
            final(self).cells@.len() == old(self).cells@.len(),
            forall|i: int|
                0 <= i < final(self).cells@.len() ==> final(self).cells@[i] == spec_blank_cell(bg),
    {
        let len: usize = self.cells.len();
        let mut i: usize = 0;
        while i < len
            invariant
                i <= len,
                self.cells@.len() == len as int,
                self.width == old(self).width,
                self.height == old(self).height,
                forall|j: int| 0 <= j < i as int ==> self.cells@[j] == spec_blank_cell(bg),
            decreases len - i,
        {
            self.cells.set(i, Cell::blank_with_bg(bg));
            i = i + 1;
        }
    }

    /// An independent copy of this frame.
    pub fn duplicate(&self) -> (f: Frame)
        ensures
            f.width == self.width,
            f.height == self.height,
            f.cells@ == self.cells@,
    {
        let mut cells: Vec<Cell> = Vec::new();
        let mut i: usize = 0;
        while i < self.cells.len()
            invariant
                i <= self.cells@.len(),
                cells@ =~= self.cells@.subrange(0, i as int),
            decreases self.cells@.len() - i,
        {
            cells.push(self.cells[i]);
            i = i + 1;
        }
        proof {
            assert(cells@ =~= self.cells@);
        }
        Frame { width: self.width, height: self.height, cells }
    }

    /// The row-major index of `(x, y)`, or `None` when out of range.
    pub fn index(&self, x: u16, y: u16) -> (r: Option<usize>)
        ensures
            r is Some <==> (x < self.width && y < self.height),
            r is Some ==> r->0 == y as int * self.width as int + x as int,
            r is Some && self.wf() ==> r->0 < self.cells@.len(),
    {
        if x >= self.width || y >= self.height {
            return None;
        }
        proof {
            lemma_row_major_bound(x as int, y as int, self.width as int, self.height as int);
        }
        let i: usize = y as usize * self.width as usize + x as usize;
        Some(i)
    }

    /// The cell at `(x, y)`, or `None` when out of range.
    pub fn get(&self, x: u16, y: u16) -> (r: Option<Cell>)
        requires
            self.wf(),
        ensures
            r == (if x < self.width && y < self.height {
                Some(self.spec_at(x as int, y as int))
            } else {
                None::<Cell>
            }),
    {
        match self.index(x, y) {
            Some(i) => Some(self.cells[i]),
            None => None,
        }
    }

    /// Replace the cell at `(x, y)`; out-of-range coordinates change nothing.
    pub fn set(&mut self, x: u16, y: u16, cell: Cell)
        requires
            old(self).wf(),
        ensures
            final(self).wf(),
            final(self).width == old(self).width,
            final(self).height == old(self).height,
            x < old(self).width && y < old(self).height ==> final(self).cells@ == old(
                self,
            ).cells@.update(y as int * old(self).width as int + x as int, cell),
            !(x < old(self).width && y < old(self).height) ==> final(self).cells@ == old(
                self,
            ).cells@,
            forall|x2: u16, y2: u16|
                x2 < old(self).width && y2 < old(self).height ==> final(self).spec_at(
                    x2 as int,
                    y2 as int,
                ) == (if x2 == x && y2 == y {
                    cell
                } else {
                    old(self).spec_at(x2 as int, y2 as int)
                }),
    {
        let idx = self.index(x, y);
        match idx {
            Some(i) => {
                self.cells.set(i, cell);
            },
            None => {},
        }
        proof {
            assert forall|x2: u16, y2: u16|
                x2 < old(self).width && y2 < old(self).height implies self.spec_at(
                x2 as int,
                y2 as int,
            ) == (if x2 == x && y2 == y {
                cell
            } else {
                old(self).spec_at(x2 as int, y2 as int)
            }) by {
                lemma_row_major_bound(x2 as int, y2 as int, self.width as int, self.height as int);
                if x < old(self).width && y < old(self).height {
                    lemma_row_major_injective(
                        self.width as int,
                        x2 as int,
                        y2 as int,
                        x as int,
                        y as int,
                    );
                }
            }
        }
    }
}

} // verus!
