//! A rectangular grid of cells stored row by row.

use vstd::prelude::*;

verus! {

/// A `width` by `height` grid; the cell at column `x` and row `y` is stored at
/// index `x + y * width`.
pub struct Buffer<T> {
    width: usize,
    height: usize,
    data: Vec<T>,
}

impl<T> View for Buffer<T> {
    type V = Seq<T>;

    /// The cells in storage order: row by row, each row from left to right.
    closed spec fn view(&self) -> Seq<T> {
        self.data@
    }
}

/// The storage index of the cell at column `x` and row `y` of a grid that is
/// `width` cells wide.
pub open spec fn cell_index(width: int, x: int, y: int) -> int {
    x + y * width
}

/// Inside a grid every cell index is in range, and two cells share an index
/// only if they are the same cell.
pub proof fn lemma_cell_index(width: int, height: int, x: int, y: int)
    requires
        0 <= x < width,
        0 <= y < height,
    ensures
        0 <= cell_index(width, x, y) < width * height,
        cell_index(width, x, y) % width == x,
        cell_index(width, x, y) / width == y,
{
    assert(y * width + width <= height * width) by (nonlinear_arith)
        requires
            y + 1 <= height,
            width > 0,
    ;
    assert(0 <= y * width) by (nonlinear_arith)
        requires
            0 <= y,
            0 < width,
    ;
    assert(height * width == width * height) by (nonlinear_arith);
    vstd::arithmetic::div_mod::lemma_fundamental_div_mod_converse(x + y * width, width, y, x);
}

impl<T> Buffer<T> where T: Clone {
    /// The number of columns.
    pub closed spec fn spec_width(&self) -> nat {
        self.width as nat
    }

    /// The number of rows.
    pub closed spec fn spec_height(&self) -> nat {
        self.height as nat
    }

    /// There is exactly one stored cell for each position of the grid.
    pub closed spec fn wf(&self) -> bool {
        &&& self.data@.len() == self.width * self.height
        &&& self.width * self.height <= usize::MAX
    }

    /// The cell at column `x` and row `y`.
    pub open spec fn at(&self, x: int, y: int) -> T {
        self@[cell_index(self.spec_width() as int, x, y)]
    }

    /// A well-formed buffer holds `width * height` cells, a number that fits
    /// the machine word.
    pub proof fn lemma_len(&self)
        requires
            self.wf(),
        ensures
            self@.len() == self.spec_width() * self.spec_height(),
            self.spec_width() * self.spec_height() <= usize::MAX,
    {
    }

    /// A grid of the given size in which every cell is a clone of `initial`.
    pub fn new(width: usize, height: usize, initial: T) -> (buffer: Buffer<T>)
        requires
            width * height <= usize::MAX,
        ensures
            buffer.wf(),
            buffer.spec_width() == width,
            buffer.spec_height() == height,
            buffer@.len() == width * height,
            forall|i: int| 0 <= i < buffer@.len() ==> cloned(initial, #[trigger] buffer@[i]),
    {
        let count: usize = width * height;
        let mut data: Vec<T> = Vec::with_capacity(count);
        let mut i: usize = 0;
        while i < count
            invariant
                i <= count,
                data@.len() == i,
                forall|j: int| 0 <= j < i ==> cloned(initial, #[trigger] data@[j]),
            decreases count - i,
        {
            data.push(initial.clone());
            i = i + 1;
        }
        Buffer { width, height, data }
    }

    /// The number of columns.
    pub fn width(&self) -> (w: usize)
        ensures
            w == self.spec_width(),
    {
        self.width
    }

    /// The number of rows.
    pub fn height(&self) -> (h: usize)
        ensures
            h == self.spec_height(),
    {
        self.height
    }

    /// Stores `val` in the cell at column `pos.0` and row `pos.1`; every other
    /// cell keeps its value.
    pub fn put(&mut self, pos: (usize, usize), val: T)
        requires
            old(self).wf(),
            pos.0 < old(self).spec_width(),
            pos.1 < old(self).spec_height(),
        ensures
            final(self).wf(),
            final(self).spec_width() == old(self).spec_width(),
            final(self).spec_height() == old(self).spec_height(),
            final(self)@ == old(self)@.update(
                cell_index(old(self).spec_width() as int, pos.0 as int, pos.1 as int),
                val,
            ),
    {
        proof {
            lemma_cell_index(self.width as int, self.height as int, pos.0 as int, pos.1 as int);
        }
        let row: usize = pos.1 * self.width;
        let index: usize = pos.0 + row;
        self.data.set(index, val);
    }

    /// The cell at column `x` and row `y`.
    pub fn get(&self, x: usize, y: usize) -> (cell: &T)
        requires
            self.wf(),
            x < self.spec_width(),
            y < self.spec_height(),
        ensures
            *cell == self.at(x as int, y as int),
    {
        proof {
            lemma_cell_index(self.width as int, self.height as int, x as int, y as int);
        }
        let row: usize = y * self.width;
        let index: usize = x + row;
        &self.data[index]
    }
}

} // verus!
