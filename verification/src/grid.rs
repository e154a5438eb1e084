//! The mathematical model of a two-dimensional array.
//!
//! A [`Grid`] is a width, a height and a sequence of cells in row-major
//! order. Every contract of [`crate::Array2`] is stated over its grid.

use crate::layout::{
    lemma_coordinates_of_index, lemma_index_in_range, lemma_index_injective,
    lemma_index_of_coordinates, linear_index,
};
use vstd::prelude::*;

verus! {

/// A `width` by `height` arrangement of cells, stored row by row.
pub struct Grid<T> {
    pub width: nat,
    pub height: nat,
    pub cells: Seq<T>,
}

impl<T> Grid<T> {
    /// The backing sequence holds exactly one value per cell.
    pub open spec fn wf(self) -> bool {
        self.cells.len() == self.width * self.height
    }

    /// Column `c`, row `r` names a cell of the grid.
    pub open spec fn in_bounds(self, c: int, r: int) -> bool {
        0 <= c < self.width && 0 <= r < self.height
    }

    /// The value at column `c`, row `r`.
    pub open spec fn at(self, c: int, r: int) -> T
        recommends
            self.in_bounds(c, r),
    {
        self.cells[linear_index(self.width, c, r)]
    }

    /// The grid with the cell at column `c`, row `r` replaced by `value`.
    pub open spec fn set(self, c: int, r: int, value: T) -> Grid<T>
        recommends
            self.in_bounds(c, r),
    {
        Grid {
            width: self.width,
            height: self.height,
            cells: self.cells.update(linear_index(self.width, c, r), value),
        }
    }

    /// The grid of the given dimensions whose cell at column `c`, row `r`
    /// is `cell(c, r)`.
    pub open spec fn from_fn(width: nat, height: nat, cell: spec_fn(int, int) -> T) -> Grid<T> {
        Grid {
            width,
            height,
            cells: Seq::new(width * height, |k: int| cell(k % (width as int), k / (width as int))),
        }
    }

    /// Mirror image across the vertical axis: column `c` comes from column
    /// `width - 1 - c` of the same row.
    pub open spec fn flip_horizontal(self) -> Grid<T> {
        Grid::from_fn(self.width, self.height, |c: int, r: int| self.at(self.width - 1 - c, r))
    }

    /// Mirror image across the horizontal axis: row `r` comes from row
    /// `height - 1 - r` of the same column.
    pub open spec fn flip_vertical(self) -> Grid<T> {
        Grid::from_fn(self.width, self.height, |c: int, r: int| self.at(c, self.height - 1 - r))
    }

    /// Quarter turn clockwise. The result is `height` wide and `width` high;
    /// its cell at column `c`, row `r` comes from column `r`, row
    /// `height - 1 - c`.
    pub open spec fn rotate_90(self) -> Grid<T> {
        Grid::from_fn(self.height, self.width, |c: int, r: int| self.at(r, self.height - 1 - c))
    }

    /// Half turn: the cell at column `c`, row `r` comes from column
    /// `width - 1 - c`, row `height - 1 - r`.
    pub open spec fn rotate_180(self) -> Grid<T> {
        Grid::from_fn(
            self.width,
            self.height,
            |c: int, r: int| self.at(self.width - 1 - c, self.height - 1 - r),
        )
    }

    /// Three quarter turns clockwise. The result is `height` wide and `width`
    /// high; its cell at column `c`, row `r` comes from column
    /// `width - 1 - r`, row `c`.
    pub open spec fn rotate_270(self) -> Grid<T> {
        Grid::from_fn(self.height, self.width, |c: int, r: int| self.at(self.width - 1 - r, c))
    }

    /// Reflection across the main diagonal. The result is `height` wide and
    /// `width` high; its cell at column `c`, row `r` comes from column `r`,
    /// row `c`.
    pub open spec fn transpose(self) -> Grid<T> {
        Grid::from_fn(self.height, self.width, |c: int, r: int| self.at(r, c))
    }

    /// The cells with their coordinates, as `(column, row, value)`, row by
    /// row from the top, each row from left to right.
    pub open spec fn row_major(self) -> Seq<(int, int, T)> {
        Seq::new(
            self.width * self.height,
            |k: int| (k % (self.width as int), k / (self.width as int), self.cells[k]),
        )
    }

    /// The cells with their coordinates, as `(column, row, value)`, column by
    /// column from the left, each column from the top down.
    pub open spec fn col_major(self) -> Seq<(int, int, T)> {
        Seq::new(
            self.width * self.height,
            |k: int|
                (
                    k / (self.height as int),
                    k % (self.height as int),
                    self.at(k / (self.height as int), k % (self.height as int)),
                ),
        )
    }

    /// A grid built from a function is well formed, has the dimensions it
    /// was given, and holds `cell(c, r)` at every column `c` and row `r`
    /// inside it.
    pub proof fn lemma_from_fn(width: nat, height: nat, cell: spec_fn(int, int) -> T)
        ensures
            Grid::from_fn(width, height, cell).wf(),
            Grid::from_fn(width, height, cell).width == width,
            Grid::from_fn(width, height, cell).height == height,
            forall|c: int, r: int|
                0 <= c < width && 0 <= r < height ==> #[trigger] Grid::from_fn(
                    width,
                    height,
                    cell,
                ).at(c, r) == cell(c, r),
    {
        let g = Grid::from_fn(width, height, cell);
        assert forall|c: int, r: int| 0 <= c < width && 0 <= r < height implies #[trigger] g.at(
            c,
            r,
        ) == cell(c, r) by {
            lemma_index_in_range(width, height, c, r);
            lemma_coordinates_of_index(width, c, r);
        }
    }

    /// Two well-formed grids of the same dimensions that agree on every cell
    /// are the same grid.
    pub proof fn lemma_equal_by_cells(self, other: Grid<T>)
        requires
            self.wf(),
            other.wf(),
            self.width == other.width,
            self.height == other.height,
            forall|c: int, r: int| self.in_bounds(c, r) ==> self.at(c, r) == other.at(c, r),
        ensures
            self == other,
    {
        assert forall|k: int| 0 <= k < self.cells.len() implies self.cells[k] == other.cells[k] by {
            lemma_index_of_coordinates(self.width, self.height, k);
            let c = k % (self.width as int);
            let r = k / (self.width as int);
            assert(self.in_bounds(c, r));
            assert(self.at(c, r) == other.at(c, r));
        }
        assert(self.cells =~= other.cells);
    }

    /// Replacing one cell keeps the dimensions and every other cell.
    pub proof fn lemma_set(self, c: int, r: int, value: T)
        requires
            self.wf(),
            self.in_bounds(c, r),
        ensures
            self.set(c, r, value).wf(),
            self.set(c, r, value).at(c, r) == value,
            forall|c2: int, r2: int|
                self.in_bounds(c2, r2) && (c2 != c || r2 != r) ==> #[trigger] self.set(
                    c,
                    r,
                    value,
                ).at(c2, r2) == self.at(c2, r2),
    {
        lemma_index_in_range(self.width, self.height, c, r);
        assert forall|c2: int, r2: int|
            self.in_bounds(c2, r2) && (c2 != c || r2 != r) implies #[trigger] self.set(
            c,
            r,
            value,
        ).at(c2, r2) == self.at(c2, r2) by {
            lemma_index_in_range(self.width, self.height, c2, r2);
            if linear_index(self.width, c2, r2) == linear_index(self.width, c, r) {
                lemma_index_injective(self.width, c, r, c2, r2);
            }
        }
    }

    /// Flipping horizontally keeps the dimensions, and column `c` of each
    /// row of the result is column `width - 1 - c` of the same row of `self`.
    pub proof fn lemma_flip_horizontal(self)
        requires
            self.wf(),
        ensures
            self.flip_horizontal().wf(),
            self.flip_horizontal().width == self.width,
            self.flip_horizontal().height == self.height,
            forall|c: int, r: int|
                self.in_bounds(c, r) ==> #[trigger] self.flip_horizontal().at(c, r) == self.at(
                    self.width - 1 - c,
                    r,
                ),
    {
        Grid::lemma_from_fn(
            self.width,
            self.height,
            |c: int, r: int| self.at(self.width - 1 - c, r),
        );
    }

    /// Flipping vertically keeps the dimensions, and row `r` of each column
    /// of the result is row `height - 1 - r` of the same column of `self`.
    pub proof fn lemma_flip_vertical(self)
        requires
            self.wf(),
        ensures
            self.flip_vertical().wf(),
            self.flip_vertical().width == self.width,
            self.flip_vertical().height == self.height,
            forall|c: int, r: int|
                self.in_bounds(c, r) ==> #[trigger] self.flip_vertical().at(c, r) == self.at(
                    c,
                    self.height - 1 - r,
                ),
    {
        Grid::lemma_from_fn(
            self.width,
            self.height,
            |c: int, r: int| self.at(c, self.height - 1 - r),
        );
    }

    /// A quarter turn exchanges width and height, and the cell at column
    /// `c`, row `r` of the result is the cell at column `r`, row
    /// `height - 1 - c` of `self`.
    pub proof fn lemma_rotate_90(self)
        requires
            self.wf(),
        ensures
            self.rotate_90().wf(),
            self.rotate_90().width == self.height,
            self.rotate_90().height == self.width,
            forall|c: int, r: int|
                0 <= c < self.height && 0 <= r < self.width ==> #[trigger] self.rotate_90().at(
                    c,
                    r,
                ) == self.at(r, self.height - 1 - c),
    {
        Grid::lemma_from_fn(
            self.height,
            self.width,
            |c: int, r: int| self.at(r, self.height - 1 - c),
        );
        assert(self.height * self.width == self.width * self.height) by (nonlinear_arith);
    }

    /// A half turn keeps the dimensions, and the cell at column `c`, row `r`
    /// of the result is the cell at column `width - 1 - c`, row
    /// `height - 1 - r` of `self`.
    pub proof fn lemma_rotate_180(self)
        requires
            self.wf(),
        ensures
            self.rotate_180().wf(),
            self.rotate_180().width == self.width,
            self.rotate_180().height == self.height,
            forall|c: int, r: int|
                self.in_bounds(c, r) ==> #[trigger] self.rotate_180().at(c, r) == self.at(
                    self.width - 1 - c,
                    self.height - 1 - r,
                ),
    {
        Grid::lemma_from_fn(
            self.width,
            self.height,
            |c: int, r: int| self.at(self.width - 1 - c, self.height - 1 - r),
        );
    }

    /// Three quarter turns exchange width and height, and the cell at column
    /// `c`, row `r` of the result is the cell at column `width - 1 - r`, row
    /// `c` of `self`.
    pub proof fn lemma_rotate_270(self)
        requires
            self.wf(),
        ensures
            self.rotate_270().wf(),
            self.rotate_270().width == self.height,
            self.rotate_270().height == self.width,
            forall|c: int, r: int|
                0 <= c < self.height && 0 <= r < self.width ==> #[trigger] self.rotate_270().at(
                    c,
                    r,
                ) == self.at(self.width - 1 - r, c),
    {
        Grid::lemma_from_fn(
            self.height,
            self.width,
            |c: int, r: int| self.at(self.width - 1 - r, c),
        );
        assert(self.height * self.width == self.width * self.height) by (nonlinear_arith);
    }

    /// Transposing exchanges width and height, and the cell at column `c`,
    /// row `r` of the result is the cell at column `r`, row `c` of `self`.
    pub proof fn lemma_transpose(self)
        requires
            self.wf(),
        ensures
            self.transpose().wf(),
            self.transpose().width == self.height,
            self.transpose().height == self.width,
            forall|c: int, r: int|
                0 <= c < self.height && 0 <= r < self.width ==> #[trigger] self.transpose().at(
                    c,
                    r,
                ) == self.at(r, c),
    {
        Grid::lemma_from_fn(self.height, self.width, |c: int, r: int| self.at(r, c));
        assert(self.height * self.width == self.width * self.height) by (nonlinear_arith);
    }

    /// A row-major traversal visits the cell at column `c`, row `r` at
    /// position `r * width + c`, and nowhere else.
    pub proof fn lemma_row_major_visit(self, c: int, r: int)
        requires
            self.wf(),
            self.in_bounds(c, r),
        ensures
            0 <= linear_index(self.width, c, r) < self.row_major().len(),
            self.row_major()[linear_index(self.width, c, r)] == (c, r, self.at(c, r)),
    {
        lemma_index_in_range(self.width, self.height, c, r);
        lemma_coordinates_of_index(self.width, c, r);
    }

    /// What a row-major traversal hands out at position `k` is a cell of
    /// the grid with its own coordinates, the one stored at position `k`.
    pub proof fn lemma_row_major_position(self, k: int)
        requires
            self.wf(),
            0 <= k < self.width * self.height,
        ensures
            self.in_bounds(self.row_major()[k].0, self.row_major()[k].1),
            self.row_major()[k].2 == self.at(self.row_major()[k].0, self.row_major()[k].1),
            linear_index(self.width, self.row_major()[k].0, self.row_major()[k].1) == k,
    {
        lemma_index_of_coordinates(self.width, self.height, k);
    }

    /// A column-major traversal visits the cell at column `c`, row `r` at
    /// position `c * height + r`, and nowhere else.
    pub proof fn lemma_col_major_visit(self, c: int, r: int)
        requires
            self.wf(),
            self.in_bounds(c, r),
        ensures
            0 <= linear_index(self.height, r, c) < self.col_major().len(),
            self.col_major()[linear_index(self.height, r, c)] == (c, r, self.at(c, r)),
    {
        lemma_index_in_range(self.height, self.width, r, c);
        lemma_coordinates_of_index(self.height, r, c);
        assert(self.height * self.width == self.width * self.height) by (nonlinear_arith);
    }

    /// What a column-major traversal hands out at position `k` is a cell of
    /// the grid with its own coordinates, namely column `k / height`, row
    /// `k % height`.
    pub proof fn lemma_col_major_position(self, k: int)
        requires
            self.wf(),
            0 <= k < self.width * self.height,
        ensures
            self.in_bounds(self.col_major()[k].0, self.col_major()[k].1),
            self.col_major()[k].2 == self.at(self.col_major()[k].0, self.col_major()[k].1),
            linear_index(self.height, self.col_major()[k].1, self.col_major()[k].0) == k,
    {
        assert(self.height * self.width == self.width * self.height) by (nonlinear_arith);
        lemma_index_of_coordinates(self.height, self.width, k);
    }
}

impl<T: Clone> Grid<T> {
    /// Cell by cell, `self` holds a clone of what `source` holds: the two
    /// grids have the same dimensions, and each cell of `self` is equal to
    /// the same cell of `source` or is a value that `clone` may return for it.
    pub open spec fn is_clone_of(self, source: Grid<T>) -> bool {
        &&& self.width == source.width
        &&& self.height == source.height
        &&& self.cells.len() == source.cells.len()
        &&& forall|c: int, r: int|
            #![trigger source.at(c, r)]
            #![trigger self.at(c, r)]
            source.in_bounds(c, r) ==> cloned(source.at(c, r), self.at(c, r))
    }

    /// Where `clone` can only return a value equal to the one it was called
    /// on, a grid that is a clone of another is that grid.
    pub proof fn lemma_exact_clone(self, source: Grid<T>)
        requires
            self.is_clone_of(source),
            source.wf(),
            forall|a: T, b: T| cloned(a, b) ==> a == b,
        ensures
            self == source,
    {
        assert forall|c: int, r: int| self.in_bounds(c, r) implies self.at(c, r) == source.at(
            c,
            r,
        ) by {
            assert(cloned(source.at(c, r), self.at(c, r)));
        }
        self.lemma_equal_by_cells(source);
    }
}

} // verus!
