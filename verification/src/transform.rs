//! The geometric transforms: flips, rotations and the transpose.
//!
//! Every transform fills a fresh array of the right dimensions with clones
//! of the values of the old one, each at its new place, and then replaces
//! the old array by the new one in a single step. The traversal that drives
//! the filling is chosen by the caller and makes no difference to the
//! outcome.

use crate::array::Array2;
use crate::grid::Grid;
use crate::layout::{lemma_index_injective, linear_index};
use crate::traverse::visited;
use vstd::prelude::*;

verus! {

/// The six transforms, by the way each one moves the cells.
#[derive(Clone, Copy)]
enum Remap {
    FlipHorizontal,
    FlipVertical,
    Rotate90,
    Rotate180,
    Rotate270,
    Transpose,
}

impl Remap {
    /// The transformed grid.
    spec fn image<T>(self, g: Grid<T>) -> Grid<T> {
        match self {
            Remap::FlipHorizontal => g.flip_horizontal(),
            Remap::FlipVertical => g.flip_vertical(),
            Remap::Rotate90 => g.rotate_90(),
            Remap::Rotate180 => g.rotate_180(),
            Remap::Rotate270 => g.rotate_270(),
            Remap::Transpose => g.transpose(),
        }
    }

    /// Whether the transformed grid has the width and the height of the
    /// source exchanged.
    spec fn turns(self) -> bool {
        self is Rotate90 || self is Rotate270 || self is Transpose
    }

    /// Column and row at which the transformed grid holds the cell that a
    /// `width` by `height` source holds at column `i`, row `j`.
    spec fn target(self, width: nat, height: nat, i: int, j: int) -> (int, int) {
        match self {
            Remap::FlipHorizontal => (width - i - 1, j),
            Remap::FlipVertical => (i, height - j - 1),
            Remap::Rotate90 => (height - j - 1, i),
            Remap::Rotate180 => (width - i - 1, height - j - 1),
            Remap::Rotate270 => (j, width - i - 1),
            Remap::Transpose => (j, i),
        }
    }

    /// Column and row of the cell of a `width` by `height` source that the
    /// transformed grid holds at column `c`, row `r`.
    spec fn origin(self, width: nat, height: nat, c: int, r: int) -> (int, int) {
        match self {
            Remap::FlipHorizontal => (width - c - 1, r),
            Remap::FlipVertical => (c, height - r - 1),
            Remap::Rotate90 => (r, height - c - 1),
            Remap::Rotate180 => (width - c - 1, height - r - 1),
            Remap::Rotate270 => (width - r - 1, c),
            Remap::Transpose => (r, c),
        }
    }

    /// The transformed grid is well formed, has the dimensions that the
    /// transform calls for, and holds every cell of the source at its target.
    /// Two different cells of the source have different targets, and every
    /// cell of the transformed grid is the target of its origin.
    proof fn lemma_image<T>(self, g: Grid<T>)
        requires
            g.wf(),
        ensures
            self.image(g).wf(),
            self.image(g).width == (if self.turns() {
                g.height
            } else {
                g.width
            }),
            self.image(g).height == (if self.turns() {
                g.width
            } else {
                g.height
            }),
            forall|i: int, j: int|
                #![trigger self.target(g.width, g.height, i, j)]
                g.in_bounds(i, j) ==> {
                    let (c, r) = self.target(g.width, g.height, i, j);
                    self.image(g).in_bounds(c, r) && self.image(g).at(c, r) == g.at(i, j)
                },
            forall|i: int, j: int, m: int, n: int|
                #![trigger self.target(g.width, g.height, i, j), self.target(g.width, g.height, m, n)]
                self.target(g.width, g.height, i, j) == self.target(g.width, g.height, m, n)
                    ==> i == m && j == n,
            forall|c: int, r: int|
                #![trigger self.origin(g.width, g.height, c, r)]
                self.image(g).in_bounds(c, r) ==> {
                    let (i, j) = self.origin(g.width, g.height, c, r);
                    g.in_bounds(i, j) && self.target(g.width, g.height, i, j) == (c, r)
                },
    {
        match self {
            Remap::FlipHorizontal => g.lemma_flip_horizontal(),
            Remap::FlipVertical => g.lemma_flip_vertical(),
            Remap::Rotate90 => g.lemma_rotate_90(),
            Remap::Rotate180 => g.lemma_rotate_180(),
            Remap::Rotate270 => g.lemma_rotate_270(),
            Remap::Transpose => g.lemma_transpose(),
        }
    }

    /// Computes the target of the cell at column `i`, row `j`.
    fn destination(self, width: usize, height: usize, i: usize, j: usize) -> (res: (usize, usize))
        requires
            i < width,
            j < height,
        ensures
            (res.0 as int, res.1 as int) == self.target(
                width as nat,
                height as nat,
                i as int,
                j as int,
            ),
    {
        match self {
            Remap::FlipHorizontal => (width - i - 1, j),
            Remap::FlipVertical => (i, height - j - 1),
            Remap::Rotate90 => (height - j - 1, i),
            Remap::Rotate180 => (width - i - 1, height - j - 1),
            Remap::Rotate270 => (j, width - i - 1),
            Remap::Transpose => (j, i),
        }
    }
}

/// The cells in the order in which the chosen traversal visits them.
spec fn order<T>(row_major: bool, g: Grid<T>) -> Seq<(int, int, T)> {
    if row_major {
        g.row_major()
    } else {
        g.col_major()
    }
}

/// The position at which the chosen traversal visits the cell at column
/// `i`, row `j`.
spec fn position<T>(row_major: bool, g: Grid<T>, i: int, j: int) -> int {
    if row_major {
        linear_index(g.width, i, j)
    } else {
        linear_index(g.height, j, i)
    }
}

/// After `done` visits of the chosen traversal of `source`, `filled` has the
/// dimensions of the transformed grid and holds, at its target, a clone of
/// every cell visited so far.
spec fn moved<T: Clone>(
    kind: Remap,
    row_major: bool,
    source: Grid<T>,
    filled: Grid<T>,
    done: int,
) -> bool {
    &&& filled.wf()
    &&& filled.width == kind.image(source).width
    &&& filled.height == kind.image(source).height
    &&& forall|i: int, j: int|
        #![trigger kind.target(source.width, source.height, i, j)]
        source.in_bounds(i, j) && position(row_major, source, i, j) < done ==> {
            let (c, r) = kind.target(source.width, source.height, i, j);
            cloned(source.at(i, j), filled.at(c, r))
        }
}

/// What the chosen traversal hands out at position `k` is a cell of the
/// grid, visited at that position and at no other.
proof fn lemma_order<T>(row_major: bool, g: Grid<T>, k: int)
    requires
        g.wf(),
        0 <= k < g.width * g.height,
    ensures
        g.in_bounds(order(row_major, g)[k].0, order(row_major, g)[k].1),
        order(row_major, g)[k].2 == g.at(order(row_major, g)[k].0, order(row_major, g)[k].1),
        forall|i: int, j: int|
            g.in_bounds(i, j) ==> (#[trigger] position(row_major, g, i, j) == k <==> i == order(
                row_major,
                g,
            )[k].0 && j == order(row_major, g)[k].1),
{
    let t = order(row_major, g)[k];
    if row_major {
        g.lemma_row_major_position(k);
        assert forall|i: int, j: int| g.in_bounds(i, j) && position(row_major, g, i, j) == k implies i
            == t.0 && j == t.1 by {
            lemma_index_injective(g.width, i, j, t.0, t.1);
        }
    } else {
        g.lemma_col_major_position(k);
        assert forall|i: int, j: int| g.in_bounds(i, j) && position(row_major, g, i, j) == k implies i
            == t.0 && j == t.1 by {
            lemma_index_injective(g.height, j, i, t.1, t.0);
        }
    }
}

/// Writing a clone of the cell visited at position `k` at its target turns
/// a grid filled for the first `k` visits into one filled for the first
/// `k + 1` visits.
proof fn lemma_moved_step<T: Clone>(
    kind: Remap,
    row_major: bool,
    source: Grid<T>,
    filled: Grid<T>,
    k: int,
    value: T,
)
    requires
        source.wf(),
        0 <= k < source.width * source.height,
        moved(kind, row_major, source, filled, k),
        cloned(order(row_major, source)[k].2, value),
    ensures
        ({
            let (i, j, _) = order(row_major, source)[k];
            let (c, r) = kind.target(source.width, source.height, i, j);
            filled.in_bounds(c, r) && moved(
                kind,
                row_major,
                source,
                filled.set(c, r, value),
                k + 1,
            )
        }),
{
    let (i, j, _) = order(row_major, source)[k];
    let (c, r) = kind.target(source.width, source.height, i, j);
    lemma_order(row_major, source, k);
    kind.lemma_image(source);
    filled.lemma_set(c, r, value);
    let next = filled.set(c, r, value);
    assert forall|m: int, n: int|
        #![trigger kind.target(source.width, source.height, m, n)]
        source.in_bounds(m, n) && position(row_major, source, m, n) < k + 1 implies ({
        let (c2, r2) = kind.target(source.width, source.height, m, n);
        cloned(source.at(m, n), next.at(c2, r2))
    }) by {
        let (c2, r2) = kind.target(source.width, source.height, m, n);
        if position(row_major, source, m, n) == k {
            assert(m == i && n == j);
        } else {
            assert(kind.target(source.width, source.height, m, n) != kind.target(
                source.width,
                source.height,
                i,
                j,
            ));
            assert(filled.in_bounds(c2, r2));
            assert(next.at(c2, r2) == filled.at(c2, r2));
        }
    }
}

/// A grid filled for all visits is, cell by cell, a clone of the
/// transformed grid.
proof fn lemma_moved_all<T: Clone>(kind: Remap, row_major: bool, source: Grid<T>, filled: Grid<T>)
    requires
        source.wf(),
        moved(kind, row_major, source, filled, (source.width * source.height) as int),
    ensures
        filled.is_clone_of(kind.image(source)),
        forall|i: int, j: int|
            #![trigger kind.target(source.width, source.height, i, j)]
            source.in_bounds(i, j) ==> {
                let (c, r) = kind.target(source.width, source.height, i, j);
                filled.in_bounds(c, r) && cloned(source.at(i, j), filled.at(c, r))
            },
{
    kind.lemma_image(source);
    let image = kind.image(source);
    assert forall|i: int, j: int|
        #![trigger kind.target(source.width, source.height, i, j)]
        source.in_bounds(i, j) implies ({
        let (c, r) = kind.target(source.width, source.height, i, j);
        filled.in_bounds(c, r) && cloned(source.at(i, j), filled.at(c, r))
    }) by {
        if row_major {
            source.lemma_row_major_visit(i, j);
        } else {
            source.lemma_col_major_visit(i, j);
        }
    }
    assert forall|c: int, r: int| image.in_bounds(c, r) implies cloned(
        #[trigger] image.at(c, r),
        filled.at(c, r),
    ) by {
        let (i, j) = kind.origin(source.width, source.height, c, r);
        assert(kind.target(source.width, source.height, i, j) == (c, r));
    }
}

impl<T: Clone> Array2<T> {
    /// Replaces the array by its image under `kind`, visiting the cells in
    /// the chosen order.
    fn remap(&mut self, kind: Remap, iter_row_major: bool)
        ensures
            final(self)@.wf(),
            final(self)@.is_clone_of(kind.image(old(self)@)),
            forall|i: int, j: int|
                #![trigger kind.target(old(self)@.width, old(self)@.height, i, j)]
                old(self)@.in_bounds(i, j) ==> {
                    let (c, r) = kind.target(old(self)@.width, old(self)@.height, i, j);
                    final(self)@.in_bounds(c, r) && cloned(
                        old(self)@.at(i, j),
                        final(self)@.at(c, r),
                    )
                },
    {
        proof {
            use_type_invariant(&*self);
            kind.lemma_image(self@);
            assert(self.height * self.width == self.width * self.height) by (nonlinear_arith);
        }
        let ghost source = self@;
        let (width, height) = match kind {
            Remap::Rotate90 | Remap::Rotate270 | Remap::Transpose => (self.height, self.width),
            _ => (self.width, self.height),
        };
        let mut result = Array2::from_row_major(width, height, self.data.clone()).unwrap();
        let cells = if iter_row_major {
            self.iter_row_major()
        } else {
            self.iter_col_major()
        };
        assert(visited(cells@).len() == cells@.len());
        let mut k: usize = 0;
        while k < cells.len()
            invariant
                source.wf(),
                source == self@,
                visited(cells@) == order(iter_row_major, source),
                cells@.len() == source.width * source.height,
                k <= cells@.len(),
                moved(kind, iter_row_major, source, result@, k as int),
            decreases cells@.len() - k,
        {
            let (i, j, value) = cells[k];
            proof {
                lemma_order(iter_row_major, source, k as int);
                assert(visited(cells@)[k as int] == (i as int, j as int, *value));
            }
            let (c, r) = kind.destination(self.width, self.height, i, j);
            let ghost before = result@;
            let fresh = value.clone();
            proof {
                lemma_moved_step(kind, iter_row_major, source, before, k as int, fresh);
            }
            *result.get_mut(c, r).unwrap() = fresh;
            k += 1;
        }
        proof {
            lemma_moved_all(kind, iter_row_major, source, result@);
        }
        *self = result;
    }

    /// Mirrors the array across its vertical axis: the value at column `i`,
    /// row `j` moves to column `width - i - 1` of the same row. The
    /// dimensions stay as they are.
    ///
    /// `iter_row_major` chooses the traversal that drives the copying and
    /// has no effect on the outcome.
    pub fn flip_horizontal(&mut self, iter_row_major: bool)
        ensures
            final(self)@.wf(),
            final(self)@.width == old(self)@.width,
            final(self)@.height == old(self)@.height,
            final(self)@.is_clone_of(old(self)@.flip_horizontal()),
            forall|i: int, j: int|
                old(self)@.in_bounds(i, j) ==> cloned(
                    #[trigger] old(self)@.at(i, j),
                    final(self)@.at(old(self)@.width - i - 1, j),
                ),
    {
        let ghost source = self@;
        self.remap(Remap::FlipHorizontal, iter_row_major);
        assert forall|i: int, j: int| source.in_bounds(i, j) implies cloned(
            #[trigger] source.at(i, j),
            self@.at(source.width - i - 1, j),
        ) by {
            assert(Remap::FlipHorizontal.target(source.width, source.height, i, j) == (source.width - i - 1, j));
        }
    }

    /// Mirrors the array across its horizontal axis: the value at column
    /// `i`, row `j` moves to row `height - j - 1` of the same column. The
    /// dimensions stay as they are.
    ///
    /// `iter_row_major` chooses the traversal that drives the copying and
    /// has no effect on the outcome.
    pub fn flip_vertical(&mut self, iter_row_major: bool)
        ensures
            final(self)@.wf(),
            final(self)@.width == old(self)@.width,
            final(self)@.height == old(self)@.height,
            final(self)@.is_clone_of(old(self)@.flip_vertical()),
            forall|i: int, j: int|
                old(self)@.in_bounds(i, j) ==> cloned(
                    #[trigger] old(self)@.at(i, j),
                    final(self)@.at(i, old(self)@.height - j - 1),
                ),
    {
        let ghost source = self@;
        self.remap(Remap::FlipVertical, iter_row_major);
        assert forall|i: int, j: int| source.in_bounds(i, j) implies cloned(
            #[trigger] source.at(i, j),
            self@.at(i, source.height - j - 1),
        ) by {
            assert(Remap::FlipVertical.target(source.width, source.height, i, j) == (i, source.height - j - 1));
        }
    }

    /// Turns the array a quarter turn clockwise: the value at column `i`,
    /// row `j` moves to column `height - j - 1`, row `i`. Width and height
    /// change places.
    ///
    /// `iter_row_major` chooses the traversal that drives the copying and
    /// has no effect on the outcome.
    pub fn rotate_90(&mut self, iter_row_major: bool)
        ensures
            final(self)@.wf(),
            final(self)@.width == old(self)@.height,
            final(self)@.height == old(self)@.width,
            final(self)@.is_clone_of(old(self)@.rotate_90()),
            forall|i: int, j: int|
                old(self)@.in_bounds(i, j) ==> cloned(
                    #[trigger] old(self)@.at(i, j),
                    final(self)@.at(old(self)@.height - j - 1, i),
                ),
    {
        let ghost source = self@;
        self.remap(Remap::Rotate90, iter_row_major);
        assert forall|i: int, j: int| source.in_bounds(i, j) implies cloned(
            #[trigger] source.at(i, j),
            self@.at(source.height - j - 1, i),
        ) by {
            assert(Remap::Rotate90.target(source.width, source.height, i, j) == (source.height - j - 1, i));
        }
    }

    /// Turns the array a half turn: the value at column `i`, row `j` moves
    /// to column `width - i - 1`, row `height - j - 1`. The dimensions stay
    /// as they are.
    ///
    /// `iter_row_major` chooses the traversal that drives the copying and
    /// has no effect on the outcome.
    pub fn rotate_180(&mut self, iter_row_major: bool)
        ensures
            final(self)@.wf(),
            final(self)@.width == old(self)@.width,
            final(self)@.height == old(self)@.height,
            final(self)@.is_clone_of(old(self)@.rotate_180()),
            forall|i: int, j: int|
                old(self)@.in_bounds(i, j) ==> cloned(
                    #[trigger] old(self)@.at(i, j),
                    final(self)@.at(old(self)@.width - i - 1, old(self)@.height - j - 1),
                ),
    {
        let ghost source = self@;
        self.remap(Remap::Rotate180, iter_row_major);
        assert forall|i: int, j: int| source.in_bounds(i, j) implies cloned(
            #[trigger] source.at(i, j),
            self@.at(source.width - i - 1, source.height - j - 1),
        ) by {
            assert(Remap::Rotate180.target(source.width, source.height, i, j) == (source.width - i - 1, source.height - j - 1));
        }
    }

    /// Turns the array three quarter turns clockwise: the value at column
    /// `i`, row `j` moves to column `j`, row `width - i - 1`. Width and
    /// height change places.
    ///
    /// `iter_row_major` chooses the traversal that drives the copying and
    /// has no effect on the outcome.
    pub fn rotate_270(&mut self, iter_row_major: bool)
        ensures
            final(self)@.wf(),
            final(self)@.width == old(self)@.height,
            final(self)@.height == old(self)@.width,
            final(self)@.is_clone_of(old(self)@.rotate_270()),
            forall|i: int, j: int|
                old(self)@.in_bounds(i, j) ==> cloned(
                    #[trigger] old(self)@.at(i, j),
                    final(self)@.at(j, old(self)@.width - i - 1),
                ),
    {
        let ghost source = self@;
        self.remap(Remap::Rotate270, iter_row_major);
        assert forall|i: int, j: int| source.in_bounds(i, j) implies cloned(
            #[trigger] source.at(i, j),
            self@.at(j, source.width - i - 1),
        ) by {
            assert(Remap::Rotate270.target(source.width, source.height, i, j) == (j, source.width - i - 1));
        }
    }

    /// Reflects the array across its main diagonal: the value at column
    /// `i`, row `j` moves to column `j`, row `i`. Width and height change
    /// places.
    ///
    /// `iter_row_major` chooses the traversal that drives the copying and
    /// has no effect on the outcome.
    pub fn transpose(&mut self, iter_row_major: bool)
        ensures
            final(self)@.wf(),
            final(self)@.width == old(self)@.height,
            final(self)@.height == old(self)@.width,
            final(self)@.is_clone_of(old(self)@.transpose()),
            forall|i: int, j: int|
                old(self)@.in_bounds(i, j) ==> cloned(
                    #[trigger] old(self)@.at(i, j),
                    final(self)@.at(j, i),
                ),
    {
        let ghost source = self@;
        self.remap(Remap::Transpose, iter_row_major);
        assert forall|i: int, j: int| source.in_bounds(i, j) implies cloned(
            #[trigger] source.at(i, j),
            self@.at(j, i),
        ) by {
            assert(Remap::Transpose.target(source.width, source.height, i, j) == (j, i));
        }
    }
}

} // verus!
