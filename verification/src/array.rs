//! The array itself: construction and access to single cells.

use crate::grid::Grid;
use crate::layout::{lemma_index_in_range, linear_index};
use vstd::prelude::*;

verus! {

/// Why an array could not be built.
#[derive(Debug, Clone, Copy, PartialEq, Eq, Structural)]
pub enum Array2Error {
    /// The sequence of values does not hold one value per cell: `expected`
    /// is the product of the requested width and height, `actual` the number
    /// of values that were supplied.
    DimensionMismatch { expected: u128, actual: usize },
}

/// A fixed-size grid of `width` by `height` values, stored row by row.
///
/// The values must support `Clone`: every transform fills a fresh array
/// with clones of the values of the old one.
#[derive(Debug, PartialEq, Eq)]
pub struct Array2<T: Clone> {
    pub(crate) width: usize,
    pub(crate) height: usize,
    pub(crate) data: Vec<T>,
}

impl<T: Clone> View for Array2<T> {
    type V = Grid<T>;

    open(crate) spec fn view(&self) -> Grid<T> {
        Grid { width: self.width as nat, height: self.height as nat, cells: self.data@ }
    }
}

impl<T: Clone> Array2<T> {
    /// The backing vector holds exactly one value per cell.
    #[verifier::type_invariant]
    pub(crate) open spec fn inv(self) -> bool {
        self.data@.len() == self.width * self.height
    }

    /// Creates an array of the given dimensions in which every cell holds
    /// a clone of `val`.
    pub fn new(width: usize, height: usize, val: T) -> (res: Self)
        requires
            width * height <= usize::MAX,
        ensures
            res@.wf(),
            res@.width == width,
            res@.height == height,
            forall|c: int, r: int| res@.in_bounds(c, r) ==> cloned(val, #[trigger] res@.at(c, r)),
    {
        let data = vec![val; width * height];
        let res = Array2 { width, height, data };
        proof {
            assert forall|c: int, r: int| res@.in_bounds(c, r) implies cloned(
                val,
                #[trigger] res@.at(c, r),
            ) by {
                lemma_index_in_range(width as nat, height as nat, c, r);
            }
        }
        res
    }

    /// Creates an array of the given dimensions from its values in
    /// row-major order.
    ///
    /// Succeeds exactly when `values` holds `width * height` values, and then
    /// adopts `values` as it is. Otherwise reports the number of values that
    /// the dimensions call for and the number that were supplied.
    pub fn from_row_major(width: usize, height: usize, values: Vec<T>) -> (res: Result<
        Self,
        Array2Error,
    >)
        ensures
            values@.len() == width * height ==> res is Ok && res->Ok_0@ == (Grid {
                width: width as nat,
                height: height as nat,
                cells: values@,
            }),
            values@.len() != width * height ==> res == Err::<Self, Array2Error>(
                Array2Error::DimensionMismatch {
                    expected: (width * height) as u128,
                    actual: values@.len() as usize,
                },
            ),
    {
        assert(width * height <= u128::MAX) by (nonlinear_arith)
            requires
                width <= u64::MAX,
                height <= u64::MAX,
        ;
        let expected: u128 = (width as u128) * (height as u128);
        if expected != values.len() as u128 {
            Err(Array2Error::DimensionMismatch { expected, actual: values.len() })
        } else {
            Ok(Array2 { width, height, data: values })
        }
    }

    /// The number of rows.
    pub fn height(&self) -> (res: usize)
        ensures
            res == self@.height,
    {
        self.height
    }

    /// The number of columns.
    pub fn width(&self) -> (res: usize)
        ensures
            res == self@.width,
    {
        self.width
    }

    /// All values in row-major order.
    pub fn elements_row_major(&self) -> (res: &Vec<T>)
        ensures
            res@ == self@.cells,
            self@.wf(),
    {
        proof {
            use_type_invariant(self);
        }
        &self.data
    }

    /// The value at column `c`, row `r`, or `None` where the array has no
    /// such cell.
    pub fn get(&self, c: usize, r: usize) -> (res: Option<&T>)
        ensures
            self@.in_bounds(c as int, r as int) ==> res == Some(&self@.at(c as int, r as int)),
            !self@.in_bounds(c as int, r as int) ==> res is None,
    {
        match self.get_index(c, r) {
            Some(index) => Some(&self.data[index]),
            None => None,
        }
    }

    /// Mutable access to the value at column `c`, row `r`, or `None` where
    /// the array has no such cell. Writing through the reference changes
    /// that cell and nothing else.
    pub fn get_mut(&mut self, c: usize, r: usize) -> (res: Option<&mut T>)
        ensures
            old(self)@.in_bounds(c as int, r as int) ==> res is Some && *res->Some_0 == old(
                self,
            )@.at(c as int, r as int) && final(self)@ == old(self)@.set(
                c as int,
                r as int,
                *final(res->Some_0),
            ),
            !old(self)@.in_bounds(c as int, r as int) ==> res is None && final(self)@ == old(
                self,
            )@,
    {
        match self.get_index(c, r) {
            Some(index) => Some(&mut self.data[index]),
            None => None,
        }
    }

    /// Position in the backing vector of the cell at column `c`, row `r`,
    /// or `None` where the array has no such cell.
    pub(crate) fn get_index(&self, c: usize, r: usize) -> (res: Option<usize>)
        ensures
            self@.wf(),
            match res {
                Some(index) => self@.in_bounds(c as int, r as int) && index == linear_index(
                    self@.width,
                    c as int,
                    r as int,
                ) && index < self@.cells.len(),
                None => !self@.in_bounds(c as int, r as int),
            },
    {
        proof {
            use_type_invariant(self);
        }
        if c < self.width && r < self.height {
            proof {
                lemma_index_in_range(self.width as nat, self.height as nat, c as int, r as int);
                assert(self.data@.len() == self.data.len());
                assert(0 <= r * self.width) by (nonlinear_arith);
            }
            Some(r * self.width + c)
        } else {
            None
        }
    }
}

impl<T: Clone> Clone for Array2<T> {
    /// An array of the same dimensions in which every cell holds a clone of
    /// the same cell of `self`.
    fn clone(&self) -> (res: Self)
        ensures
            res@.is_clone_of(self@),
            res@.wf(),
    {
        proof {
            use_type_invariant(self);
        }
        let res = Array2 { width: self.width, height: self.height, data: self.data.clone() };
        proof {
            assert forall|c: int, r: int| self@.in_bounds(c, r) implies cloned(
                #[trigger] self@.at(c, r),
                res@.at(c, r),
            ) by {
                lemma_index_in_range(self.width as nat, self.height as nat, c, r);
            }
        }
        res
    }
}

} // verus!
