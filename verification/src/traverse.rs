//! The two traversal orders.
//!
//! Both visit every cell exactly once and hand out `(column, row, value)`
//! for each; they differ only in the order of the visits.

use crate::array::Array2;
use crate::layout::{lemma_index_in_range, lemma_index_of_coordinates};
use vstd::prelude::*;

verus! {

/// What a traversal has handed out, with plain integers for the
/// coordinates and the values themselves in place of references to them.
pub open spec fn visited<T>(cells: Seq<(usize, usize, &T)>) -> Seq<(int, int, T)> {
    Seq::new(cells.len(), |k: int| (cells[k].0 as int, cells[k].1 as int, *cells[k].2))
}

impl<T: Clone> Array2<T> {
    /// Every cell as `(column, row, value)`, in the order of the backing
    /// vector: the top row from left to right, then the next row, and so on.
    pub fn iter_row_major(&self) -> (res: Vec<(usize, usize, &T)>)
        ensures
            self@.wf(),
            visited(res@) == self@.row_major(),
    {
        proof {
            use_type_invariant(self);
        }
        let total = self.data.len();
        let mut out: Vec<(usize, usize, &T)> = Vec::with_capacity(total);
        let mut k: usize = 0;
        while k < total
            invariant
                total == self.data@.len(),
                total == self.width * self.height,
                k <= total,
                out@.len() == k,
                forall|n: int|
                    0 <= n < k ==> {
                        &&& (#[trigger] out@[n]).0 == n % (self.width as int)
                        &&& out@[n].1 == n / (self.width as int)
                        &&& *out@[n].2 == self.data@[n]
                    },
            decreases total - k,
        {
            proof {
                lemma_index_of_coordinates(self.width as nat, self.height as nat, k as int);
            }
            out.push((k % self.width, k / self.width, &self.data[k]));
            k += 1;
        }
        assert(visited(out@) =~= self@.row_major());
        out
    }

    /// Every cell as `(column, row, value)`, column by column: the leftmost
    /// column from the top down, then the next column, and so on. Within a
    /// column, consecutive cells lie `width` positions apart in the backing
    /// vector.
    pub fn iter_col_major(&self) -> (res: Vec<(usize, usize, &T)>)
        ensures
            self@.wf(),
            visited(res@) == self@.col_major(),
    {
        proof {
            use_type_invariant(self);
        }
        let total = self.data.len();
        let mut out: Vec<(usize, usize, &T)> = Vec::with_capacity(total);
        let mut c: usize = 0;
        while c < self.width
            invariant
                total == self.data@.len(),
                total == self.width * self.height,
                c <= self.width,
                out@.len() == c * self.height,
                forall|n: int|
                    0 <= n < out@.len() ==> {
                        &&& (#[trigger] out@[n]).0 == n / (self.height as int)
                        &&& out@[n].1 == n % (self.height as int)
                        &&& *out@[n].2 == self@.at(
                            n / (self.height as int),
                            n % (self.height as int),
                        )
                    },
            decreases self.width - c,
        {
            let mut r: usize = 0;
            while r < self.height
                invariant
                    total == self.data@.len(),
                    total == self.width * self.height,
                    c < self.width,
                    r <= self.height,
                    out@.len() == c * self.height + r,
                    forall|n: int|
                        0 <= n < out@.len() ==> {
                            &&& (#[trigger] out@[n]).0 == n / (self.height as int)
                            &&& out@[n].1 == n % (self.height as int)
                            &&& *out@[n].2 == self@.at(
                                n / (self.height as int),
                                n % (self.height as int),
                            )
                        },
                decreases self.height - r,
            {
                proof {
                    lemma_index_in_range(self.width as nat, self.height as nat, c as int, r as int);
                    assert(0 <= r * self.width) by (nonlinear_arith);
                    // The next position in column-major order belongs to
                    // column `c`, row `r`.
                    vstd::arithmetic::div_mod::lemma_fundamental_div_mod_converse(
                        c * self.height + r,
                        self.height as int,
                        c as int,
                        r as int,
                    );
                }
                out.push((c, r, &self.data[r * self.width + c]));
                r += 1;
            }
            assert((c + 1) * self.height == c * self.height + self.height) by (nonlinear_arith);
            c += 1;
        }
        proof {
            assert(self.width * self.height == self.height * self.width) by (nonlinear_arith);
            assert(visited(out@) =~= self@.col_major());
        }
        out
    }
}

} // verus!
