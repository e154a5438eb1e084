//! Laws of the transforms and of the two traversal orders, stated over
//! [`Grid`] and proved for every well-formed grid.

use crate::grid::Grid;
use crate::layout::linear_index;
use vstd::prelude::*;

verus! {

/// Flipping horizontally twice gives back the grid.
pub proof fn lemma_flip_horizontal_twice<T>(g: Grid<T>)
    requires
        g.wf(),
    ensures
        g.flip_horizontal().flip_horizontal() == g,
{
    g.lemma_flip_horizontal();
    g.flip_horizontal().lemma_flip_horizontal();
    g.flip_horizontal().flip_horizontal().lemma_equal_by_cells(g);
}

/// Flipping vertically twice gives back the grid.
pub proof fn lemma_flip_vertical_twice<T>(g: Grid<T>)
    requires
        g.wf(),
    ensures
        g.flip_vertical().flip_vertical() == g,
{
    g.lemma_flip_vertical();
    g.flip_vertical().lemma_flip_vertical();
    g.flip_vertical().flip_vertical().lemma_equal_by_cells(g);
}

/// Two half turns give back the grid.
pub proof fn lemma_rotate_180_twice<T>(g: Grid<T>)
    requires
        g.wf(),
    ensures
        g.rotate_180().rotate_180() == g,
{
    g.lemma_rotate_180();
    g.rotate_180().lemma_rotate_180();
    g.rotate_180().rotate_180().lemma_equal_by_cells(g);
}

/// Two quarter turns are a half turn.
pub proof fn lemma_rotate_90_twice<T>(g: Grid<T>)
    requires
        g.wf(),
    ensures
        g.rotate_90().rotate_90() == g.rotate_180(),
{
    g.lemma_rotate_90();
    g.rotate_90().lemma_rotate_90();
    g.lemma_rotate_180();
    g.rotate_90().rotate_90().lemma_equal_by_cells(g.rotate_180());
}

/// Four quarter turns give back the grid.
pub proof fn lemma_rotate_90_four_times<T>(g: Grid<T>)
    requires
        g.wf(),
    ensures
        g.rotate_90().rotate_90().rotate_90().rotate_90() == g,
{
    lemma_rotate_90_twice(g);
    g.lemma_rotate_180();
    lemma_rotate_90_twice(g.rotate_180());
    lemma_rotate_180_twice(g);
}

/// Three quarter turns in one step are three quarter turns one after the
/// other.
pub proof fn lemma_rotate_270_is_three_quarter_turns<T>(g: Grid<T>)
    requires
        g.wf(),
    ensures
        g.rotate_270() == g.rotate_90().rotate_90().rotate_90(),
{
    lemma_rotate_90_twice(g);
    g.lemma_rotate_180();
    g.rotate_180().lemma_rotate_90();
    g.lemma_rotate_270();
    g.rotate_270().lemma_equal_by_cells(g.rotate_180().rotate_90());
}

/// A quarter turn followed by three quarter turns gives back the grid.
pub proof fn lemma_rotate_90_then_270<T>(g: Grid<T>)
    requires
        g.wf(),
    ensures
        g.rotate_90().rotate_270() == g,
{
    g.lemma_rotate_90();
    g.rotate_90().lemma_rotate_270();
    g.rotate_90().rotate_270().lemma_equal_by_cells(g);
}

/// Three quarter turns followed by a quarter turn give back the grid.
pub proof fn lemma_rotate_270_then_90<T>(g: Grid<T>)
    requires
        g.wf(),
    ensures
        g.rotate_270().rotate_90() == g,
{
    g.lemma_rotate_270();
    g.rotate_270().lemma_rotate_90();
    g.rotate_270().rotate_90().lemma_equal_by_cells(g);
}

/// Transposing twice gives back the grid.
pub proof fn lemma_transpose_twice<T>(g: Grid<T>)
    requires
        g.wf(),
    ensures
        g.transpose().transpose() == g,
{
    g.lemma_transpose();
    g.transpose().lemma_transpose();
    g.transpose().transpose().lemma_equal_by_cells(g);
}

/// No traversal visits a cell twice: what it hands out at two different
/// positions differs in column or row.
pub proof fn lemma_traversals_visit_once<T>(g: Grid<T>)
    requires
        g.wf(),
    ensures
        g.row_major().no_duplicates(),
        g.col_major().no_duplicates(),
{
    let row = g.row_major();
    let col = g.col_major();
    assert forall|m: int, n: int| 0 <= m < row.len() && 0 <= n < row.len() && m != n implies row[m]
        != row[n] by {
        g.lemma_row_major_position(m);
        g.lemma_row_major_position(n);
    }
    assert forall|m: int, n: int| 0 <= m < col.len() && 0 <= n < col.len() && m != n implies col[m]
        != col[n] by {
        g.lemma_col_major_position(m);
        g.lemma_col_major_position(n);
    }
}

/// Both traversals hand out the same `(column, row, value)` triples: what
/// one of them hands out somewhere, the other hands out somewhere too.
pub proof fn lemma_traversals_visit_same_cells<T>(g: Grid<T>, cell: (int, int, T))
    requires
        g.wf(),
    ensures
        g.row_major().contains(cell) <==> g.col_major().contains(cell),
        g.row_major().contains(cell) <==> g.in_bounds(cell.0, cell.1) && cell.2 == g.at(
            cell.0,
            cell.1,
        ),
{
    let row = g.row_major();
    let col = g.col_major();
    if row.contains(cell) {
        let k = choose|k: int| 0 <= k < row.len() && row[k] == cell;
        g.lemma_row_major_position(k);
    }
    if col.contains(cell) {
        let k = choose|k: int| 0 <= k < col.len() && col[k] == cell;
        g.lemma_col_major_position(k);
    }
    if g.in_bounds(cell.0, cell.1) && cell.2 == g.at(cell.0, cell.1) {
        g.lemma_row_major_visit(cell.0, cell.1);
        g.lemma_col_major_visit(cell.0, cell.1);
        assert(row[linear_index(g.width, cell.0, cell.1)] == cell);
        assert(col[linear_index(g.height, cell.1, cell.0)] == cell);
    }
}

/// The two traversals hand out the same multiset of `(column, row, value)`
/// triples; only the order differs.
pub proof fn lemma_traversals_same_multiset<T>(g: Grid<T>)
    requires
        g.wf(),
    ensures
        g.row_major().to_multiset() == g.col_major().to_multiset(),
        g.row_major().len() == g.col_major().len(),
{
    let row = g.row_major();
    let col = g.col_major();
    lemma_traversals_visit_once(g);
    row.lemma_multiset_has_no_duplicates();
    col.lemma_multiset_has_no_duplicates();
    assert forall|cell: (int, int, T)|
        row.to_multiset().count(cell) == col.to_multiset().count(cell) by {
        lemma_traversals_visit_same_cells(g, cell);
        vstd::seq_lib::to_multiset_contains(row, cell);
        vstd::seq_lib::to_multiset_contains(col, cell);
    }
    assert(row.to_multiset() =~= col.to_multiset());
}

} // verus!
