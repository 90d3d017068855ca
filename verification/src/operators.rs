//! Operators that move elements without computing on them.

use crate::attention::lemma_cell_in_grid;
use crate::shape::lemma_size_of_pair;
use crate::tensor::Tensor;
use vstd::prelude::*;

verus! {

/// `ids` names rows of a table of `rows` rows.
pub open spec fn rows_exist(ids: Seq<u32>, rows: nat) -> bool {
    forall|i: int| 0 <= i < ids.len() ==> (#[trigger] ids[i]) < rows
}

/// Whether every id names a row of a table of `rows` rows.
pub fn ids_in_table(ids: &Tensor<u32>, rows: usize) -> (r: bool)
    ensures
        r == rows_exist(ids@, rows as nat),
{
    let mut i: usize = 0;
    while i < ids.size()
        invariant
            i <= ids@.len(),
            forall|k: int| 0 <= k < i ==> (#[trigger] ids@[k]) < rows,
        decreases ids@.len() - i,
    {
        if ids.get(i) as usize >= rows {
            return false;
        }
        i += 1;
    }
    true
}

/// The element at column `col` of row `row` in a buffer of rows of `width`
/// elements.
pub open spec fn cell<T>(buffer: Seq<T>, width: int, row: int, col: int) -> T {
    buffer[row * width + col]
}

/// Row lookup: row `i` of `out` becomes the row of `table` that `ids[i]`
/// names. `table` is a matrix; `out` has one row of the same width for each
/// id, and keeps its shape.
pub fn gather<T: Copy>(out: &mut Tensor<T>, ids: &Tensor<u32>, table: &Tensor<T>)
    requires
        table.wf(),
        table.dims().len() == 2,
        rows_exist(ids@, table.dims()[0] as nat),
        old(out)@.len() == ids@.len() * table.dims()[1],
    ensures
        final(out).dims() == old(out).dims(),
        final(out)@.len() == old(out)@.len(),
        table@.len() == table.dims()[0] * table.dims()[1],
        forall|i: int, j: int|
            0 <= i < ids@.len() && 0 <= j < table.dims()[1] ==> #[trigger] cell(
                final(out)@,
                table.dims()[1] as int,
                i,
                j,
            ) == cell(table@, table.dims()[1] as int, ids@[i] as int, j),
{
    let length: usize = ids.size();
    let rows: usize = table.shape()[0];
    let dim: usize = table.shape()[1];
    let stored: usize = table.size();
    proof {
        assert(table.dims() =~= seq![rows, dim]);
        lemma_size_of_pair(rows, dim);
        assert(table@.len() == rows * dim);
    }
    let total: usize = out.size();
    let mut i: usize = 0;
    while i < length
        invariant
            i <= length,
            length == ids@.len(),
            table@.len() == rows * dim <= usize::MAX,
            rows_exist(ids@, rows as nat),
            out.dims() == old(out).dims(),
            out@.len() == total,
            total == length * dim,
            forall|a: int, b: int|
                0 <= a < i && 0 <= b < dim ==> #[trigger] cell(out@, dim as int, a, b) == cell(
                    table@,
                    dim as int,
                    ids@[a] as int,
                    b,
                ),
        decreases length - i,
    {
        let id: usize = ids.get(i) as usize;
        let mut j: usize = 0;
        while j < dim
            invariant
                i < length,
                j <= dim,
                length == ids@.len(),
                id == ids@[i as int],
                id < rows,
                table@.len() == rows * dim <= usize::MAX,
                out.dims() == old(out).dims(),
                out@.len() == total,
                total == length * dim,
                forall|a: int, b: int|
                    0 <= a < i && 0 <= b < dim ==> #[trigger] cell(out@, dim as int, a, b) == cell(
                        table@,
                        dim as int,
                        ids@[a] as int,
                        b,
                    ),
                forall|b: int|
                    0 <= b < j ==> #[trigger] cell(out@, dim as int, i as int, b) == cell(
                        table@,
                        dim as int,
                        id as int,
                        b,
                    ),
            decreases dim - j,
        {
            proof {
                lemma_cell_in_grid(id as int, rows as int, j as int, dim as int);
                lemma_cell_in_grid(i as int, length as int, j as int, dim as int);
            }
            let value: T = table.get(id * dim + j);
            let ghost before = out@;
            out.set(i * dim + j, value);
            proof {
                assert forall|a: int, b: int| 0 <= a < i && 0 <= b < dim implies #[trigger] cell(
                    out@,
                    dim as int,
                    a,
                    b,
                ) == cell(before, dim as int, a, b) by {
                    lemma_cell_in_grid(a, i as int, b, dim as int);
                    assert(i * dim <= i * dim + j);
                }
                assert forall|b: int| 0 <= b < j implies #[trigger] cell(
                    out@,
                    dim as int,
                    i as int,
                    b,
                ) == cell(before, dim as int, i as int, b) by {}
                assert(cell(out@, dim as int, i as int, j as int) == value);
            }
            j += 1;
        }
        i += 1;
    }
}

} // verus!
