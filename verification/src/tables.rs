//! Rearranging rows and columns of tabular data.
//!
//! Rendering measures into report tables is a consumer of the core's
//! accessors; the rearrangement underneath it, swapping rows for columns, is
//! specified and proved here for any cell type.

use vstd::prelude::*;

verus! {

/// Swaps rows for columns: the result's row `j` holds the `j`-th entry of
/// every input row, in order. Rows beyond the first row's width contribute
/// only their leading entries; the input must not be empty, and no row may
/// be shorter than the first.
pub fn transpose<T>(v: Vec<Vec<T>>) -> (r: Vec<Vec<T>>)
    requires
        v@.len() >= 1,
        forall|i: int| 0 <= i < v@.len() ==> (#[trigger] v@[i])@.len() >= v@[0]@.len(),
    ensures
        r@.len() == v@[0]@.len(),
        forall|j: int| 0 <= j < r@.len() ==> (#[trigger] r@[j])@.len() == v@.len(),
        forall|j: int, i: int|
            0 <= j < r@.len() && 0 <= i < v@.len() ==> (#[trigger] r@[j]@[i]) == v@[i]@[j],
{
    let ghost g = v@.map_values(|row: Vec<T>| row@);
    let len = v[0].len();
    let n = v.len();
    let mut rows = v;
    let mut r: Vec<Vec<T>> = Vec::new();
    for j in 0..len
        invariant
            g.len() == n,
            len == g[0].len(),
            forall|i: int| 0 <= i < n ==> (#[trigger] g[i]).len() >= len,
            rows@.len() == n,
            forall|i: int| 0 <= i < n ==> (#[trigger] rows@[i])@ == g[i].skip(j as int),
            r@.len() == j,
            forall|j2: int| 0 <= j2 < j ==> (#[trigger] r@[j2])@.len() == n,
            forall|j2: int, i: int|
                0 <= j2 < j && 0 <= i < n ==> (#[trigger] r@[j2]@[i]) == g[i][j2],
    {
        let mut out_row: Vec<T> = Vec::new();
        for i in 0..n
            invariant
                g.len() == n,
                len == g[0].len(),
                j < len,
                forall|i2: int| 0 <= i2 < n ==> (#[trigger] g[i2]).len() >= len,
                rows@.len() == n,
                forall|i2: int|
                    i <= i2 < n ==> (#[trigger] rows@[i2])@ == g[i2].skip(j as int),
                forall|i2: int|
                    0 <= i2 < i ==> (#[trigger] rows@[i2])@ == g[i2].skip(j + 1 as int),
                out_row@.len() == i,
                forall|i2: int| 0 <= i2 < i ==> (#[trigger] out_row@[i2]) == g[i2][j as int],
        {
            let x = rows[i].remove(0);
            proof {
                assert(rows@[i as int]@ =~= g[i as int].skip(j + 1 as int));
                assert(x == g[i as int].skip(j as int)[0]);
            }
            out_row.push(x);
        }
        r.push(out_row);
    }
    proof {
        assert(forall|j2: int, i: int|
            0 <= j2 < r@.len() && 0 <= i < v@.len() ==> (#[trigger] r@[j2]@[i]) == g[i][j2]);
    }
    r
}

} // verus!
