//! Plain-data sparse matrices over the foreign field, and the native
//! (reference) sparse matrix-vector product.

use crate::field::{fe_add, fe_mul, foreign_modulus, Fe};
use vstd::arithmetic::div_mod::lemma_add_mod_noop_right;
use vstd::prelude::*;

verus! {

/// The values a sequence of field elements stands for.
pub open spec fn fe_vals(s: Seq<Fe>) -> Seq<nat> {
    s.map_values(|f: Fe| f.as_nat())
}

/// The abstract entries of one sparse row: (value, column index) pairs.
pub open spec fn row_entries(row: Seq<(Fe, usize)>) -> Seq<(nat, nat)> {
    row.map_values(|e: (Fe, usize)| (e.0.as_nat(), e.1 as nat))
}

/// A well-formed sparse row for a given column count: every stored value is a
/// canonical field element, every column index is in range, and no column
/// appears twice.
pub open spec fn row_wf(row: Seq<(Fe, usize)>, n_cols: nat) -> bool {
    &&& forall|j: int| 0 <= j < row.len() ==> (#[trigger] row[j]).0.wf() && row[j].1 < n_cols
    &&& forall|j: int, k: int|
        0 <= j < k < row.len() ==> (#[trigger] row[j]).1 != (#[trigger] row[k]).1
}

/// A sparse matrix over the foreign field: only non-zero entries are stored,
/// row by row, each as a (value, column index) pair.
pub struct SparseMatrix {
    pub n_rows: usize,
    pub n_cols: usize,
    pub coeffs: Vec<Vec<(Fe, usize)>>,
}

impl SparseMatrix {
    /// The abstract entries, row by row.
    pub open spec fn entries(self) -> Seq<Seq<(nat, nat)>> {
        self.coeffs@.map_values(|r: Vec<(Fe, usize)>| row_entries(r@))
    }

    /// Structural invariant: one stored row per matrix row, each well formed.
    pub open spec fn wf(self) -> bool {
        &&& self.coeffs@.len() == self.n_rows
        &&& forall|i: int|
            0 <= i < self.coeffs@.len() ==> row_wf(
                (#[trigger] self.coeffs@[i])@,
                self.n_cols as nat,
            )
    }
}

/// The value of one row of the product: the stored coefficients times the
/// matching vector entries, accumulated left to right in the foreign field.
pub open spec fn row_mv(row: Seq<(nat, nat)>, z: Seq<nat>) -> nat
    decreases row.len(),
{
    if row.len() == 0 {
        0
    } else {
        (row_mv(row.drop_last(), z) + row.last().0 * z[row.last().1 as int])
            % foreign_modulus()
    }
}

/// The whole product A * z, row by row.
pub open spec fn spec_mat_vec_mul(m: Seq<Seq<(nat, nat)>>, z: Seq<nat>) -> Seq<nat> {
    Seq::new(m.len(), |i: int| row_mv(m[i], z))
}

/// Every row of the product is a canonical field value.
pub proof fn lemma_row_mv_bound(row: Seq<(nat, nat)>, z: Seq<nat>)
    ensures
        row_mv(row, z) < foreign_modulus(),
{
    if row.len() == 0 {
    } else {
        vstd::arithmetic::div_mod::lemma_mod_bound(
            (row_mv(row.drop_last(), z) + row.last().0 * z[row.last().1 as int]) as int,
            foreign_modulus() as int,
        );
    }
}

/// The native sparse matrix-vector product: for each row i the result is the
/// sum over stored (value, col) pairs of value * z[col], in the foreign field.
/// This is the reference the circuit is held to.
pub fn mat_vec_mul_sparse(m: &SparseMatrix, z: &Vec<Fe>) -> (res: Vec<Fe>)
    requires
        m.wf(),
        z@.len() == m.n_cols,
        forall|i: int| 0 <= i < z@.len() ==> (#[trigger] z@[i]).wf(),
    ensures
        res@.len() == m.n_rows,
        forall|i: int| 0 <= i < res@.len() ==> (#[trigger] res@[i]).wf(),
        fe_vals(res@) == spec_mat_vec_mul(m.entries(), fe_vals(z@)),
{
    let ghost zv = fe_vals(z@);
    let mut res: Vec<Fe> = Vec::new();
    let n = m.coeffs.len();
    for i in 0..n
        invariant
            n == m.coeffs@.len(),
            m.wf(),
            z@.len() == m.n_cols,
            forall|t: int| 0 <= t < z@.len() ==> (#[trigger] z@[t]).wf(),
            zv == fe_vals(z@),
            res@.len() == i,
            forall|t: int| 0 <= t < i ==> (#[trigger] res@[t]).wf(),
            forall|t: int|
                0 <= t < i ==> (#[trigger] res@[t]).as_nat() == row_mv(
                    row_entries(m.coeffs@[t]@),
                    zv,
                ),
    {
        let row = &m.coeffs[i];
        let k = row.len();
        let mut acc = Fe::zero();
        for j in 0..k
            invariant
                n == m.coeffs@.len(),
                i < n,
                m.wf(),
                z@.len() == m.n_cols,
                forall|t: int| 0 <= t < z@.len() ==> (#[trigger] z@[t]).wf(),
                zv == fe_vals(z@),
                row == &m.coeffs@[i as int],
                k == row@.len(),
                acc.wf(),
                acc.as_nat() == row_mv(row_entries(row@).take(j as int), zv),
        {
            let (value, col) = row[j];
            assert(row_wf(row@, m.n_cols as nat));
            assert(row@[j as int].0.wf() && row@[j as int].1 < m.n_cols);
            let term = fe_mul(&value, &z[col]);
            let ghost before = acc.as_nat();
            acc = fe_add(&acc, &term);
            proof {
                let re = row_entries(row@);
                let v = value.as_nat();
                let zc = zv[col as int];
                assert(zc == z@[col as int].as_nat());
                assert(re.take(j + 1).drop_last() =~= re.take(j as int));
                assert(re.take(j + 1).last() == re[j as int]);
                lemma_add_mod_noop_right(before as int, (v * zc) as int, foreign_modulus() as int);
                assert(acc.as_nat() == (before + v * zc) % foreign_modulus());
                assert(acc.as_nat() == row_mv(re.take(j + 1), zv));
            }
        }
        proof {
            assert(row_entries(row@).take(k as int) =~= row_entries(row@));
        }
        res.push(acc);
    }
    proof {
        assert(fe_vals(res@) =~= spec_mat_vec_mul(m.entries(), zv));
    }
    res
}

/// The sparse form of one dense row: its non-zero entries, each with its
/// column index, in column order.
pub open spec fn sparsify_row(dense: Seq<nat>) -> Seq<(nat, nat)>
    decreases dense.len(),
{
    if dense.len() == 0 {
        Seq::empty()
    } else {
        let pre = sparsify_row(dense.drop_last());
        if dense.last() == 0 {
            pre
        } else {
            pre.push((dense.last(), (dense.len() - 1) as nat))
        }
    }
}

/// Drops the zero entries of a dense matrix. The input must have at least one
/// row and be rectangular; row 0 fixes the column count.
pub fn dense_matrix_to_sparse(m: Vec<Vec<Fe>>) -> (r: SparseMatrix)
    requires
        m@.len() > 0,
        forall|i: int| 0 <= i < m@.len() ==> (#[trigger] m@[i])@.len() == m@[0]@.len(),
        forall|i: int, j: int|
            0 <= i < m@.len() && 0 <= j < m@[i]@.len() ==> (#[trigger] m@[i]@[j]).wf(),
    ensures
        r.wf(),
        r.n_rows == m@.len(),
        r.n_cols == m@[0]@.len(),
        r.coeffs@.len() == m@.len(),
        forall|i: int|
            0 <= i < m@.len() ==> row_entries((#[trigger] r.coeffs@[i])@) == sparsify_row(
                fe_vals(m@[i]@),
            ),
{
    let n_rows = m.len();
    let n_cols = m[0].len();
    let mut coeffs: Vec<Vec<(Fe, usize)>> = Vec::new();
    for i in 0..n_rows
        invariant
            n_rows == m@.len(),
            n_rows > 0,
            n_cols == m@[0]@.len(),
            forall|t: int| 0 <= t < m@.len() ==> (#[trigger] m@[t])@.len() == n_cols,
            forall|t: int, j: int|
                0 <= t < m@.len() && 0 <= j < m@[t]@.len() ==> (#[trigger] m@[t]@[j]).wf(),
            coeffs@.len() == i,
            forall|t: int| 0 <= t < i ==> row_wf((#[trigger] coeffs@[t])@, n_cols as nat),
            forall|t: int|
                0 <= t < i ==> row_entries((#[trigger] coeffs@[t])@) == sparsify_row(
                    fe_vals(m@[t]@),
                ),
    {
        let dense_row = &m[i];
        let mut row: Vec<(Fe, usize)> = Vec::new();
        for j in 0..n_cols
            invariant
                n_rows == m@.len(),
                i < n_rows,
                n_cols == m@[0]@.len(),
                dense_row == &m@[i as int],
                dense_row@.len() == n_cols,
                forall|t: int| 0 <= t < dense_row@.len() ==> (#[trigger] dense_row@[t]).wf(),
                forall|t: int| 0 <= t < row@.len() ==> (#[trigger] row@[t]).0.wf(),
                forall|t: int| 0 <= t < row@.len() ==> (#[trigger] row@[t]).1 < j,
                forall|t: int, u: int|
                    0 <= t < u < row@.len() ==> (#[trigger] row@[t]).1 < (#[trigger] row@[u]).1,
                row_entries(row@) == sparsify_row(fe_vals(dense_row@).take(j as int)),
        {
            let value = dense_row[j];
            let ghost dv = fe_vals(dense_row@);
            proof {
                assert(dv.take(j + 1).drop_last() =~= dv.take(j as int));
                assert(dv.take(j + 1).last() == value.as_nat());
            }
            if !value.is_zero() {
                let ghost old_row = row@;
                row.push((value, j));
                proof {
                    assert(row_entries(row@) =~= row_entries(old_row).push(
                        (value.as_nat(), j as nat),
                    ));
                }
            }
        }
        proof {
            assert(fe_vals(dense_row@).take(n_cols as int) =~= fe_vals(dense_row@));
        }
        coeffs.push(row);
    }
    let r = SparseMatrix { n_rows, n_cols, coeffs };
    proof {
        assert(r.wf());
    }
    r
}

/// The values of a sequence of machine integers.
pub open spec fn usize_vals(s: Seq<usize>) -> Seq<nat> {
    s.map_values(|x: usize| x as nat)
}

/// Embeds a vector of machine integers into the foreign field.
#[allow(non_snake_case)]
pub fn to_F_vec(z: Vec<usize>) -> (r: Vec<Fe>)
    ensures
        r@.len() == z@.len(),
        forall|i: int| 0 <= i < r@.len() ==> (#[trigger] r@[i]).wf(),
        fe_vals(r@) == usize_vals(z@),
{
    let mut r: Vec<Fe> = Vec::new();
    let n = z.len();
    for i in 0..n
        invariant
            n == z@.len(),
            r@.len() == i,
            forall|t: int| 0 <= t < i ==> (#[trigger] r@[t]).wf(),
            forall|t: int| 0 <= t < i ==> (#[trigger] r@[t]).as_nat() == z@[t] as nat,
    {
        r.push(Fe::from_u64(z[i] as u64));
    }
    proof {
        assert(fe_vals(r@) =~= usize_vals(z@));
    }
    r
}

/// Embeds a dense matrix of machine integers into the foreign field.
#[allow(non_snake_case)]
pub fn to_F_dense_matrix(m: Vec<Vec<usize>>) -> (r: Vec<Vec<Fe>>)
    ensures
        r@.len() == m@.len(),
        forall|i: int| 0 <= i < r@.len() ==> (#[trigger] r@[i])@.len() == m@[i]@.len(),
        forall|i: int, j: int|
            0 <= i < r@.len() && 0 <= j < r@[i]@.len() ==> (#[trigger] r@[i]@[j]).wf(),
        forall|i: int| 0 <= i < r@.len() ==> fe_vals((#[trigger] r@[i])@) == usize_vals(m@[i]@),
{
    let mut r: Vec<Vec<Fe>> = Vec::new();
    let n = m.len();
    for i in 0..n
        invariant
            n == m@.len(),
            r@.len() == i,
            forall|t: int| 0 <= t < i ==> (#[trigger] r@[t])@.len() == m@[t]@.len(),
            forall|t: int, j: int|
                0 <= t < i && 0 <= j < r@[t]@.len() ==> (#[trigger] r@[t]@[j]).wf(),
            forall|t: int| 0 <= t < i ==> fe_vals((#[trigger] r@[t])@) == usize_vals(m@[t]@),
    {
        r.push(to_F_vec_ref(&m[i]));
    }
    r
}

/// As `to_F_vec`, reading the input through a reference.
#[allow(non_snake_case)]
fn to_F_vec_ref(z: &Vec<usize>) -> (r: Vec<Fe>)
    ensures
        r@.len() == z@.len(),
        forall|i: int| 0 <= i < r@.len() ==> (#[trigger] r@[i]).wf(),
        fe_vals(r@) == usize_vals(z@),
{
    let mut r: Vec<Fe> = Vec::new();
    let n = z.len();
    for i in 0..n
        invariant
            n == z@.len(),
            r@.len() == i,
            forall|t: int| 0 <= t < i ==> (#[trigger] r@[t]).wf(),
            forall|t: int| 0 <= t < i ==> (#[trigger] r@[t]).as_nat() == z@[t] as nat,
    {
        r.push(Fe::from_u64(z[i] as u64));
    }
    proof {
        assert(fe_vals(r@) =~= usize_vals(z@));
    }
    r
}

/// Builds a sparse matrix from a dense literal of machine integers.
#[allow(non_snake_case)]
pub fn to_F_matrix(m: Vec<Vec<usize>>) -> (r: SparseMatrix)
    requires
        m@.len() > 0,
        forall|i: int| 0 <= i < m@.len() ==> (#[trigger] m@[i])@.len() == m@[0]@.len(),
    ensures
        r.wf(),
        r.n_rows == m@.len(),
        r.n_cols == m@[0]@.len(),
        r.coeffs@.len() == m@.len(),
        forall|i: int|
            0 <= i < m@.len() ==> row_entries((#[trigger] r.coeffs@[i])@) == sparsify_row(
                usize_vals(m@[i]@),
            ),
{
    let dense = to_F_dense_matrix(m);
    let r = dense_matrix_to_sparse(dense);
    r
}

} // verus!
