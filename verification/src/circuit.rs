//! The in-circuit mirror of a sparse matrix, the two gadgets computing the
//! matrix-vector product inside the circuit, and the top-level circuit that
//! asserts the product equals a claimed output vector.

use crate::field::{foreign_modulus, Fe};
use crate::matrix::{fe_vals, row_entries, row_mv, spec_mat_vec_mul, SparseMatrix};
use crate::r1cs::{
    cs_count, cs_id, cs_is_satisfied, cs_live, cs_profile, cs_sat, new_constraint_system, nn_add,
    nn_allocated, nn_enforce_equal, nn_in, nn_mul, nn_new_constant, nn_new_witness, nn_readable,
    nn_value, nn_value_read, nn_zero, num_constraints, witness_alloc_cost, CircuitRef, NnVar,
};
use ark_relations::r1cs::SynthesisError;
use vstd::arithmetic::div_mod::lemma_add_mod_noop_right;
use vstd::prelude::*;

verus! {

/// A synthesis failure, carrying the underlying error verbatim.
#[derive(Debug)]
pub struct SynthError {
    pub cause: SynthesisError,
}

/// How the entries of a matrix enter the circuit: baked in as constants, or
/// allocated as private witnesses.
#[derive(Clone, Copy, PartialEq, Eq, Structural, Debug)]
pub enum AllocationMode {
    Constant,
    Witness,
}

/// The values of a sequence of circuit variables.
pub open spec fn nn_vals(s: Seq<NnVar>) -> Seq<nat> {
    s.map_values(|v: NnVar| nn_value(v))
}

/// The abstract entries of one in-circuit sparse row.
pub open spec fn var_row_entries(row: Seq<(NnVar, usize)>) -> Seq<(nat, nat)> {
    row.map_values(|e: (NnVar, usize)| (nn_value(e.0), e.1 as nat))
}

/// Every variable of a sequence may be used with the given handle.
pub open spec fn nn_vec_in(s: Seq<NnVar>, cs: CircuitRef) -> bool {
    forall|i: int| 0 <= i < s.len() ==> nn_in(#[trigger] s[i], cs)
}

/// Column indices of one in-circuit row are in range.
pub open spec fn var_row_wf(row: Seq<(NnVar, usize)>, n_cols: nat) -> bool {
    forall|j: int| 0 <= j < row.len() ==> (#[trigger] row[j]).1 < n_cols
}

/// How many entries a matrix stores in all.
pub open spec fn matrix_entry_count(m: Seq<Seq<(nat, nat)>>) -> nat
    decreases m.len(),
{
    if m.len() == 0 {
        0
    } else {
        matrix_entry_count(m.drop_last()) + m.last().len()
    }
}

/// How many constraints allocating a matrix adds: none in constant mode, one
/// witness allocation per stored entry otherwise.
pub open spec fn alloc_cost(m: Seq<Seq<(nat, nat)>>, mode: AllocationMode, profile: nat) -> nat {
    if mode is Witness {
        matrix_entry_count(m) * witness_alloc_cost(profile)
    } else {
        0
    }
}

/// The in-circuit mirror of a SparseMatrix: the same shape and sparsity, each
/// stored value now a circuit variable over the foreign field.
pub struct SparseMatrixVar {
    pub n_rows: usize,
    pub n_cols: usize,
    pub coeffs: Vec<Vec<(NnVar, usize)>>,
}

impl SparseMatrixVar {
    /// Structural invariant: one stored row per matrix row, column indices in
    /// range.
    pub open spec fn wf(self) -> bool {
        &&& self.coeffs@.len() == self.n_rows
        &&& forall|i: int|
            0 <= i < self.coeffs@.len() ==> var_row_wf(
                (#[trigger] self.coeffs@[i])@,
                self.n_cols as nat,
            )
    }

    /// Every stored variable's value can be read back.
    pub open spec fn readable(self) -> bool {
        forall|i: int, j: int|
            0 <= i < self.coeffs@.len() && 0 <= j < self.coeffs@[i]@.len() ==> nn_readable(
                (#[trigger] self.coeffs@[i]@[j]).0,
            )
    }

    /// Every stored variable may be used with the given handle.
    pub open spec fn in_system(self, cs: CircuitRef) -> bool {
        forall|i: int, j: int|
            0 <= i < self.coeffs@.len() && 0 <= j < self.coeffs@[i]@.len() ==> nn_in(
                (#[trigger] self.coeffs@[i]@[j]).0,
                cs,
            )
    }

    /// Every stored variable is an allocated one.
    pub open spec fn all_vars_allocated(self) -> bool {
        forall|i: int, j: int|
            0 <= i < self.coeffs@.len() && 0 <= j < self.coeffs@[i]@.len() ==> nn_allocated(
                (#[trigger] self.coeffs@[i]@[j]).0,
            )
    }

    /// Every stored variable is a bare constant.
    pub open spec fn all_vars_constant(self) -> bool {
        forall|i: int, j: int|
            0 <= i < self.coeffs@.len() && 0 <= j < self.coeffs@[i]@.len() ==> !nn_allocated(
                (#[trigger] self.coeffs@[i]@[j]).0,
            )
    }

    /// Allocates every stored coefficient of the matrix, in row-major order,
    /// under the given mode. It always succeeds in this version: the
    /// underlying allocations cannot fail, and the error plumbing only
    /// propagates what they report. The result mirrors the matrix exactly:
    /// same shape, same sparsity, each variable assigned the source value.
    /// The constraints this adds are `alloc_cost` many, a function of the
    /// entry count, the mode and the system's profile alone.
    pub fn new_variable(cs: &mut CircuitRef, m: &SparseMatrix, mode: AllocationMode) -> (r: Result<
        SparseMatrixVar,
        SynthError,
    >)
        requires
            m.wf(),
        ensures
            r is Ok ==> (r->Ok_0).wf(),
            r is Ok ==> (r->Ok_0).n_rows == m.n_rows && (r->Ok_0).n_cols == m.n_cols,
            r is Ok ==> (r->Ok_0).coeffs@.len() == m.coeffs@.len(),
            r is Ok ==> forall|i: int|
                0 <= i < m.coeffs@.len() ==> var_row_entries(
                    (#[trigger] (r->Ok_0).coeffs@[i])@,
                ) == row_entries(m.coeffs@[i]@),
            r is Ok ==> cs_sat(*final(cs)) == cs_sat(*old(cs)),
            r is Ok ==> cs_count(*final(cs)) == cs_count(*old(cs)) + alloc_cost(
                m.entries(),
                mode,
                cs_profile(*old(cs)),
            ),
            cs_profile(*final(cs)) == cs_profile(*old(cs)),
            r is Ok,
            cs_live(*final(cs)) == cs_live(*old(cs)),
            cs_id(*final(cs)) == cs_id(*old(cs)),
            (r->Ok_0).in_system(*final(cs)),
            mode is Constant || cs_live(*old(cs)) ==> (r->Ok_0).readable(),
            mode is Constant ==> (r->Ok_0).all_vars_constant(),
            mode is Witness && cs_live(*old(cs)) ==> (r->Ok_0).all_vars_allocated(),
    {
        let ghost profile = cs_profile(*cs);
        let ghost wc = witness_alloc_cost(profile);
        let ghost c0 = cs_count(*cs);
        let n = m.coeffs.len();
        let mut coeffs: Vec<Vec<(NnVar, usize)>> = Vec::new();
        proof {
            assert(m.entries().take(0) =~= Seq::<Seq<(nat, nat)>>::empty());
            assert(matrix_entry_count(m.entries().take(0)) == 0);
            assert(0 * wc == 0);
        }
        for i in 0..n
            invariant
                n == m.coeffs@.len(),
                m.wf(),
                profile == cs_profile(*cs),
                profile == cs_profile(*old(cs)),
                wc == witness_alloc_cost(profile),
                c0 == cs_count(*old(cs)),
                cs_sat(*cs) == cs_sat(*old(cs)),
                cs_live(*cs) == cs_live(*old(cs)),
                cs_id(*cs) == cs_id(*old(cs)),
                cs_count(*cs) == c0 + alloc_cost(m.entries().take(i as int), mode, profile),
                coeffs@.len() == i,
                forall|t: int|
                    0 <= t < i ==> var_row_wf((#[trigger] coeffs@[t])@, m.n_cols as nat),
                forall|t: int|
                    0 <= t < i ==> var_row_entries((#[trigger] coeffs@[t])@) == row_entries(
                        m.coeffs@[t]@,
                    ),
                mode is Constant || cs_live(*old(cs)) ==> forall|t: int, u: int|
                    0 <= t < i && 0 <= u < coeffs@[t]@.len() ==> nn_readable(
                        (#[trigger] coeffs@[t]@[u]).0,
                    ),
                forall|t: int, u: int|
                    0 <= t < i && 0 <= u < coeffs@[t]@.len() ==> nn_in(
                        (#[trigger] coeffs@[t]@[u]).0,
                        *cs,
                    ),
                mode is Constant ==> forall|t: int, u: int|
                    0 <= t < i && 0 <= u < coeffs@[t]@.len() ==> !nn_allocated(
                        (#[trigger] coeffs@[t]@[u]).0,
                    ),
                mode is Witness && cs_live(*old(cs)) ==> forall|t: int, u: int|
                    0 <= t < i && 0 <= u < coeffs@[t]@.len() ==> nn_allocated(
                        (#[trigger] coeffs@[t]@[u]).0,
                    ),
        {
            let row = &m.coeffs[i];
            let k = row.len();
            let mut row_var: Vec<(NnVar, usize)> = Vec::new();
            proof {
                assert(0 * wc == 0);
            }
            for j in 0..k
                invariant
                    n == m.coeffs@.len(),
                    i < n,
                    m.wf(),
                    profile == cs_profile(*cs),
                    profile == cs_profile(*old(cs)),
                    wc == witness_alloc_cost(profile),
                    c0 == cs_count(*old(cs)),
                    row == &m.coeffs@[i as int],
                    k == row@.len(),
                    cs_sat(*cs) == cs_sat(*old(cs)),
                    cs_live(*cs) == cs_live(*old(cs)),
                    cs_id(*cs) == cs_id(*old(cs)),
                    cs_count(*cs) == c0 + alloc_cost(m.entries().take(i as int), mode, profile)
                        + (if mode is Witness {
                        j * wc
                    } else {
                        0
                    }),
                    row_var@.len() == j,
                    forall|t: int| 0 <= t < j ==> (#[trigger] row_var@[t]).1 < m.n_cols,
                    var_row_entries(row_var@) == row_entries(row@).take(j as int),
                    mode is Constant || cs_live(*old(cs)) ==> forall|t: int|
                        0 <= t < j ==> nn_readable((#[trigger] row_var@[t]).0),
                    forall|t: int| 0 <= t < j ==> nn_in((#[trigger] row_var@[t]).0, *cs),
                    mode is Constant ==> forall|t: int|
                        0 <= t < j ==> !nn_allocated((#[trigger] row_var@[t]).0),
                    mode is Witness && cs_live(*old(cs)) ==> forall|t: int|
                        0 <= t < j ==> nn_allocated((#[trigger] row_var@[t]).0),
            {
                let (value, col) = row[j];
                assert(crate::matrix::row_wf(row@, m.n_cols as nat));
                assert(value.wf() && col < m.n_cols);
                let ghost cnt_before = cs_count(*cs);
                let var = match mode {
                    AllocationMode::Constant => {
                        match nn_new_constant(cs, &value) {
                            Ok(v) => v,
                            Err(e) => {
                                return Err(SynthError { cause: e });
                            },
                        }
                    },
                    AllocationMode::Witness => {
                        match nn_new_witness(cs, &value) {
                            Ok(v) => v,
                            Err(e) => {
                                return Err(SynthError { cause: e });
                            },
                        }
                    },
                };
                proof {
                    if mode is Witness {
                        assert(cs_count(*cs) == cnt_before + wc);
                        assert((j + 1) * wc == j * wc + wc) by (nonlinear_arith);
                    }
                }
                let ghost old_row_var = row_var@;
                row_var.push((var, col));
                proof {
                    assert(var_row_entries(row_var@) =~= var_row_entries(old_row_var).push(
                        (nn_value(var), col as nat),
                    ));
                    assert(row_entries(row@).take(j + 1).drop_last() =~= row_entries(
                        row@,
                    ).take(j as int));
                    assert(var_row_entries(row_var@) =~= row_entries(row@).take(j + 1));
                }
            }
            proof {
                assert(row_entries(row@).take(k as int) =~= row_entries(row@));
                assert(m.entries().take(i + 1).drop_last() =~= m.entries().take(i as int));
                assert(m.entries().take(i + 1).last() == row_entries(row@));
                assert(matrix_entry_count(m.entries().take(i + 1)) == matrix_entry_count(
                    m.entries().take(i as int),
                ) + k);
                if mode is Witness {
                    assert((matrix_entry_count(m.entries().take(i as int)) + k) * wc
                        == matrix_entry_count(m.entries().take(i as int)) * wc + k * wc)
                        by (nonlinear_arith);
                }
            }
            coeffs.push(row_var);
        }
        proof {
            assert(m.entries().take(n as int) =~= m.entries());
        }
        Ok(SparseMatrixVar { n_rows: m.n_rows, n_cols: m.n_cols, coeffs })
    }
}

/// Allocates each element of a vector as a private witness, in order. It
/// always succeeds in this version; on a live system every returned variable
/// is an allocated one whose value can be read back.
pub fn alloc_witness_vec(cs: &mut CircuitRef, v: &Vec<Fe>) -> (r: Result<Vec<NnVar>, SynthError>)
    requires
        forall|i: int| 0 <= i < v@.len() ==> (#[trigger] v@[i]).wf(),
    ensures
        r is Ok,
        (r->Ok_0)@.len() == v@.len(),
        nn_vals((r->Ok_0)@) == fe_vals(v@),
        cs_sat(*final(cs)) == cs_sat(*old(cs)),
        cs_profile(*final(cs)) == cs_profile(*old(cs)),
        cs_live(*final(cs)) == cs_live(*old(cs)),
        cs_id(*final(cs)) == cs_id(*old(cs)),
        nn_vec_in((r->Ok_0)@, *final(cs)),
        cs_live(*old(cs)) ==> forall|i: int|
            0 <= i < (r->Ok_0)@.len() ==> nn_readable(#[trigger] (r->Ok_0)@[i]) && nn_allocated(
                (r->Ok_0)@[i],
            ),
{
    let n = v.len();
    let mut out: Vec<NnVar> = Vec::new();
    for i in 0..n
        invariant
            n == v@.len(),
            forall|t: int| 0 <= t < v@.len() ==> (#[trigger] v@[t]).wf(),
            cs_sat(*cs) == cs_sat(*old(cs)),
            cs_profile(*cs) == cs_profile(*old(cs)),
            cs_live(*cs) == cs_live(*old(cs)),
            cs_id(*cs) == cs_id(*old(cs)),
            out@.len() == i,
            forall|t: int| 0 <= t < i ==> nn_value(#[trigger] out@[t]) == v@[t].as_nat(),
            forall|t: int| 0 <= t < i ==> nn_in(#[trigger] out@[t], *cs),
            cs_live(*old(cs)) ==> forall|t: int|
                0 <= t < i ==> nn_readable(#[trigger] out@[t]) && nn_allocated(out@[t]),
    {
        let var = match nn_new_witness(cs, &v[i]) {
            Ok(w) => w,
            Err(e) => {
                return Err(SynthError { cause: e });
            },
        };
        out.push(var);
    }
    proof {
        assert(nn_vals(out@) =~= fe_vals(v@));
    }
    Ok(out)
}

/// The sparse matrix-vector product inside the circuit: each output slot
/// starts at the zero constant and accumulates value * z[col] over the stored
/// entries of its row; an entry whose value equals one is accumulated without
/// the multiplication. That comparison inspects the coefficients' assigned
/// values, so the matrix must be readable: the gadget runs during circuit
/// construction, on values the prover knows. The output values are exactly
/// the foreign-field product, row by row, whatever branch was taken.
pub fn mat_vec_mul_sparse_gadget(cs: &mut CircuitRef, m: &SparseMatrixVar, v: &Vec<NnVar>) -> (r:
    Result<Vec<NnVar>, SynthError>)
    requires
        m.wf(),
        m.readable(),
        m.in_system(*old(cs)),
        nn_vec_in(v@, *old(cs)),
        v@.len() == m.n_cols,
    ensures
        r is Ok,
        (r->Ok_0)@.len() == m.n_rows,
        forall|i: int|
            0 <= i < m.coeffs@.len() ==> nn_value(#[trigger] (r->Ok_0)@[i]) == row_mv(
                var_row_entries(m.coeffs@[i]@),
                nn_vals(v@),
            ),
        nn_vec_in((r->Ok_0)@, *final(cs)),
        cs_sat(*final(cs)) == cs_sat(*old(cs)),
        cs_profile(*final(cs)) == cs_profile(*old(cs)),
        cs_live(*final(cs)) == cs_live(*old(cs)),
        cs_id(*final(cs)) == cs_id(*old(cs)),
{
    mat_vec_mul_rows(cs, m, v, true)
}

/// The same product with the multiplication always performed, even for unit
/// coefficients: the elision is an optimization, not a semantic change, so
/// this variant meets the same contract.
pub fn mat_vec_mul_sparse_gadget_unelided(
    cs: &mut CircuitRef,
    m: &SparseMatrixVar,
    v: &Vec<NnVar>,
) -> (r: Result<Vec<NnVar>, SynthError>)
    requires
        m.wf(),
        m.readable(),
        m.in_system(*old(cs)),
        nn_vec_in(v@, *old(cs)),
        v@.len() == m.n_cols,
    ensures
        r is Ok,
        (r->Ok_0)@.len() == m.n_rows,
        forall|i: int|
            0 <= i < m.coeffs@.len() ==> nn_value(#[trigger] (r->Ok_0)@[i]) == row_mv(
                var_row_entries(m.coeffs@[i]@),
                nn_vals(v@),
            ),
        nn_vec_in((r->Ok_0)@, *final(cs)),
        cs_sat(*final(cs)) == cs_sat(*old(cs)),
        cs_profile(*final(cs)) == cs_profile(*old(cs)),
        cs_live(*final(cs)) == cs_live(*old(cs)),
        cs_id(*final(cs)) == cs_id(*old(cs)),
{
    mat_vec_mul_rows(cs, m, v, false)
}

/// Shared body of the two gadgets; `elide_units` selects whether a unit
/// coefficient skips its multiplication.
fn mat_vec_mul_rows(cs: &mut CircuitRef, m: &SparseMatrixVar, v: &Vec<NnVar>, elide_units: bool)
    -> (r: Result<Vec<NnVar>, SynthError>)
    requires
        m.wf(),
        m.readable(),
        m.in_system(*old(cs)),
        nn_vec_in(v@, *old(cs)),
        v@.len() == m.n_cols,
    ensures
        r is Ok,
        (r->Ok_0)@.len() == m.n_rows,
        forall|i: int|
            0 <= i < m.coeffs@.len() ==> nn_value(#[trigger] (r->Ok_0)@[i]) == row_mv(
                var_row_entries(m.coeffs@[i]@),
                nn_vals(v@),
            ),
        nn_vec_in((r->Ok_0)@, *final(cs)),
        cs_sat(*final(cs)) == cs_sat(*old(cs)),
        cs_profile(*final(cs)) == cs_profile(*old(cs)),
        cs_live(*final(cs)) == cs_live(*old(cs)),
        cs_id(*final(cs)) == cs_id(*old(cs)),
{
    let ghost zv = nn_vals(v@);
    let n = m.coeffs.len();
    let mut res: Vec<NnVar> = Vec::new();
    for i in 0..n
        invariant
            n == m.coeffs@.len(),
            m.wf(),
            m.readable(),
            m.in_system(*old(cs)),
            nn_vec_in(v@, *old(cs)),
            v@.len() == m.n_cols,
            zv == nn_vals(v@),
            cs_sat(*cs) == cs_sat(*old(cs)),
            cs_profile(*cs) == cs_profile(*old(cs)),
            cs_live(*cs) == cs_live(*old(cs)),
            cs_id(*cs) == cs_id(*old(cs)),
            res@.len() == i,
            forall|t: int| 0 <= t < i ==> nn_in(#[trigger] res@[t], *cs),
            forall|t: int|
                0 <= t < i ==> nn_value(#[trigger] res@[t]) == row_mv(
                    var_row_entries(m.coeffs@[t]@),
                    zv,
                ),
    {
        let row = &m.coeffs[i];
        let k = row.len();
        let mut acc = nn_zero();
        for j in 0..k
            invariant
                n == m.coeffs@.len(),
                i < n,
                m.wf(),
                m.readable(),
                m.in_system(*old(cs)),
                nn_vec_in(v@, *old(cs)),
                v@.len() == m.n_cols,
                zv == nn_vals(v@),
                row == &m.coeffs@[i as int],
                k == row@.len(),
                cs_sat(*cs) == cs_sat(*old(cs)),
                cs_profile(*cs) == cs_profile(*old(cs)),
                cs_live(*cs) == cs_live(*old(cs)),
                cs_id(*cs) == cs_id(*old(cs)),
                nn_in(acc, *cs),
                nn_value(acc) == row_mv(var_row_entries(row@).take(j as int), zv),
        {
            let entry = &row[j];
            let col = entry.1;
            assert(var_row_wf(row@, m.n_cols as nat));
            assert(col < m.n_cols);
            let ghost before = nn_value(acc);
            let ghost ev = nn_value(entry.0);
            let ghost zc = zv[col as int];
            proof {
                assert((i as int) < m.coeffs@.len());
                assert(m.coeffs@[i as int]@.len() == k);
                assert(nn_readable(m.coeffs@[i as int]@[j as int].0));
                assert(nn_in(m.coeffs@[i as int]@[j as int].0, *cs));
                assert(nn_in(v@[col as int], *cs));
            }
            let value = match nn_value_read(&entry.0) {
                Ok(f) => f,
                Err(e) => {
                    proof {
                        assert(false);
                    }
                    return Err(SynthError { cause: e });
                },
            };
            if elide_units && value.is_one() {
                acc = nn_add(cs, &acc, &v[col]);
                proof {
                    assert(nn_value(acc) == (before + zc) % foreign_modulus());
                    assert(value.as_nat() == 1);
                    assert(ev == 1);
                    assert(ev * zc == zc);
                }
            } else {
                let term = nn_mul(cs, &entry.0, &v[col]);
                acc = nn_add(cs, &acc, &term);
                proof {
                    lemma_add_mod_noop_right(
                        before as int,
                        (ev * zc) as int,
                        foreign_modulus() as int,
                    );
                    assert(nn_value(acc) == (before + ev * zc) % foreign_modulus());
                }
            }
            proof {
                let re = var_row_entries(row@);
                assert(re.take(j + 1).drop_last() =~= re.take(j as int));
                assert(re.take(j + 1).last() == re[j as int]);
                assert(nn_value(acc) == row_mv(re.take(j + 1), zv));
            }
        }
        proof {
            assert(var_row_entries(row@).take(k as int) =~= var_row_entries(row@));
        }
        res.push(acc);
    }
    Ok(res)
}

/// The row values of the fixed 4 x 6 matrix the handcrafted gadget encodes,
/// written as the literal combinations of the input vector.
pub open spec fn handcrafted_row_value(i: int, z: Seq<nat>) -> nat {
    if i == 0 {
        (z[1] + 5 * z[4]) % foreign_modulus()
    } else if i == 1 {
        (z[1] + z[3]) % foreign_modulus()
    } else if i == 2 {
        (z[1] + z[4]) % foreign_modulus()
    } else {
        (5 * z[0] + z[4] + z[5]) % foreign_modulus()
    }
}

/// The manually unrolled product for one fixed 4 x 6 sparsity pattern: each
/// output row is a literal sum of scaled input entries, with no row or column
/// bookkeeping. A constraint-count baseline, not generalizable.
#[allow(non_snake_case)]
pub fn handcrafted_A_by_z(cs: &mut CircuitRef, z: &Vec<NnVar>) -> (r: Result<Vec<NnVar>, SynthError>)
    requires
        z@.len() == 6,
        nn_vec_in(z@, *old(cs)),
    ensures
        r is Ok,
        (r->Ok_0)@.len() == 4,
        forall|i: int|
            0 <= i < 4 ==> nn_value(#[trigger] (r->Ok_0)@[i]) == handcrafted_row_value(
                i,
                nn_vals(z@),
            ),
        nn_vec_in((r->Ok_0)@, *final(cs)),
        cs_sat(*final(cs)) == cs_sat(*old(cs)),
        cs_profile(*final(cs)) == cs_profile(*old(cs)),
        cs_live(*final(cs)) == cs_live(*old(cs)),
        cs_id(*final(cs)) == cs_id(*old(cs)),
{
    let ghost zv = nn_vals(z@);
    let five_fe = Fe::from_u64(5);
    let five = match nn_new_constant(cs, &five_fe) {
        Ok(v) => v,
        Err(e) => {
            return Err(SynthError { cause: e });
        },
    };
    let ghost p = foreign_modulus();
    // row 0: z[1] + 5 * z[4]
    let t0 = nn_mul(cs, &five, &z[4]);
    let out0 = nn_add(cs, &z[1], &t0);
    proof {
        lemma_add_mod_noop_right(zv[1] as int, (5 * zv[4]) as int, p as int);
    }
    // row 1: z[1] + z[3]
    let out1 = nn_add(cs, &z[1], &z[3]);
    // row 2: z[1] + z[4]
    let out2 = nn_add(cs, &z[1], &z[4]);
    // row 3: 5 * z[0] + z[4] + z[5]
    let t3 = nn_mul(cs, &five, &z[0]);
    let s3 = nn_add(cs, &t3, &z[4]);
    let out3 = nn_add(cs, &s3, &z[5]);
    proof {
        lemma_add_mod_noop_right(zv[4] as int, (5 * zv[0]) as int, p as int);
        assert(nn_value(s3) == (5 * zv[0] + zv[4]) % p);
        lemma_add_mod_noop_right(zv[5] as int, (5 * zv[0] + zv[4]) as int, p as int);
        assert(nn_value(out3) == (5 * zv[0] + zv[4] + zv[5]) % p);
    }
    let mut res: Vec<NnVar> = Vec::new();
    res.push(out0);
    res.push(out1);
    res.push(out2);
    res.push(out3);
    Ok(res)
}

/// Enforces element-wise equality of two vectors of circuit variables: the
/// system stays satisfied exactly when it was and every pair of assigned
/// values agrees. It succeeds whenever each pair has an allocated variable
/// on either side or already-equal values.
pub fn enforce_vec_equal(cs: &mut CircuitRef, a: &Vec<NnVar>, b: &Vec<NnVar>) -> (r: Result<
    (),
    SynthError,
>)
    requires
        a@.len() == b@.len(),
        nn_vec_in(a@, *old(cs)),
        nn_vec_in(b@, *old(cs)),
    ensures
        r is Ok ==> cs_sat(*final(cs)) == (cs_sat(*old(cs)) && nn_vals(a@) == nn_vals(b@)),
        cs_profile(*final(cs)) == cs_profile(*old(cs)),
        cs_live(*final(cs)) == cs_live(*old(cs)),
        cs_id(*final(cs)) == cs_id(*old(cs)),
        (forall|i: int|
            0 <= i < a@.len() ==> nn_allocated(#[trigger] a@[i]) || nn_allocated(b@[i]) || nn_value(
                a@[i],
            ) == nn_value(b@[i])) ==> r is Ok,
{
    let n = a.len();
    for i in 0..n
        invariant
            n == a@.len(),
            a@.len() == b@.len(),
            nn_vec_in(a@, *cs),
            nn_vec_in(b@, *cs),
            cs_profile(*cs) == cs_profile(*old(cs)),
            cs_live(*cs) == cs_live(*old(cs)),
            cs_id(*cs) == cs_id(*old(cs)),
            cs_sat(*cs) == (cs_sat(*old(cs)) && (forall|t: int|
                0 <= t < i ==> nn_value(#[trigger] a@[t]) == nn_value(b@[t]))),
    {
        match nn_enforce_equal(cs, &a[i], &b[i]) {
            Ok(()) => {},
            Err(e) => {
                proof {
                    assert(!(nn_allocated(a@[i as int]) || nn_allocated(b@[i as int]) || nn_value(
                        a@[i as int],
                    ) == nn_value(b@[i as int])));
                }
                return Err(SynthError { cause: e });
            },
        }
    }
    proof {
        if forall|t: int| 0 <= t < a@.len() ==> nn_value(#[trigger] a@[t]) == nn_value(b@[t]) {
            assert(nn_vals(a@) =~= nn_vals(b@));
        } else {
            let t = choose|t: int|
                0 <= t < a@.len() && nn_value(a@[t]) != nn_value(b@[t]);
            assert(nn_vals(a@)[t] != nn_vals(b@)[t]);
        }
    }
    Ok(())
}

/// The top-level circuit: the matrix A enters as constants, the vectors z and
/// y as private witnesses; the chosen gadget computes A * z and the result is
/// asserted equal to y.
#[allow(non_snake_case)]
pub struct MatrixVectorCircuit {
    pub A: SparseMatrix,
    pub z: Vec<Fe>,
    pub y: Vec<Fe>,
}

impl MatrixVectorCircuit {
    /// Shape and canonicity of the circuit's data.
    pub open spec fn wf(self) -> bool {
        &&& self.A.wf()
        &&& self.z@.len() == self.A.n_cols
        &&& self.y@.len() == self.A.n_rows
        &&& forall|i: int| 0 <= i < self.z@.len() ==> (#[trigger] self.z@[i]).wf()
        &&& forall|i: int| 0 <= i < self.y@.len() ==> (#[trigger] self.y@[i]).wf()
    }

    /// The condition the emitted constraints encode: the claimed output is
    /// the foreign-field product A * z.
    pub open spec fn accepted(self) -> bool {
        spec_mat_vec_mul(self.A.entries(), fe_vals(self.z@)) == fe_vals(self.y@)
    }

    /// Emits the whole circuit into the given system. On success the system
    /// is satisfied exactly when it was before and the claimed output equals
    /// the product — so on a live system synthesis succeeds for any claimed
    /// output, right or wrong; a failure could only be propagated from the
    /// underlying layer, never raised here.
    pub fn generate_constraints(&self, cs: &mut CircuitRef) -> (r: Result<(), SynthError>)
        requires
            self.wf(),
        ensures
            r is Ok ==> cs_sat(*final(cs)) == (cs_sat(*old(cs)) && self.accepted()),
            cs_profile(*final(cs)) == cs_profile(*old(cs)),
            cs_live(*final(cs)) == cs_live(*old(cs)),
            cs_id(*final(cs)) == cs_id(*old(cs)),
            cs_live(*old(cs)) ==> r is Ok,
    {
        let a = match SparseMatrixVar::new_variable(cs, &self.A, AllocationMode::Constant) {
            Ok(v) => v,
            Err(e) => {
                return Err(e);
            },
        };
        let zv = match alloc_witness_vec(cs, &self.z) {
            Ok(v) => v,
            Err(e) => {
                return Err(e);
            },
        };
        let yv = match alloc_witness_vec(cs, &self.y) {
            Ok(v) => v,
            Err(e) => {
                return Err(e);
            },
        };
        let az = match mat_vec_mul_sparse_gadget(cs, &a, &zv) {
            Ok(v) => v,
            Err(e) => {
                return Err(e);
            },
        };
        let r = enforce_vec_equal(cs, &az, &yv);
        proof {
            if r is Ok {
                let zs = fe_vals(self.z@);
                let product = spec_mat_vec_mul(self.A.entries(), zs);
                assert forall|i: int| 0 <= i < self.A.coeffs@.len() implies nn_value(
                    #[trigger] az@[i],
                ) == product[i] by {
                    assert(var_row_entries(a.coeffs@[i]@) == row_entries(self.A.coeffs@[i]@));
                    assert(self.A.entries()[i] == row_entries(self.A.coeffs@[i]@));
                }
                assert(nn_vals(az@) =~= product);
                assert(nn_vals(yv@) == fe_vals(self.y@));
            }
        }
        r
    }

    /// Builds a fresh system, emits the circuit, and checks satisfiability.
    /// It always succeeds, and answers true exactly when the claimed output
    /// is the product A * z.
    pub fn is_satisfied(&self) -> (r: Result<bool, SynthError>)
        requires
            self.wf(),
        ensures
            r is Ok,
            r->Ok_0 == self.accepted(),
    {
        let mut cs = new_constraint_system();
        match self.generate_constraints(&mut cs) {
            Ok(()) => {},
            Err(e) => {
                return Err(e);
            },
        }
        match cs_is_satisfied(&cs) {
            Ok(b) => Ok(b),
            Err(e) => Err(SynthError { cause: e }),
        }
    }
}

/// Measures what allocating the matrix costs on a fresh system: zero in
/// constant mode, one witness allocation per stored entry otherwise. It
/// always succeeds, and the result is a function of the matrix's entries and
/// the mode alone, so equal matrices always report equal counts.
pub fn alloc_constraint_cost(m: &SparseMatrix, mode: AllocationMode) -> (r: Result<
    usize,
    SynthError,
>)
    requires
        m.wf(),
    ensures
        r is Ok,
        r->Ok_0 == alloc_cost(m.entries(), mode, 0),
{
    let mut cs = new_constraint_system();
    match SparseMatrixVar::new_variable(&mut cs, m, mode) {
        Ok(_) => {},
        Err(e) => {
            return Err(e);
        },
    }
    Ok(num_constraints(&cs))
}

} // verus!
