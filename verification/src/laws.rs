//! The properties the library promises, stated and proved over the same spec
//! functions its contracts use.

use crate::circuit::{alloc_cost, handcrafted_row_value, AllocationMode, MatrixVectorCircuit};
use crate::field::foreign_modulus;
use crate::matrix::{fe_vals, lemma_row_mv_bound, row_mv, sparsify_row, spec_mat_vec_mul, SparseMatrix};
use vstd::arithmetic::div_mod::{lemma_add_mod_noop_right, lemma_mod_self_0, lemma_small_mod};
use vstd::prelude::*;

verus! {

/// Round trip: a circuit whose claimed output is the native sparse product is
/// accepted, whatever the matrix and the input vector.
pub proof fn lemma_round_trip(c: MatrixVectorCircuit)
    requires
        c.wf(),
        fe_vals(c.y@) == spec_mat_vec_mul(c.A.entries(), fe_vals(c.z@)),
    ensures
        c.accepted(),
{
}

/// Negative case: adding one (in the foreign field) to any single entry of a
/// correct claimed output makes the circuit rejected.
pub proof fn lemma_perturbed_output_rejected(c: MatrixVectorCircuit, i: int)
    requires
        c.wf(),
        0 <= i < c.y@.len(),
        fe_vals(c.y@)[i] == (spec_mat_vec_mul(c.A.entries(), fe_vals(c.z@))[i] + 1)
            % foreign_modulus(),
    ensures
        !c.accepted(),
{
    let p = foreign_modulus();
    let good = spec_mat_vec_mul(c.A.entries(), fe_vals(c.z@));
    lemma_row_mv_bound(c.A.entries()[i], fe_vals(c.z@));
    assert(good[i] < p);
    if good[i] + 1 < p {
        lemma_small_mod((good[i] + 1) as nat, p);
        assert((good[i] + 1) % p == good[i] + 1);
    } else {
        assert(good[i] + 1 == p);
        lemma_mod_self_0(p as int);
        assert((good[i] + 1) % p == 0);
    }
    assert(fe_vals(c.y@)[i] != good[i]);
}

/// Shape invariant: the product has one entry per matrix row, and an entirely
/// empty row contributes exactly the additive identity.
pub proof fn lemma_product_shape(m: SparseMatrix, z: Seq<nat>)
    ensures
        spec_mat_vec_mul(m.entries(), z).len() == m.coeffs@.len(),
        forall|i: int|
            0 <= i < m.coeffs@.len() && m.coeffs@[i]@.len() == 0 ==> #[trigger] spec_mat_vec_mul(
                m.entries(),
                z,
            )[i] == 0,
{
    assert forall|i: int|
        0 <= i < m.coeffs@.len() && m.coeffs@[i]@.len() == 0 implies #[trigger] spec_mat_vec_mul(
        m.entries(),
        z,
    )[i] == 0 by {
        assert(m.entries()[i].len() == 0);
    }
}

/// The abstract entries of the fixed 4 x 6 matrix the handcrafted gadget
/// encodes: (value, column) pairs, row by row.
pub open spec fn fixed_matrix_entries() -> Seq<Seq<(nat, nat)>> {
    seq![
        seq![(1nat, 1nat), (5nat, 4nat)],
        seq![(1nat, 1nat), (1nat, 3nat)],
        seq![(1nat, 1nat), (1nat, 4nat)],
        seq![(5nat, 0nat), (1nat, 4nat), (1nat, 5nat)],
    ]
}

/// Equivalence of encodings: on the fixed 4 x 6 shape, the generic sparse
/// product and the handcrafted combinations agree row by row, so the two
/// gadgets accept exactly the same (z, y) pairs.
pub proof fn lemma_handcrafted_matches_sparse(z: Seq<nat>)
    requires
        z.len() == 6,
    ensures
        forall|i: int|
            0 <= i < 4 ==> row_mv(#[trigger] fixed_matrix_entries()[i], z)
                == handcrafted_row_value(i, z),
{
    let p = foreign_modulus();
    let m = fixed_matrix_entries();

    let r0 = m[0];
    lemma_row_mv_singleton(1nat, 1nat, z);
    assert(r0.drop_last() =~= seq![(1nat, 1nat)]);
    assert(r0.last() == (5nat, 4nat));
    assert(row_mv(r0, z) == (row_mv(r0.drop_last(), z) + 5 * z[4]) % p);
    lemma_add_mod_noop_right((5 * z[4]) as int, z[1] as int, p as int);
    assert(row_mv(r0, z) == (z[1] + 5 * z[4]) % p);

    let r1 = m[1];
    assert(r1.drop_last() =~= seq![(1nat, 1nat)]);
    assert(r1.last() == (1nat, 3nat));
    assert(row_mv(r1, z) == (row_mv(r1.drop_last(), z) + 1 * z[3]) % p);
    lemma_add_mod_noop_right(z[3] as int, z[1] as int, p as int);
    assert(row_mv(r1, z) == (z[1] + z[3]) % p);

    let r2 = m[2];
    assert(r2.drop_last() =~= seq![(1nat, 1nat)]);
    assert(r2.last() == (1nat, 4nat));
    assert(row_mv(r2, z) == (row_mv(r2.drop_last(), z) + 1 * z[4]) % p);
    lemma_add_mod_noop_right(z[4] as int, z[1] as int, p as int);
    assert(row_mv(r2, z) == (z[1] + z[4]) % p);

    let r3 = m[3];
    lemma_row_mv_singleton(5nat, 0nat, z);
    assert(r3.drop_last() =~= seq![(5nat, 0nat), (1nat, 4nat)]);
    assert(r3.drop_last().drop_last() =~= seq![(5nat, 0nat)]);
    assert(r3.drop_last().last() == (1nat, 4nat));
    assert(row_mv(r3.drop_last(), z) == (row_mv(seq![(5nat, 0nat)], z) + 1 * z[4]) % p);
    lemma_add_mod_noop_right(z[4] as int, (5 * z[0]) as int, p as int);
    assert(row_mv(r3.drop_last(), z) == (5 * z[0] + z[4]) % p);
    assert(r3.last() == (1nat, 5nat));
    assert(row_mv(r3, z) == (row_mv(r3.drop_last(), z) + 1 * z[5]) % p);
    lemma_add_mod_noop_right(z[5] as int, (5 * z[0] + z[4]) as int, p as int);
    assert(row_mv(r3, z) == (5 * z[0] + z[4] + z[5]) % p);
}

/// One stored entry alone contributes its scaled column entry.
proof fn lemma_row_mv_singleton(v: nat, c: nat, z: Seq<nat>)
    ensures
        row_mv(seq![(v, c)], z) == (v * z[c as int]) % foreign_modulus(),
{
    let s = seq![(v, c)];
    assert(s.drop_last() =~= Seq::<(nat, nat)>::empty());
    assert(row_mv(s.drop_last(), z) == 0);
    assert(s.last() == (v, c));
}

/// The dense literal behind the handcrafted gadget's shape sparsifies to
/// exactly `fixed_matrix_entries`, row by row: what `to_F_matrix` builds from
/// that literal is the matrix both gadgets compute with.
pub proof fn lemma_fixed_matrix_sparsifies()
    ensures
        sparsify_row(seq![0nat, 1nat, 0nat, 0nat, 5nat, 0nat]) == fixed_matrix_entries()[0],
        sparsify_row(seq![0nat, 1nat, 0nat, 1nat, 0nat, 0nat]) == fixed_matrix_entries()[1],
        sparsify_row(seq![0nat, 1nat, 0nat, 0nat, 1nat, 0nat]) == fixed_matrix_entries()[2],
        sparsify_row(seq![5nat, 0nat, 0nat, 0nat, 1nat, 1nat]) == fixed_matrix_entries()[3],
{
    let e = Seq::<nat>::empty();
    assert(sparsify_row(e) =~= Seq::<(nat, nat)>::empty());

    let d0 = seq![0nat, 1nat, 0nat, 0nat, 5nat, 0nat];
    assert(seq![0nat].drop_last() =~= e);
    assert(sparsify_row(seq![0nat]) =~= Seq::<(nat, nat)>::empty());
    assert(seq![0nat, 1nat].drop_last() =~= seq![0nat]);
    assert(sparsify_row(seq![0nat, 1nat]) =~= seq![(1nat, 1nat)]);
    assert(seq![0nat, 1nat, 0nat].drop_last() =~= seq![0nat, 1nat]);
    assert(sparsify_row(seq![0nat, 1nat, 0nat]) =~= seq![(1nat, 1nat)]);
    assert(seq![0nat, 1nat, 0nat, 0nat].drop_last() =~= seq![0nat, 1nat, 0nat]);
    assert(sparsify_row(seq![0nat, 1nat, 0nat, 0nat]) =~= seq![(1nat, 1nat)]);
    assert(seq![0nat, 1nat, 0nat, 0nat, 5nat].drop_last() =~= seq![0nat, 1nat, 0nat, 0nat]);
    assert(sparsify_row(seq![0nat, 1nat, 0nat, 0nat, 5nat]) =~= seq![(1nat, 1nat), (5nat, 4nat)]);
    assert(d0.drop_last() =~= seq![0nat, 1nat, 0nat, 0nat, 5nat]);
    assert(sparsify_row(d0) =~= seq![(1nat, 1nat), (5nat, 4nat)]);

    let d1 = seq![0nat, 1nat, 0nat, 1nat, 0nat, 0nat];
    assert(seq![0nat].drop_last() =~= e);
    assert(sparsify_row(seq![0nat]) =~= Seq::<(nat, nat)>::empty());
    assert(seq![0nat, 1nat].drop_last() =~= seq![0nat]);
    assert(sparsify_row(seq![0nat, 1nat]) =~= seq![(1nat, 1nat)]);
    assert(seq![0nat, 1nat, 0nat].drop_last() =~= seq![0nat, 1nat]);
    assert(sparsify_row(seq![0nat, 1nat, 0nat]) =~= seq![(1nat, 1nat)]);
    assert(seq![0nat, 1nat, 0nat, 1nat].drop_last() =~= seq![0nat, 1nat, 0nat]);
    assert(sparsify_row(seq![0nat, 1nat, 0nat, 1nat]) =~= seq![(1nat, 1nat), (1nat, 3nat)]);
    assert(seq![0nat, 1nat, 0nat, 1nat, 0nat].drop_last() =~= seq![0nat, 1nat, 0nat, 1nat]);
    assert(sparsify_row(seq![0nat, 1nat, 0nat, 1nat, 0nat]) =~= seq![(1nat, 1nat), (1nat, 3nat)]);
    assert(d1.drop_last() =~= seq![0nat, 1nat, 0nat, 1nat, 0nat]);
    assert(sparsify_row(d1) =~= seq![(1nat, 1nat), (1nat, 3nat)]);

    let d2 = seq![0nat, 1nat, 0nat, 0nat, 1nat, 0nat];
    assert(seq![0nat].drop_last() =~= e);
    assert(sparsify_row(seq![0nat]) =~= Seq::<(nat, nat)>::empty());
    assert(seq![0nat, 1nat].drop_last() =~= seq![0nat]);
    assert(sparsify_row(seq![0nat, 1nat]) =~= seq![(1nat, 1nat)]);
    assert(seq![0nat, 1nat, 0nat].drop_last() =~= seq![0nat, 1nat]);
    assert(sparsify_row(seq![0nat, 1nat, 0nat]) =~= seq![(1nat, 1nat)]);
    assert(seq![0nat, 1nat, 0nat, 0nat].drop_last() =~= seq![0nat, 1nat, 0nat]);
    assert(sparsify_row(seq![0nat, 1nat, 0nat, 0nat]) =~= seq![(1nat, 1nat)]);
    assert(seq![0nat, 1nat, 0nat, 0nat, 1nat].drop_last() =~= seq![0nat, 1nat, 0nat, 0nat]);
    assert(sparsify_row(seq![0nat, 1nat, 0nat, 0nat, 1nat]) =~= seq![(1nat, 1nat), (1nat, 4nat)]);
    assert(d2.drop_last() =~= seq![0nat, 1nat, 0nat, 0nat, 1nat]);
    assert(sparsify_row(d2) =~= seq![(1nat, 1nat), (1nat, 4nat)]);

    let d3 = seq![5nat, 0nat, 0nat, 0nat, 1nat, 1nat];
    assert(seq![5nat].drop_last() =~= e);
    assert(sparsify_row(seq![5nat]) =~= seq![(5nat, 0nat)]);
    assert(seq![5nat, 0nat].drop_last() =~= seq![5nat]);
    assert(sparsify_row(seq![5nat, 0nat]) =~= seq![(5nat, 0nat)]);
    assert(seq![5nat, 0nat, 0nat].drop_last() =~= seq![5nat, 0nat]);
    assert(sparsify_row(seq![5nat, 0nat, 0nat]) =~= seq![(5nat, 0nat)]);
    assert(seq![5nat, 0nat, 0nat, 0nat].drop_last() =~= seq![5nat, 0nat, 0nat]);
    assert(sparsify_row(seq![5nat, 0nat, 0nat, 0nat]) =~= seq![(5nat, 0nat)]);
    assert(seq![5nat, 0nat, 0nat, 0nat, 1nat].drop_last() =~= seq![5nat, 0nat, 0nat, 0nat]);
    assert(sparsify_row(seq![5nat, 0nat, 0nat, 0nat, 1nat]) =~= seq![(5nat, 0nat), (1nat, 4nat)]);
    assert(d3.drop_last() =~= seq![5nat, 0nat, 0nat, 0nat, 1nat]);
    assert(sparsify_row(d3) =~= seq![(5nat, 0nat), (1nat, 4nat), (1nat, 5nat)]);
}

/// The value of one row of the product computed densely: every entry times
/// its vector element, zeroes included, accumulated left to right.
pub open spec fn dense_row_mv(d: Seq<nat>, z: Seq<nat>) -> nat
    decreases d.len(),
{
    if d.len() == 0 {
        0
    } else {
        (dense_row_mv(d.drop_last(), z) + d.last() * z[d.len() - 1]) % foreign_modulus()
    }
}

/// Dropping the zero entries of a dense row preserves its product: the
/// sparse accumulation over the stored entries equals the dense accumulation
/// over the whole row.
pub proof fn lemma_sparsify_preserves_product(d: Seq<nat>, z: Seq<nat>)
    ensures
        row_mv(sparsify_row(d), z) == dense_row_mv(d, z),
    decreases d.len(),
{
    let p = foreign_modulus();
    if d.len() == 0 {
    } else {
        lemma_sparsify_preserves_product(d.drop_last(), z);
        if d.last() == 0 {
            assert(dense_row_mv(d, z) == (dense_row_mv(d.drop_last(), z) + 0) % p);
            lemma_dense_row_mv_bound(d.drop_last(), z);
            lemma_small_mod(dense_row_mv(d.drop_last(), z), p);
        } else {
            let s = sparsify_row(d);
            assert(s == sparsify_row(d.drop_last()).push((d.last(), (d.len() - 1) as nat)));
            assert(s.drop_last() =~= sparsify_row(d.drop_last()));
            assert(s.last() == (d.last(), (d.len() - 1) as nat));
            assert(row_mv(s, z) == (row_mv(sparsify_row(d.drop_last()), z) + d.last() * z[d.len()
                - 1]) % p);
        }
    }
}

/// Every dense row product is a canonical field value.
proof fn lemma_dense_row_mv_bound(d: Seq<nat>, z: Seq<nat>)
    ensures
        dense_row_mv(d, z) < foreign_modulus(),
{
    if d.len() == 0 {
    } else {
        vstd::arithmetic::div_mod::lemma_mod_bound(
            (dense_row_mv(d.drop_last(), z) + d.last() * z[d.len() - 1]) as int,
            foreign_modulus() as int,
        );
    }
}

/// Elision correctness: accumulating a unit coefficient's column entry
/// directly equals accumulating it through the explicit multiplication by
/// one, for every accumulator and every entry value.
pub proof fn lemma_unit_elision(acc: nat, zc: nat)
    ensures
        (acc + 1 * zc) % foreign_modulus() == (acc + zc) % foreign_modulus(),
{
}

/// Determinism: matrices with equal entries, allocated under the same mode
/// and the same system profile, add equally many constraints.
pub proof fn lemma_alloc_deterministic(
    m1: SparseMatrix,
    m2: SparseMatrix,
    mode: AllocationMode,
    profile: nat,
)
    requires
        m1.entries() == m2.entries(),
    ensures
        alloc_cost(m1.entries(), mode, profile) == alloc_cost(m2.entries(), mode, profile),
{
}

} // verus!
