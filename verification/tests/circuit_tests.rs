use sparse_matvec_r1cs::circuit::{
    alloc_constraint_cost, alloc_witness_vec, enforce_vec_equal, handcrafted_A_by_z,
    mat_vec_mul_sparse_gadget, mat_vec_mul_sparse_gadget_unelided, AllocationMode,
    MatrixVectorCircuit, SparseMatrixVar,
};
use sparse_matvec_r1cs::field::Fe;
use sparse_matvec_r1cs::matrix::{
    dense_matrix_to_sparse, mat_vec_mul_sparse, to_F_dense_matrix, to_F_matrix, to_F_vec,
    SparseMatrix,
};
use sparse_matvec_r1cs::r1cs::{cs_is_satisfied, new_constraint_system, nn_value_read, num_constraints};

fn fixed_matrix() -> SparseMatrix {
    to_F_matrix(vec![
        vec![0, 1, 0, 0, 5, 0],
        vec![0, 1, 0, 1, 0, 0],
        vec![0, 1, 0, 0, 1, 0],
        vec![5, 0, 0, 0, 1, 1],
    ])
}

#[test]
fn test_relaxed_r1cs_nonnative_matrix_vector_product() {
    let a = fixed_matrix();
    let z = to_F_vec(vec![1, 123, 35, 53, 80, 30]);
    let y = mat_vec_mul_sparse(&a, &z);
    println!("Matrix of size {} x {}", a.n_rows, a.n_cols);
    println!("Vector of size {}", z.len());

    println!("Build the circuit that computes the matrix-vector-product over a non-native field");
    let mut cs = new_constraint_system();
    let circuit = MatrixVectorCircuit { A: a, z, y };
    circuit.generate_constraints(&mut cs).unwrap();
    println!("Number of constraints: {}", num_constraints(&cs));
    assert!(cs_is_satisfied(&cs).unwrap());
}

#[test]
fn native_product_expected_values() {
    let a = fixed_matrix();
    let z = to_F_vec(vec![1, 123, 35, 53, 80, 30]);
    let y = mat_vec_mul_sparse(&a, &z);
    let expected = to_F_vec(vec![523, 176, 203, 115]);
    assert_eq!(y, expected);
}

#[test]
fn dense_to_sparse_drops_zeroes() {
    let dense = to_F_dense_matrix(vec![vec![0, 1], vec![2, 0]]);
    let a = dense_matrix_to_sparse(dense);
    assert_eq!(a.n_rows, 2);
    assert_eq!(a.n_cols, 2);
    assert_eq!(a.coeffs[0], vec![(Fe::from_u64(1), 1usize)]);
    assert_eq!(a.coeffs[1], vec![(Fe::from_u64(2), 0usize)]);
}

#[test]
fn round_trip_satisfiable() {
    let a = fixed_matrix();
    let z = to_F_vec(vec![1, 123, 35, 53, 80, 30]);
    let y = mat_vec_mul_sparse(&a, &z);
    let circuit = MatrixVectorCircuit { A: a, z, y };
    assert!(circuit.is_satisfied().unwrap());
}

#[test]
fn perturbed_output_unsatisfiable() {
    let a = fixed_matrix();
    let z = to_F_vec(vec![1, 123, 35, 53, 80, 30]);
    // y with the second entry incremented by one: 176 -> 177.
    let y = to_F_vec(vec![523, 177, 203, 115]);
    let circuit = MatrixVectorCircuit { A: a, z, y };
    // synthesis itself succeeds; only the satisfiability check reports the bad witness
    let mut cs = new_constraint_system();
    assert!(circuit.generate_constraints(&mut cs).is_ok());
    assert!(!cs_is_satisfied(&cs).unwrap());
    assert!(!circuit.is_satisfied().unwrap());
}

#[test]
fn gadget_output_shape_and_zero_row() {
    // second row entirely zero
    let a = to_F_matrix(vec![vec![1, 0], vec![0, 0], vec![0, 3]]);
    let z = to_F_vec(vec![7, 9]);
    let mut cs = new_constraint_system();
    let avar = SparseMatrixVar::new_variable(&mut cs, &a, AllocationMode::Constant).unwrap();
    let zvar = alloc_witness_vec(&mut cs, &z).unwrap();
    let out = mat_vec_mul_sparse_gadget(&mut cs, &avar, &zvar).unwrap();
    assert_eq!(out.len(), 3);
    assert_eq!(nn_value_read(&out[0]).unwrap(), Fe::from_u64(7));
    assert_eq!(nn_value_read(&out[1]).unwrap(), Fe::from_u64(0));
    assert_eq!(nn_value_read(&out[2]).unwrap(), Fe::from_u64(27));
    assert!(cs_is_satisfied(&cs).unwrap());
}

fn generic_gadget_accepts(z: &[usize], y: &[usize]) -> bool {
    let a = fixed_matrix();
    let z = to_F_vec(z.to_vec());
    let y = to_F_vec(y.to_vec());
    let mut cs = new_constraint_system();
    let avar = SparseMatrixVar::new_variable(&mut cs, &a, AllocationMode::Constant).unwrap();
    let zvar = alloc_witness_vec(&mut cs, &z).unwrap();
    let yvar = alloc_witness_vec(&mut cs, &y).unwrap();
    let az = mat_vec_mul_sparse_gadget(&mut cs, &avar, &zvar).unwrap();
    enforce_vec_equal(&mut cs, &az, &yvar).unwrap();
    cs_is_satisfied(&cs).unwrap()
}

fn handcrafted_gadget_accepts(z: &[usize], y: &[usize]) -> bool {
    let z = to_F_vec(z.to_vec());
    let y = to_F_vec(y.to_vec());
    let mut cs = new_constraint_system();
    let zvar = alloc_witness_vec(&mut cs, &z).unwrap();
    let yvar = alloc_witness_vec(&mut cs, &y).unwrap();
    let az = handcrafted_A_by_z(&mut cs, &zvar).unwrap();
    enforce_vec_equal(&mut cs, &az, &yvar).unwrap();
    cs_is_satisfied(&cs).unwrap()
}

fn unelided_gadget_accepts(z: &[usize], y: &[usize]) -> bool {
    let a = fixed_matrix();
    let z = to_F_vec(z.to_vec());
    let y = to_F_vec(y.to_vec());
    let mut cs = new_constraint_system();
    let avar = SparseMatrixVar::new_variable(&mut cs, &a, AllocationMode::Constant).unwrap();
    let zvar = alloc_witness_vec(&mut cs, &z).unwrap();
    let yvar = alloc_witness_vec(&mut cs, &y).unwrap();
    let az = mat_vec_mul_sparse_gadget_unelided(&mut cs, &avar, &zvar).unwrap();
    enforce_vec_equal(&mut cs, &az, &yvar).unwrap();
    cs_is_satisfied(&cs).unwrap()
}

#[test]
fn generic_and_handcrafted_gadgets_agree() {
    let z = [1, 123, 35, 53, 80, 30];
    let good = [523, 176, 203, 115];
    let bad = [523, 176, 204, 115];
    assert!(generic_gadget_accepts(&z, &good));
    assert!(handcrafted_gadget_accepts(&z, &good));
    assert!(!generic_gadget_accepts(&z, &bad));
    assert!(!handcrafted_gadget_accepts(&z, &bad));
}

#[test]
fn elided_and_explicit_multiplication_agree() {
    let z = [1, 123, 35, 53, 80, 30];
    let good = [523, 176, 203, 115];
    let bad = [524, 176, 203, 115];
    assert_eq!(generic_gadget_accepts(&z, &good), unelided_gadget_accepts(&z, &good));
    assert_eq!(generic_gadget_accepts(&z, &bad), unelided_gadget_accepts(&z, &bad));
    assert!(generic_gadget_accepts(&z, &good));
    assert!(!generic_gadget_accepts(&z, &bad));
}

#[test]
fn allocation_is_deterministic() {
    let a1 = fixed_matrix();
    let a2 = fixed_matrix();
    let w1 = alloc_constraint_cost(&a1, AllocationMode::Witness).unwrap();
    let w2 = alloc_constraint_cost(&a2, AllocationMode::Witness).unwrap();
    assert_eq!(w1, w2);
    assert!(w1 > 0);
    let c1 = alloc_constraint_cost(&a1, AllocationMode::Constant).unwrap();
    let c2 = alloc_constraint_cost(&a2, AllocationMode::Constant).unwrap();
    assert_eq!(c1, 0);
    assert_eq!(c2, 0);
}

#[test]
fn field_element_basics() {
    assert!(Fe::zero().is_zero());
    assert!(!Fe::zero().is_one());
    assert!(Fe::from_u64(1).is_one());
    assert!(!Fe::from_u64(1).is_zero());
    assert_eq!(Fe::from_u64(0), Fe::zero());
}

#[test]
fn every_single_perturbation_unsatisfiable() {
    let good = [523usize, 176, 203, 115];
    let z = [1usize, 123, 35, 53, 80, 30];
    for k in 0..4 {
        let mut bad = good;
        bad[k] += 1;
        let a = fixed_matrix();
        let circuit = MatrixVectorCircuit {
            A: a,
            z: to_F_vec(z.to_vec()),
            y: to_F_vec(bad.to_vec()),
        };
        assert!(!circuit.is_satisfied().unwrap());
    }
}

#[test]
fn canonicity_check_matches_modulus() {
    // the modulus itself is not canonical; one below it is
    let modulus = Fe {
        l0: 0x992d_30ed_0000_0001,
        l1: 0x2246_98fc_094c_f91b,
        l2: 0,
        l3: 0x4000_0000_0000_0000,
    };
    assert!(!modulus.is_canonical());
    let below = Fe { l0: modulus.l0 - 1, ..modulus };
    assert!(below.is_canonical());
    assert!(Fe::zero().is_canonical());
    assert!(Fe::from_u64(u64::MAX).is_canonical());
}
