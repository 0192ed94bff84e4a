//! The trusted boundary to the constraint-system and non-native field gadget
//! layers. A `CircuitRef` holds the handle to the growing constraint system;
//! an `NnVar` holds one in-circuit foreign-field element. Both are opaque
//! here; what the contracts say of them is what the outside sources show.
//!
//! The abstractions:
//! - `nn_value(v)`: the canonical representative of the foreign-field value a
//!   circuit variable is assigned (what `R1CSVar::value` reports).
//! - `cs_sat(cs)`: whether every constraint emitted so far holds under the
//!   stored assignments.
//! - `cs_count(cs)`: the number of constraints emitted so far.
//! - `cs_profile(cs)`: the system's optimization goal, which fixes the
//!   non-native encoding parameters; gadget calls never change it.
//! - `witness_alloc_cost(p)`: how many constraints one non-native witness
//!   allocation adds under profile `p` (for the fixed field pair it depends
//!   on nothing else).
//! - `cs_live(cs)`: the handle is backed by a real system in proving mode,
//!   with assignments kept — what a fresh system is; no gadget call changes
//!   it.
//! - `nn_readable(v)`: the variable's assigned value can be read back.
//! - `nn_allocated(v)`: the variable is an allocated one, not a bare
//!   constant.
//! - `cs_id(cs)` and `nn_sys(v)`: which system a handle fronts and which
//!   system an allocated variable was allocated on. The outside code routes
//!   every constraint through the system embedded in the variables, so the
//!   wrappers that take variables require each allocated one to be tied
//!   (`nn_in`) to the handle they are passed: the handle then remains the one
//!   door to its system, and the facts stated of it stay current.

use crate::field::{foreign_modulus, Fe};
use ark_ff::{BigInt, PrimeField};
use ark_pallas::{Fq, Fr};
use ark_r1cs_std::alloc::AllocVar;
use ark_r1cs_std::eq::EqGadget;
use ark_r1cs_std::fields::nonnative::NonNativeFieldVar;
use ark_r1cs_std::fields::FieldVar;
use ark_r1cs_std::R1CSVar;
use ark_relations::r1cs::{ConstraintSystem, ConstraintSystemRef, SynthesisError};
use vstd::prelude::*;

verus! {

#[verifier::external_type_specification]
#[verifier::external_body]
pub struct ExSynthesisError(ark_relations::r1cs::SynthesisError);

/// The handle to one circuit's constraint system, exclusively owned by the
/// synthesis that fills it. A surrounding proving pipeline (the synthesizer
/// glue outside this library) may wrap a system of its own in the field;
/// nothing is promised of such a handle: variables become tied to it only by
/// allocating through it, and no operation here accepts variables of another
/// handle.
#[verifier::external_body]
pub struct CircuitRef {
    pub inner: ConstraintSystemRef<Fr>,
}

/// One in-circuit element of the foreign field.
#[verifier::external_body]
pub struct NnVar {
    inner: NonNativeFieldVar<Fq, Fr>,
}

pub uninterp spec fn nn_value(v: NnVar) -> nat;

pub uninterp spec fn cs_sat(cs: CircuitRef) -> bool;

pub uninterp spec fn cs_count(cs: CircuitRef) -> nat;

pub uninterp spec fn cs_profile(cs: CircuitRef) -> nat;

pub uninterp spec fn witness_alloc_cost(profile: nat) -> nat;

pub uninterp spec fn cs_live(cs: CircuitRef) -> bool;

pub uninterp spec fn nn_readable(v: NnVar) -> bool;

pub uninterp spec fn nn_allocated(v: NnVar) -> bool;

pub uninterp spec fn cs_id(cs: CircuitRef) -> int;

pub uninterp spec fn nn_sys(v: NnVar) -> int;

/// The variable may be used with this handle: a bare constant with any one,
/// an allocated variable only with the handle of its own system.
pub open spec fn nn_in(v: NnVar, cs: CircuitRef) -> bool {
    nn_allocated(v) ==> nn_sys(v) == cs_id(cs)
}

/// Relies on ConstraintSystem::new_ref: a fresh system holds no constraints,
/// is satisfied, keeps assignments, and starts under the constraint-count
/// optimization goal (profile 0 here).
#[verifier::external_body]
pub fn new_constraint_system() -> (cs: CircuitRef)
    ensures
        cs_sat(cs),
        cs_count(cs) == 0,
        cs_profile(cs) == 0,
        cs_live(cs),
{
    CircuitRef { inner: ConstraintSystem::<Fr>::new_ref() }
}

/// Relies on ConstraintSystemRef::num_constraints: how many constraints the
/// system holds.
#[verifier::external_body]
pub fn num_constraints(cs: &CircuitRef) -> (n: usize)
    ensures
        n == cs_count(*cs),
{
    cs.inner.num_constraints()
}

/// Relies on ConstraintSystemRef::is_satisfied: whether every emitted
/// constraint holds under the stored assignments; it fails only where no
/// assignments are kept, so it succeeds on every live system.
#[verifier::external_body]
pub fn cs_is_satisfied(cs: &CircuitRef) -> (r: Result<bool, SynthesisError>)
    ensures
        r is Ok ==> r->Ok_0 == cs_sat(*cs),
        cs_live(*cs) ==> r is Ok,
{
    cs.inner.is_satisfied()
}

/// Relies on NonNativeFieldVar::new_constant: in constant mode the variable is
/// the constant itself and the system is not touched; in this version the
/// call cannot fail, and a constant's value can always be read back.
#[verifier::external_body]
pub(crate) fn nn_new_constant(cs: &CircuitRef, v: &Fe) -> (r: Result<NnVar, SynthesisError>)
    requires
        v.wf(),
    ensures
        r is Ok,
        nn_value(r->Ok_0) == v.as_nat(),
        nn_readable(r->Ok_0),
        !nn_allocated(r->Ok_0),
{
    let x = Fq::from_bigint(BigInt([v.l0, v.l1, v.l2, v.l3])).unwrap();
    let inner = NonNativeFieldVar::new_constant(cs.inner.clone(), x)?;
    Ok(NnVar { inner })
}

/// Relies on NonNativeFieldVar::new_witness: the limbs of the given element
/// are allocated and range-checked; the variable's value is that element; the
/// appended constraints hold for it; how many there are depends only on the
/// system's optimization goal. In this version the call cannot fail (a
/// closure error is treated as zero, and every allocation and constraint
/// step returns success); on a live system the new variable is an allocated
/// one whose value can be read back.
#[verifier::external_body]
pub(crate) fn nn_new_witness(cs: &mut CircuitRef, v: &Fe) -> (r: Result<NnVar, SynthesisError>)
    requires
        v.wf(),
    ensures
        r is Ok,
        nn_value(r->Ok_0) == v.as_nat(),
        cs_sat(*final(cs)) == cs_sat(*old(cs)),
        cs_count(*final(cs)) == cs_count(*old(cs)) + witness_alloc_cost(cs_profile(*old(cs))),
        cs_profile(*final(cs)) == cs_profile(*old(cs)),
        cs_live(*final(cs)) == cs_live(*old(cs)),
        cs_id(*final(cs)) == cs_id(*old(cs)),
        nn_allocated(r->Ok_0) ==> nn_sys(r->Ok_0) == cs_id(*old(cs)),
        cs_live(*old(cs)) ==> nn_readable(r->Ok_0) && nn_allocated(r->Ok_0),
{
    let x = Fq::from_bigint(BigInt([v.l0, v.l1, v.l2, v.l3])).unwrap();
    let inner = NonNativeFieldVar::new_witness(cs.inner.clone(), || Ok(x))?;
    Ok(NnVar { inner })
}

/// Relies on FieldVar::zero: the constant zero, outside the system; a
/// constant's value can always be read back.
#[verifier::external_body]
pub(crate) fn nn_zero() -> (r: NnVar)
    ensures
        nn_value(r) == 0,
        nn_readable(r),
        !nn_allocated(r),
{
    NnVar { inner: NonNativeFieldVar::zero() }
}

/// Relies on the Add impl for NonNativeFieldVar: the result's value is the
/// field sum; any reduction constraints it appends hold for the assigned
/// values, so satisfaction is preserved. The constraints go to the system
/// embedded in the variables, so both must be tied to the handle passed;
/// variables of one system share its optimization type, which the operands
/// are asserted to agree on.
#[verifier::external_body]
#[allow(unused_variables)]
pub(crate) fn nn_add(cs: &mut CircuitRef, a: &NnVar, b: &NnVar) -> (r: NnVar)
    requires
        nn_in(*a, *old(cs)),
        nn_in(*b, *old(cs)),
    ensures
        nn_value(r) == (nn_value(*a) + nn_value(*b)) % foreign_modulus(),
        cs_sat(*final(cs)) == cs_sat(*old(cs)),
        cs_profile(*final(cs)) == cs_profile(*old(cs)),
        cs_live(*final(cs)) == cs_live(*old(cs)),
        cs_id(*final(cs)) == cs_id(*old(cs)),
        nn_in(r, *final(cs)),
        nn_readable(*a) && nn_readable(*b) ==> nn_readable(r),
{
    NnVar { inner: &a.inner + &b.inner }
}

/// Relies on the Mul impl for NonNativeFieldVar: the result's value is the
/// field product; the constraints it appends hold for the assigned values,
/// so satisfaction is preserved. As with addition, the constraints go to the
/// variables' own system, so both operands must be tied to the handle.
#[verifier::external_body]
#[allow(unused_variables)]
pub(crate) fn nn_mul(cs: &mut CircuitRef, a: &NnVar, b: &NnVar) -> (r: NnVar)
    requires
        nn_in(*a, *old(cs)),
        nn_in(*b, *old(cs)),
    ensures
        nn_value(r) == (nn_value(*a) * nn_value(*b)) % foreign_modulus(),
        cs_sat(*final(cs)) == cs_sat(*old(cs)),
        cs_profile(*final(cs)) == cs_profile(*old(cs)),
        cs_live(*final(cs)) == cs_live(*old(cs)),
        cs_id(*final(cs)) == cs_id(*old(cs)),
        nn_in(r, *final(cs)),
        nn_readable(*a) && nn_readable(*b) ==> nn_readable(r),
{
    NnVar { inner: &a.inner * &b.inner }
}

/// Relies on R1CSVar::value and into_bigint: the canonical representative of
/// the variable's assigned value, as four little-endian limbs; it fails only
/// where no assignment is stored, so it succeeds on every readable variable.
#[verifier::external_body]
pub fn nn_value_read(v: &NnVar) -> (r: Result<Fe, SynthesisError>)
    ensures
        r is Ok ==> r->Ok_0.wf() && r->Ok_0.as_nat() == nn_value(*v),
        nn_readable(*v) ==> r is Ok,
{
    let x = v.inner.value()?;
    let b = x.into_bigint().0;
    Ok(Fe { l0: b[0], l1: b[1], l2: b[2], l3: b[3] })
}

/// Relies on EqGadget::enforce_equal for NonNativeFieldVar: on success the
/// appended constraints hold exactly when the two assigned values are equal.
/// It fails only for a pair of bare constants with unequal values, and then
/// without touching the system; with an allocated variable on either side,
/// or equal values, it succeeds. The constraints go to the variables' own
/// system, so both must be tied to the handle passed.
#[verifier::external_body]
pub(crate) fn nn_enforce_equal(cs: &mut CircuitRef, a: &NnVar, b: &NnVar) -> (r: Result<
    (),
    SynthesisError,
>)
    requires
        nn_in(*a, *old(cs)),
        nn_in(*b, *old(cs)),
    ensures
        r is Ok ==> cs_sat(*final(cs)) == (cs_sat(*old(cs)) && nn_value(*a) == nn_value(*b)),
        r is Err ==> cs_sat(*final(cs)) == cs_sat(*old(cs)) && cs_count(*final(cs)) == cs_count(
            *old(cs),
        ),
        cs_profile(*final(cs)) == cs_profile(*old(cs)),
        cs_live(*final(cs)) == cs_live(*old(cs)),
        cs_id(*final(cs)) == cs_id(*old(cs)),
        nn_allocated(*a) || nn_allocated(*b) || nn_value(*a) == nn_value(*b) ==> r is Ok,
{
    let _ = &cs;
    a.inner.enforce_equal(&b.inner)
}

} // verus!
