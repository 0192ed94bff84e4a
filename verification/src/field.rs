//! Elements of the foreign field (the pallas base field), held as the four
//! little-endian 64-bit limbs of their canonical representative.

use ark_ff::{BigInt, PrimeField};
use ark_pallas::Fq;
use vstd::prelude::*;

verus! {

/// The prime modulus of the represented (foreign) field: the pallas base field.
pub open spec fn foreign_modulus() -> nat {
    28948022309329048855892746252171976963363056481941560715954676764349967630337nat
}

/// The natural number encoded by four 64-bit limbs, little-endian.
pub open spec fn limbs_as_nat(l0: u64, l1: u64, l2: u64, l3: u64) -> nat {
    (l0 as nat) + (l1 as nat) * 0x1_0000_0000_0000_0000 + (l2 as nat)
        * 0x1_0000_0000_0000_0000_0000_0000_0000_0000 + (l3 as nat)
        * 0x1_0000_0000_0000_0000_0000_0000_0000_0000_0000_0000_0000_0000
}

/// An element of the foreign field: the canonical representative, below the
/// modulus, as four little-endian 64-bit limbs.
#[derive(Clone, Copy, PartialEq, Eq, Structural, Debug)]
pub struct Fe {
    pub l0: u64,
    pub l1: u64,
    pub l2: u64,
    pub l3: u64,
}

impl Fe {
    /// The value this element stands for.
    pub open spec fn as_nat(self) -> nat {
        limbs_as_nat(self.l0, self.l1, self.l2, self.l3)
    }

    /// A well-formed element is a canonical representative.
    pub open spec fn wf(self) -> bool {
        self.as_nat() < foreign_modulus()
    }

    /// The additive identity.
    pub fn zero() -> (r: Fe)
        ensures
            r.as_nat() == 0,
            r.wf(),
    {
        Fe { l0: 0, l1: 0, l2: 0, l3: 0 }
    }

    /// Embeds a machine integer; every such value is below the modulus.
    pub fn from_u64(x: u64) -> (r: Fe)
        ensures
            r.as_nat() == x,
            r.wf(),
    {
        Fe { l0: x, l1: 0, l2: 0, l3: 0 }
    }

    /// Whether this element is the additive identity.
    pub fn is_zero(&self) -> (r: bool)
        ensures
            r == (self.as_nat() == 0),
    {
        self.l0 == 0 && self.l1 == 0 && self.l2 == 0 && self.l3 == 0
    }

    /// Whether the limbs are a canonical representative, below the modulus:
    /// the executable form of `wf`.
    pub fn is_canonical(&self) -> (r: bool)
        ensures
            r == self.wf(),
    {
        self.l3 < 0x4000_0000_0000_0000 || (self.l3 == 0x4000_0000_0000_0000 && self.l2 == 0 && (
        self.l1 < 0x2246_98fc_094c_f91b || (self.l1 == 0x2246_98fc_094c_f91b && self.l0
            < 0x992d_30ed_0000_0001)))
    }

    /// Whether this element is the multiplicative identity.
    pub fn is_one(&self) -> (r: bool)
        ensures
            r == (self.as_nat() == 1),
    {
        self.l0 == 1 && self.l1 == 0 && self.l2 == 0 && self.l3 == 0
    }
}

/// Relies on ark_ff's field addition on the pallas base field: the canonical
/// representative of a sum is the sum of the representatives, modulo the prime.
#[verifier::external_body]
pub(crate) fn fe_add(a: &Fe, b: &Fe) -> (r: Fe)
    requires
        a.wf(),
        b.wf(),
    ensures
        r.as_nat() == (a.as_nat() + b.as_nat()) % foreign_modulus(),
        r.wf(),
{
    let x = Fq::from_bigint(BigInt([a.l0, a.l1, a.l2, a.l3])).unwrap();
    let y = Fq::from_bigint(BigInt([b.l0, b.l1, b.l2, b.l3])).unwrap();
    let s = (x + y).into_bigint().0;
    Fe { l0: s[0], l1: s[1], l2: s[2], l3: s[3] }
}

/// Relies on ark_ff's field multiplication on the pallas base field: the
/// canonical representative of a product is the product of the
/// representatives, modulo the prime.
#[verifier::external_body]
pub(crate) fn fe_mul(a: &Fe, b: &Fe) -> (r: Fe)
    requires
        a.wf(),
        b.wf(),
    ensures
        r.as_nat() == (a.as_nat() * b.as_nat()) % foreign_modulus(),
        r.wf(),
{
    let x = Fq::from_bigint(BigInt([a.l0, a.l1, a.l2, a.l3])).unwrap();
    let y = Fq::from_bigint(BigInt([b.l0, b.l1, b.l2, b.l3])).unwrap();
    let s = (x * y).into_bigint().0;
    Fe { l0: s[0], l1: s[1], l2: s[2], l3: s[3] }
}

} // verus!
