//! Elements of the scalar field that the lookup values live in.
//!
//! An element is held as its canonical residue, in four little-endian 64-bit
//! limbs. The arithmetic itself is done by `ark_ff` on `ark_curve25519::Fr`.

use vstd::prelude::*;
use vstd::arithmetic::div_mod::*;
use vstd::arithmetic::mul::*;
use ark_curve25519::Fr;
use ark_ff::BigInt;

verus! {

/// The order of the scalar field, `2^252 + 27742317777372353535851937790883648493`.
pub open spec fn modulus() -> nat {
    0x1000_0000_0000_0000 * (0x1_0000_0000_0000_0000 * (0x1_0000_0000_0000_0000
        * 0x1_0000_0000_0000_0000)) + 27742317777372353535851937790883648493
}

/// The number that four little-endian 64-bit limbs stand for.
pub open spec fn limbs_value(l: Seq<u64>) -> nat {
    (l[0] as nat) + 0x1_0000_0000_0000_0000 * ((l[1] as nat) + 0x1_0000_0000_0000_0000 * ((
    l[2] as nat) + 0x1_0000_0000_0000_0000 * (l[3] as nat)))
}

/// A field element, as its canonical residue.
#[derive(Clone, Copy, Debug, PartialEq, Eq)]
pub struct Fe {
    limbs: [u64; 4],
}

impl View for Fe {
    type V = nat;

    open spec fn view(&self) -> nat {
        limbs_value(self.spec_limbs())
    }
}

/// Sum of two residues.
pub open spec fn add_mod(a: nat, b: nat) -> nat {
    (a + b) % modulus()
}

/// Difference of two residues.
pub open spec fn sub_mod(a: nat, b: nat) -> nat {
    ((a + modulus() - b) % (modulus() as int)) as nat
}

/// Product of two residues.
pub open spec fn mul_mod(a: nat, b: nat) -> nat {
    (a * b) % modulus()
}

/// `Add` of `ark_ff`'s `Fp`, on `ark_curve25519::Fr`: the sum of two reduced
/// elements, reduced again. The limbs go in through `From<BigInt>` and come
/// out through `into_bigint`, which hands back the canonical residue.
#[verifier::external_body]
fn fr_add(a: &Fe, b: &Fe) -> (r: Fe)
    requires
        a.wf(),
        b.wf(),
    ensures
        r.wf(),
        r@ == add_mod(a@, b@),
{
    let x: Fr = BigInt::new(a.limbs).into();
    let y: Fr = BigInt::new(b.limbs).into();
    Fe { limbs: BigInt::from(x + y).0 }
}

/// `Sub` of `ark_ff`'s `Fp`, on `ark_curve25519::Fr`: the difference of two
/// reduced elements, as a residue.
#[verifier::external_body]
fn fr_sub(a: &Fe, b: &Fe) -> (r: Fe)
    requires
        a.wf(),
        b.wf(),
    ensures
        r.wf(),
        r@ == sub_mod(a@, b@),
{
    let x: Fr = BigInt::new(a.limbs).into();
    let y: Fr = BigInt::new(b.limbs).into();
    Fe { limbs: BigInt::from(x - y).0 }
}

/// `Mul` of `ark_ff`'s `Fp`, on `ark_curve25519::Fr`: the product of two
/// reduced elements, reduced again.
#[verifier::external_body]
fn fr_mul(a: &Fe, b: &Fe) -> (r: Fe)
    requires
        a.wf(),
        b.wf(),
    ensures
        r.wf(),
        r@ == mul_mod(a@, b@),
{
    let x: Fr = BigInt::new(a.limbs).into();
    let y: Fr = BigInt::new(b.limbs).into();
    Fe { limbs: BigInt::from(x * y).0 }
}

/// Products in the field may be regrouped and reordered.
pub proof fn lemma_mul_mod_laws(a: nat, b: nat, c: nat)
    ensures
        mul_mod(a, b) == mul_mod(b, a),
        mul_mod(mul_mod(a, b), c) == mul_mod(a, mul_mod(b, c)),
        mul_mod(mul_mod(a, b), c) == mul_mod(mul_mod(a, c), b),
{
    let p = modulus() as int;
    lemma_mul_is_commutative(a as int, b as int);
    lemma_mul_is_associative(a as int, b as int, c as int);
    lemma_mul_is_associative(a as int, c as int, b as int);
    lemma_mul_is_commutative(b as int, c as int);
    lemma_mul_mod_noop_left(a as int * b as int, c as int, p);
    lemma_mul_mod_noop_left(a as int * c as int, b as int, p);
    lemma_mul_mod_noop_right(a as int, b as int * c as int, p);
}

/// Two products in the field may trade their inner factors.
pub proof fn lemma_mul_mod_exchange(a: nat, b: nat, c: nat, d: nat)
    ensures
        mul_mod(mul_mod(a, b), mul_mod(c, d)) == mul_mod(mul_mod(a, c), mul_mod(b, d)),
{
    lemma_mul_mod_laws(a, b, mul_mod(c, d));
    lemma_mul_mod_laws(b, c, d);
    lemma_mul_mod_laws(c, b, d);
    lemma_mul_mod_laws(a, c, mul_mod(b, d));
}

/// Every value of the list is a reduced field element.
pub open spec fn all_wf(vals: Seq<Fe>) -> bool {
    forall|i: int| 0 <= i < vals.len() ==> (#[trigger] vals[i]).wf()
}

impl Fe {
    /// The limbs, least significant first.
    pub closed spec fn spec_limbs(&self) -> Seq<u64> {
        self.limbs@
    }

    /// The element is reduced: its value is below the modulus.
    pub open spec fn wf(&self) -> bool {
        &&& self.spec_limbs().len() == 4
        &&& self@ < modulus()
    }

    /// The element whose value is `v`.
    pub fn from_u64(v: u64) -> (r: Fe)
        ensures
            r.wf(),
            r@ == v,
    {
        Fe { limbs: [v, 0, 0, 0] }
    }

    /// The element with the given limbs, least significant first, where they
    /// stand for a value below the modulus.
    pub fn from_limbs(limbs: [u64; 4]) -> (r: Option<Fe>)
        ensures
            r.is_some() <==> limbs_value(limbs@) < modulus(),
            r.is_some() ==> r.unwrap().wf() && r.unwrap().spec_limbs() == limbs@,
    {
        let top: u64 = 0x1000_0000_0000_0000;
        let below: bool = limbs[3] < top || (limbs[3] == top && limbs[2] == 0 && (limbs[1]
            < 0x14def9dea2f79cd6 || (limbs[1] == 0x14def9dea2f79cd6 && limbs[0] < 0x5812631a5cf5d3ed)));
        if below {
            Some(Fe { limbs })
        } else {
            None
        }
    }

    /// The additive identity.
    pub fn zero() -> (r: Fe)
        ensures
            r.wf(),
            r@ == 0,
    {
        Fe::from_u64(0)
    }

    /// The multiplicative identity.
    pub fn one() -> (r: Fe)
        ensures
            r.wf(),
            r@ == 1,
    {
        Fe::from_u64(1)
    }

    /// One for `true`, zero for `false`.
    pub fn from_bool(b: bool) -> (r: Fe)
        ensures
            r.wf(),
            r@ == (if b { 1nat } else { 0nat }),
    {
        if b {
            Fe::one()
        } else {
            Fe::zero()
        }
    }

    /// The canonical limbs, least significant first.
    pub fn limbs(&self) -> (r: [u64; 4])
        ensures
            r@ == self.spec_limbs(),
    {
        self.limbs
    }

    /// Whether two elements have the same value.
    pub fn is_equal(&self, other: &Fe) -> (r: bool)
        ensures
            r <==> self@ == other@,
    {
        self.limbs[0] == other.limbs[0] && self.limbs[1] == other.limbs[1] && self.limbs[2]
            == other.limbs[2] && self.limbs[3] == other.limbs[3]
    }

    /// `self + rhs` in the field.
    pub fn add(&self, rhs: &Fe) -> (r: Fe)
        requires
            self.wf(),
            rhs.wf(),
        ensures
            r.wf(),
            r@ == add_mod(self@, rhs@),
    {
        fr_add(self, rhs)
    }

    /// `self - rhs` in the field.
    pub fn sub(&self, rhs: &Fe) -> (r: Fe)
        requires
            self.wf(),
            rhs.wf(),
        ensures
            r.wf(),
            r@ == sub_mod(self@, rhs@),
    {
        fr_sub(self, rhs)
    }

    /// `self * rhs` in the field.
    pub fn mul(&self, rhs: &Fe) -> (r: Fe)
        requires
            self.wf(),
            rhs.wf(),
        ensures
            r.wf(),
            r@ == mul_mod(self@, rhs@),
    {
        fr_mul(self, rhs)
    }
}

} // verus!
