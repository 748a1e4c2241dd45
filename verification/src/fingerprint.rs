//! Offline memory checking: the fingerprint of an access and the balance of
//! the four accumulated products of one memory.

use vstd::prelude::*;
use crate::field::{Fe, add_mod, sub_mod, mul_mod};

verus! {

/// The sizes of a batch of memories that are checked together.
pub trait MemBatchInfo {
    /// The number of lookup operations.
    fn ops_size(&self) -> usize;

    /// The number of addressable cells of one memory.
    fn mem_size(&self) -> usize;

    /// The number of memories in the batch.
    fn num_memories(&self) -> usize;
}

/// The fingerprint of the triple `(a, v, t)` at the point `r`:
/// `a * r^2 + v * r + t`.
pub open spec fn fingerprint_spec(a: nat, v: nat, t: nat, r: nat) -> nat {
    add_mod(add_mod(mul_mod(a, mul_mod(r, r)), mul_mod(v, r)), t)
}

/// The factor that the triple `(a, v, t)` adds to a grand product: its
/// fingerprint at `r`, shifted down by `shift`.
pub open spec fn hash_spec(a: nat, v: nat, t: nat, r: nat, shift: nat) -> nat {
    sub_mod(fingerprint_spec(a, v, t, r), shift)
}

/// The fingerprint of an (address, value, timestamp) triple at `r_hash`.
pub fn fingerprint(a: &Fe, v: &Fe, t: &Fe, r_hash: &Fe) -> (r: Fe)
    requires
        a.wf(),
        v.wf(),
        t.wf(),
        r_hash.wf(),
    ensures
        r.wf(),
        r@ == fingerprint_spec(a@, v@, t@, r_hash@),
{
    let square: Fe = r_hash.mul(r_hash);
    a.mul(&square).add(&v.mul(r_hash)).add(t)
}

/// The grand-product factor of a triple: its fingerprint at `r_hash`, less
/// `r_multiset_check`.
pub fn hash_tuple(a: &Fe, v: &Fe, t: &Fe, r_hash: &Fe, r_multiset_check: &Fe) -> (r: Fe)
    requires
        a.wf(),
        v.wf(),
        t.wf(),
        r_hash.wf(),
        r_multiset_check.wf(),
    ensures
        r.wf(),
        r@ == hash_spec(a@, v@, t@, r_hash@, r_multiset_check@),
{
    fingerprint(a, v, t, r_hash).sub(r_multiset_check)
}

/// The four accumulated products of one memory.
#[derive(Clone, Copy, Debug)]
pub struct GPEvals {
    pub hash_init: Fe,
    pub hash_read: Fe,
    pub hash_write: Fe,
    pub hash_final: Fe,
}

impl GPEvals {
    /// All four products are reduced field elements.
    pub open spec fn wf(&self) -> bool {
        &&& self.hash_init.wf()
        &&& self.hash_read.wf()
        &&& self.hash_write.wf()
        &&& self.hash_final.wf()
    }

    /// The initial contents together with the writes weigh as much as the
    /// reads together with the final contents.
    pub open spec fn balanced(&self) -> bool {
        mul_mod(self.hash_init@, self.hash_write@) == mul_mod(self.hash_read@, self.hash_final@)
    }

    /// Whether the memory's products balance.
    pub fn is_balanced(&self) -> (r: bool)
        requires
            self.wf(),
        ensures
            r <==> self.balanced(),
    {
        let left: Fe = self.hash_init.mul(&self.hash_write);
        let right: Fe = self.hash_read.mul(&self.hash_final);
        left.is_equal(&right)
    }
}

/// Why a proof is rejected.
#[derive(Clone, Copy, Debug, PartialEq, Eq, Structural)]
pub enum ProofVerifyError {
    /// The products of the memory with this index do not balance.
    MultisetBalance(usize),
}

/// Every claim of the list is made of reduced field elements.
pub open spec fn claims_wf(claims: Seq<GPEvals>) -> bool {
    forall|i: int| 0 <= i < claims.len() ==> (#[trigger] claims[i]).wf()
}

/// Checks the balance of every memory's products. One memory out of balance
/// rejects the whole list, and the error names the first such memory.
pub fn check_multiset_balance(claims: &[GPEvals]) -> (r: Result<(), ProofVerifyError>)
    requires
        claims_wf(claims@),
    ensures
        r.is_ok() <==> forall|i: int| 0 <= i < claims@.len() ==> (#[trigger] claims@[i]).balanced(),
        forall|k: usize|
            r == Err::<(), ProofVerifyError>(ProofVerifyError::MultisetBalance(k)) <==> (k
                < claims@.len() && !claims@[k as int].balanced() && forall|i: int|
                0 <= i < k ==> (#[trigger] claims@[i]).balanced()),
{
    let mut i: usize = 0;
    while i < claims.len()
        invariant
            i <= claims@.len(),
            claims_wf(claims@),
            forall|j: int| 0 <= j < i ==> (#[trigger] claims@[j]).balanced(),
        decreases claims@.len() - i,
    {
        if !claims[i].is_balanced() {
            return Err(ProofVerifyError::MultisetBalance(i));
        }
        i = i + 1;
    }
    Ok(())
}

} // verus!
