//! The subtables: small fixed tables, addressed by an index that packs two
//! operand slices, the first in the high half and the second in the low half.

use vstd::prelude::*;
use vstd::arithmetic::power2::*;
use vstd::arithmetic::div_mod::*;
use crate::field::{Fe, add_mod, sub_mod, mul_mod, all_wf};
use crate::chunk::{pow2_u64, slice_of};
use crate::compare::{eq_prod, ltu_sum, indicator, lemma_small_residues, lemma_slicewise_compare};

verus! {

/// The kinds of subtable, dispatched by tag.
#[derive(Clone, Copy, Debug, PartialEq, Eq, Structural)]
pub enum SubtableKind {
    /// One where the high half is strictly below the low half.
    Ltu,
    /// One where the two halves are equal.
    Eq,
}

/// The entry of the equality table at `idx`, for halves of `w` bits.
pub open spec fn eq_entry(idx: nat, w: nat) -> nat {
    if idx / pow2(w) == idx % pow2(w) {
        1
    } else {
        0
    }
}

/// The entry of the less-than table at `idx`, for halves of `w` bits.
pub open spec fn ltu_entry(idx: nat, w: nat) -> nat {
    if idx / pow2(w) < idx % pow2(w) {
        1
    } else {
        0
    }
}

/// The multilinear polynomial in two bits that is one where they are equal.
pub open spec fn bit_eq(x: nat, y: nat) -> nat {
    add_mod(mul_mod(x, y), mul_mod(sub_mod(1, x), sub_mod(1, y)))
}

/// The multilinear polynomial in two bits that is one where the first is
/// below the second.
pub open spec fn bit_lt(x: nat, y: nat) -> nat {
    mul_mod(sub_mod(1, x), y)
}

/// `bit_lt` of each pair of coordinates of `point`: coordinate `i` of its
/// first half with coordinate `i` of its second half.
pub open spec fn lt_bits(point: Seq<Fe>) -> Seq<nat> {
    Seq::new(point.len() / 2, |i: int| bit_lt(point[i]@, point[point.len() / 2 + i]@))
}

/// `bit_eq` of each pair of coordinates of `point`.
pub open spec fn eq_bits(point: Seq<Fe>) -> Seq<nat> {
    Seq::new(point.len() / 2, |i: int| bit_eq(point[i]@, point[point.len() / 2 + i]@))
}

/// `point` is the binary point of the pair `(hi, lo)`: its first `w`
/// coordinates are the bits of `hi`, its last `w` those of `lo`, each from
/// the most significant bit down.
pub open spec fn encodes(point: Seq<Fe>, hi: nat, lo: nat, w: nat) -> bool {
    &&& point.len() == 2 * w
    &&& forall|j: int| 0 <= j < w ==> (#[trigger] point[j])@ == slice_of(hi, (w - 1 - j) as nat, 1)
    &&& forall|j: int|
        0 <= j < w ==> (#[trigger] point[w + j])@ == slice_of(lo, (w - 1 - j) as nat, 1)
}

/// The least `k` with `2^k >= m`, and 0 for `m == 0`.
pub open spec fn ceil_log2(m: nat) -> nat
    decreases m,
{
    if m <= 1 {
        0
    } else {
        1 + ceil_log2((m + 1) / 2)
    }
}

/// `ark_std::log2`: the base-two logarithm of `x`, rounded up, and 0 for 0.
#[verifier::external_body]
pub(crate) fn log2_ceil(x: usize) -> (r: usize)
    ensures
        r == ceil_log2(x as nat),
{
    ark_std::log2(x) as usize
}

impl SubtableKind {
    /// The entry at `idx` of the table of this kind, for halves of `w` bits.
    pub open spec fn entry_spec(self, idx: nat, w: nat) -> nat {
        match self {
            SubtableKind::Ltu => ltu_entry(idx, w),
            SubtableKind::Eq => eq_entry(idx, w),
        }
    }

    /// The entry at `index` of the table with `2^log_m` entries.
    pub fn entry(&self, index: usize, log_m: usize) -> (r: Fe)
        requires
            log_m / 2 < 64,
        ensures
            r.wf(),
            r@ == self.entry_spec(index as nat, (log_m / 2) as nat),
    {
        let base: u64 = pow2_u64(log_m / 2);
        proof {
            lemma_pow2_pos((log_m / 2) as nat);
        }
        let hi: u64 = (index as u64) / base;
        let lo: u64 = (index as u64) % base;
        match self {
            SubtableKind::Ltu => Fe::from_bool(hi < lo),
            SubtableKind::Eq => Fe::from_bool(hi == lo),
        }
    }

    /// The table's multilinear extension at `point`, whose first half holds
    /// the coordinates of the high half of an index and whose second half
    /// those of the low half.
    pub open spec fn mle_spec(self, point: Seq<Fe>) -> nat {
        match self {
            SubtableKind::Ltu => ltu_sum(lt_bits(point), eq_bits(point), point.len() / 2),
            SubtableKind::Eq => eq_prod(eq_bits(point), point.len() / 2),
        }
    }

    /// Evaluates the table's multilinear extension at `point`.
    pub fn evaluate_mle(&self, point: &[Fe]) -> (r: Fe)
        requires
            all_wf(point@),
        ensures
            r.wf(),
            r@ == self.mle_spec(point@),
    {
        let b: usize = point.len() / 2;
        let one: Fe = Fe::one();
        let mut sum: Fe = Fe::zero();
        let mut prod: Fe = Fe::one();
        let mut i: usize = 0;
        while i < b
            invariant
                i <= b,
                b == point@.len() / 2,
                all_wf(point@),
                one.wf(),
                one@ == 1,
                sum.wf(),
                prod.wf(),
                sum@ == ltu_sum(lt_bits(point@), eq_bits(point@), i as nat),
                prod@ == eq_prod(eq_bits(point@), i as nat),
            decreases b - i,
        {
            let x: Fe = point[i];
            let y: Fe = point[b + i];
            let not_x: Fe = one.sub(&x);
            let not_y: Fe = one.sub(&y);
            let lt: Fe = not_x.mul(&y);
            let eq: Fe = x.mul(&y).add(&not_x.mul(&not_y));
            sum = sum.add(&lt.mul(&prod));
            prod = prod.mul(&eq);
            i = i + 1;
        }
        match self {
            SubtableKind::Ltu => sum,
            SubtableKind::Eq => prod,
        }
    }

    /// The whole table of `m` entries, in the order of their indices.
    pub fn materialize(&self, m: usize) -> (r: Vec<Fe>)
        requires
            ceil_log2(m as nat) / 2 < 64,
        ensures
            r@.len() == m,
            forall|i: int|
                0 <= i < m ==> (#[trigger] r@[i]).wf() && r@[i]@ == self.entry_spec(
                    i as nat,
                    ceil_log2(m as nat) / 2,
                ),
    {
        let log_m: usize = log2_ceil(m);
        let mut r: Vec<Fe> = Vec::new();
        let mut i: usize = 0;
        while i < m
            invariant
                i <= m,
                log_m == ceil_log2(m as nat),
                log_m / 2 < 64,
                r@.len() == i,
                forall|j: int|
                    0 <= j < i ==> (#[trigger] r@[j]).wf() && r@[j]@ == self.entry_spec(
                        j as nat,
                        (log_m / 2) as nat,
                    ),
            decreases m - i,
        {
            r.push(self.entry(i, log_m));
            i = i + 1;
        }
        r
    }
}

/// The binary point of the pair of halves that `index` packs, for halves of
/// `log_m / 2` bits.
pub fn index_to_point(index: usize, log_m: usize) -> (r: Vec<Fe>)
    requires
        log_m / 2 < 64,
    ensures
        all_wf(r@),
        encodes(
            r@,
            index as nat / pow2((log_m / 2) as nat),
            index as nat % pow2((log_m / 2) as nat),
            (log_m / 2) as nat,
        ),
{
    let w: usize = log_m / 2;
    let base: u64 = pow2_u64(w);
    proof {
        lemma_pow2_pos(w as nat);
        lemma2_to64();
    }
    let hi: u64 = (index as u64) / base;
    let lo: u64 = (index as u64) % base;
    let mut r: Vec<Fe> = Vec::new();
    push_bits(hi, w, &mut r);
    let ghost first: Seq<Fe> = r@;
    push_bits(lo, w, &mut r);
    proof {
        assert forall|j: int| 0 <= j < w implies (#[trigger] r@[j])@ == slice_of(
            hi as nat,
            (w - 1 - j) as nat,
            1,
        ) by {
            assert(first[0 + j]@ == slice_of(hi as nat, (w - 1 - j) as nat, 1));
            assert(r@.subrange(0, w as int)[j] == r@[j]);
        }
    }
    r
}

/// Appends to `out` the `w` lowest bits of `v`, the most significant first.
pub fn push_bits(v: u64, w: usize, out: &mut Vec<Fe>)
    requires
        w < 64,
        all_wf(old(out)@),
    ensures
        all_wf(final(out)@),
        final(out)@.len() == old(out)@.len() + w,
        final(out)@.subrange(0, old(out)@.len() as int) == old(out)@,
        forall|j: int|
            0 <= j < w ==> (#[trigger] final(out)@[old(out)@.len() + j])@ == slice_of(
                v as nat,
                (w - 1 - j) as nat,
                1,
            ),
{
    let ghost before: Seq<Fe> = out@;
    let mut j: usize = 0;
    proof {
        lemma2_to64();
    }
    while j < w
        invariant
            j <= w,
            w < 64,
            pow2(1) == 2,
            all_wf(out@),
            out@.len() == before.len() + j,
            out@.subrange(0, before.len() as int) == before,
            forall|t: int|
                0 <= t < j ==> (#[trigger] out@[before.len() + t])@ == slice_of(
                    v as nat,
                    (w - 1 - t) as nat,
                    1,
                ),
        decreases w - j,
    {
        let k: usize = w - 1 - j;
        let d: u64 = pow2_u64(k);
        proof {
            lemma_pow2_pos(k as nat);
            assert((k as nat) * 1 == k as nat) by (nonlinear_arith);
        }
        let bit: u64 = (v / d) % 2;
        out.push(Fe::from_u64(bit));
        assert(out@.subrange(0, before.len() as int) =~= before);
        j = j + 1;
    }
}

/// On the binary point of a pair of halves, the multilinear extension of a
/// table is the table's entry at the index that packs the pair.
pub proof fn lemma_mle_on_binary_point(kind: SubtableKind, point: Seq<Fe>, hi: nat, lo: nat, w: nat)
    requires
        encodes(point, hi, lo, w),
        hi < pow2(w),
        lo < pow2(w),
    ensures
        kind.mle_spec(point) == kind.entry_spec(hi * pow2(w) + lo, w),
{
    let lt = lt_bits(point);
    let eq = eq_bits(point);
    lemma2_to64();
    lemma_small_residues();
    assert forall|i: int| 0 <= i < w implies #[trigger] lt[i] == indicator(
        slice_of(hi, (w - 1 - i) as nat, 1) < slice_of(lo, (w - 1 - i) as nat, 1),
    ) && #[trigger] eq[i] == indicator(
        slice_of(hi, (w - 1 - i) as nat, 1) == slice_of(lo, (w - 1 - i) as nat, 1),
    ) by {
        let k = (w - 1 - i) as nat;
        lemma_pow2_pos(k * 1);
        lemma_mod_bound((hi / pow2(k * 1)) as int, 2);
        lemma_mod_bound((lo / pow2(k * 1)) as int, 2);
        assert(point[i]@ == slice_of(hi, k, 1));
        assert(point[w + i]@ == slice_of(lo, k, 1));
    }
    assert(w * 1 == w) by (nonlinear_arith);
    lemma_slicewise_compare(lt, eq, hi, lo, w, 1);
    let b = pow2(w);
    lemma_pow2_pos(w);
    assert(hi * b == b * hi) by (nonlinear_arith);
    lemma_fundamental_div_mod_converse((hi * b + lo) as int, b as int, hi as int, lo as int);
}

impl SubtableKind {
    /// The table's value at an `index` inside the table, through its
    /// multilinear extension: the extension at the binary point of `index`.
    pub fn lookup(&self, index: usize, log_m: usize) -> (r: Fe)
        requires
            log_m / 2 < 64,
            index < pow2(2 * ((log_m / 2) as nat)),
        ensures
            r.wf(),
            r@ == self.entry_spec(index as nat, (log_m / 2) as nat),
    {
        let point: Vec<Fe> = index_to_point(index, log_m);
        proof {
            let w = (log_m / 2) as nat;
            let b = pow2(w);
            lemma_pow2_pos(w);
            lemma_fundamental_div_mod(index as int, b as int);
            lemma_mod_bound(index as int, b as int);
            assert(b * (index as nat / b) == (index as nat / b) * b) by (nonlinear_arith);
            lemma_pow2_adds(w, w);
            assert(index as nat / b < b) by (nonlinear_arith)
                requires
                    index as nat == (index as nat / b) * b + index as nat % b,
                    index < b * b,
                    b > 0,
            ;
            lemma_mle_on_binary_point(*self, point@, index as nat / b, index as nat % b, w);
        }
        self.evaluate_mle(point.as_slice())
    }
}

} // verus!
