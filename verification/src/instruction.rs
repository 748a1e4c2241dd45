//! Instructions as lookups: which subtables an instruction reads, how its
//! operands become table indices, and how the looked-up values are combined
//! into its output.

use vstd::prelude::*;
use vstd::arithmetic::power2::*;
use vstd::arithmetic::div_mod::*;
use rand::rngs::StdRng;
use rand_core::RngCore;
use crate::field::{Fe, sub_mod, all_wf};
use crate::compare::{eq_prod, ltu_sum, indicator, lemma_small_residues, lemma_slicewise_compare};
use crate::chunk::{
    chunk_and_concatenate_operands, chunk_index, slice_of, valid_config, check_config, pow2_u64,
    ConfigError,
};
use crate::subtable::{SubtableKind, ceil_log2, eq_entry, ltu_entry, log2_ceil};

verus! {

/// The generator that instances are sampled from.
#[verifier::external_type_specification]
#[verifier::external_body]
pub struct ExStdRng(StdRng);

/// `RngCore::next_u32` on `rand`'s `StdRng`: the next 32 bits of the
/// generator's stream. Nothing is claimed of the value.
#[verifier::external_body]
fn next_u32(rng: &mut StdRng) -> (r: u32) {
    rng.next_u32()
}

/// The less-than values of `vals`: its first `c` values.
pub open spec fn lt_vals(vals: Seq<Fe>, c: nat) -> Seq<nat> {
    Seq::new(c, |i: int| vals[i]@)
}

/// The equality values of `vals`: the `c` values behind the less-than values.
pub open spec fn eq_vals(vals: Seq<Fe>, c: nat) -> Seq<nat> {
    Seq::new(c, |i: int| vals[c + i]@)
}

/// `vals` holds the genuine table entries for the chunks of `(x, y)`: first
/// the less-than entry of each chunk, then the equality entry of each chunk.
pub open spec fn genuine_lookups(vals: Seq<Fe>, x: u64, y: u64, c: nat, w: nat) -> bool {
    &&& vals.len() == 2 * c
    &&& forall|i: int|
        0 <= i < c ==> (#[trigger] vals[i])@ == ltu_entry(chunk_index(x, y, c, w, i as nat), w)
    &&& forall|i: int|
        0 <= i < c ==> (#[trigger] vals[c + i])@ == eq_entry(chunk_index(x, y, c, w, i as nat), w)
}

/// The two halves of a chunk's index are the chunk's slices of `x` and `y`.
pub proof fn lemma_chunk_halves(x: u64, y: u64, c: nat, w: nat, i: nat)
    requires
        i < c,
    ensures
        chunk_index(x, y, c, w, i) / pow2(w) == slice_of(x as nat, (c - 1 - i) as nat, w),
        chunk_index(x, y, c, w, i) % pow2(w) == slice_of(y as nat, (c - 1 - i) as nat, w),
{
    let k = (c - 1 - i) as nat;
    let b = pow2(w);
    lemma_pow2_pos(w);
    lemma_pow2_pos(k * w);
    let sx = slice_of(x as nat, k, w);
    let sy = slice_of(y as nat, k, w);
    lemma_mod_bound((y as nat / pow2(k * w)) as int, b as int);
    assert(sx * b == b * sx) by (nonlinear_arith);
    lemma_fundamental_div_mod_converse(chunk_index(x, y, c, w, i) as int, b as int, sx as int, sy as int);
}

/// Appends to `out` the value of the `kind` table at each of `indices`, in
/// their order, each taken through the table's multilinear extension.
pub fn push_entries(kind: SubtableKind, indices: &Vec<usize>, log_m: usize, out: &mut Vec<Fe>)
    requires
        log_m / 2 < 64,
        forall|j: int| 0 <= j < indices@.len() ==> #[trigger] indices@[j] < pow2(2 * ((log_m / 2) as nat)),
        all_wf(old(out)@),
    ensures
        all_wf(final(out)@),
        final(out)@.len() == old(out)@.len() + indices@.len(),
        final(out)@.subrange(0, old(out)@.len() as int) == old(out)@,
        forall|j: int|
            0 <= j < indices@.len() ==> (#[trigger] final(out)@[old(out)@.len() + j])@
                == kind.entry_spec(indices@[j] as nat, (log_m / 2) as nat),
{
    let ghost before: Seq<Fe> = out@;
    let mut i: usize = 0;
    while i < indices.len()
        invariant
            i <= indices@.len(),
            log_m / 2 < 64,
            forall|j: int|
                0 <= j < indices@.len() ==> #[trigger] indices@[j] < pow2(
                    2 * ((log_m / 2) as nat),
                ),
            all_wf(out@),
            out@.len() == before.len() + i,
            out@.subrange(0, before.len() as int) == before,
            forall|j: int|
                0 <= j < i ==> (#[trigger] out@[before.len() + j])@ == kind.entry_spec(
                    indices@[j] as nat,
                    (log_m / 2) as nat,
                ),
        decreases indices@.len() - i,
    {
        let e: Fe = kind.lookup(indices[i], log_m);
        out.push(e);
        assert(out@.subrange(0, before.len() as int) =~= before);
        i = i + 1;
    }
}

/// The strict comparison of two unsigned operands, as a lookup.
#[derive(Clone, Copy, Debug)]
pub struct SLTUInstruction(pub u64, pub u64);

impl SLTUInstruction {
    /// What the combiner makes of `vals`: the less-than sum over all chunks.
    pub open spec fn combine_spec(vals: Seq<Fe>, c: nat) -> nat {
        ltu_sum(lt_vals(vals, c), eq_vals(vals, c), c)
    }

    /// Combines the `c` less-than values and the `c` equality values behind
    /// them: each chunk's less-than value counts where all chunks above it
    /// are equal.
    pub fn combine_lookups(&self, vals: &[Fe], c: usize, m: usize) -> (r: Fe)
        requires
            vals@.len() == 2 * c,
            all_wf(vals@),
        ensures
            r.wf(),
            r@ == Self::combine_spec(vals@, c as nat),
    {
        let mut sum: Fe = Fe::zero();
        let mut prod: Fe = Fe::one();
        let mut i: usize = 0;
        while i < c
            invariant
                i <= c,
                vals@.len() == 2 * c,
                all_wf(vals@),
                sum.wf(),
                prod.wf(),
                sum@ == ltu_sum(lt_vals(vals@, c as nat), eq_vals(vals@, c as nat), i as nat),
                prod@ == eq_prod(eq_vals(vals@, c as nat), i as nat),
            decreases c - i,
        {
            let term: Fe = vals[i].mul(&prod);
            sum = sum.add(&term);
            prod = prod.mul(&vals[c + i]);
            i = i + 1;
        }
        sum
    }
}

/// The comparison "greater or equal, unsigned" of two operands, as a lookup:
/// one minus the strict comparison.
#[derive(Clone, Copy, Debug, Default)]
pub struct BGEUInstruction(pub u64, pub u64);

impl BGEUInstruction {
    /// What the instruction computes natively: one where `x >= y`.
    pub open spec fn native(self) -> nat {
        indicator(self.0 >= self.1)
    }

    /// What the combiner makes of `vals`.
    pub open spec fn combine_spec(vals: Seq<Fe>, c: nat) -> nat {
        sub_mod(1, SLTUInstruction::combine_spec(vals, c))
    }

    /// The table size `m` suits `c` chunks: the slices cover an operand, and
    /// every index that two slices make lies inside the table.
    pub open spec fn valid_table(c: usize, m: usize) -> bool {
        &&& valid_config(c, ceil_log2(m as nat) as usize)
        &&& pow2(2 * (ceil_log2(m as nat) / 2)) <= m
    }

    /// The two operands.
    pub fn operands(&self) -> (r: [u64; 2])
        ensures
            r@ == seq![self.0, self.1],
    {
        [self.0, self.1]
    }

    /// One minus the strict comparison's combination of the same values.
    pub fn combine_lookups(&self, vals: &[Fe], c: usize, m: usize) -> (r: Fe)
        requires
            vals@.len() == 2 * c,
            all_wf(vals@),
        ensures
            r.wf(),
            r@ == Self::combine_spec(vals@, c as nat),
    {
        let ltu: Fe = SLTUInstruction(self.0, self.1).combine_lookups(vals, c, m);
        Fe::one().sub(&ltu)
    }

    /// The degree of the combiner in its inputs.
    pub fn g_poly_degree(&self, c: usize) -> (r: usize)
        ensures
            r == c,
    {
        c
    }

    /// The subtables that the instruction reads, in the order in which the
    /// combiner takes their values.
    pub fn subtables(&self, c: usize) -> (r: Vec<SubtableKind>)
        ensures
            r@ == seq![SubtableKind::Ltu, SubtableKind::Eq],
    {
        let mut r: Vec<SubtableKind> = Vec::new();
        r.push(SubtableKind::Ltu);
        r.push(SubtableKind::Eq);
        assert(r@ =~= seq![SubtableKind::Ltu, SubtableKind::Eq]);
        r
    }

    /// The table index of each chunk, the most significant first.
    pub fn to_indices(&self, c: usize, log_m: usize) -> (r: Vec<usize>)
        requires
            valid_config(c, log_m),
        ensures
            r@.len() == c,
            forall|i: int|
                0 <= i < c ==> r@[i] as nat == #[trigger] chunk_index(
                    self.0,
                    self.1,
                    c as nat,
                    (log_m / 2) as nat,
                    i as nat,
                ),
            forall|i: int| 0 <= i < c ==> #[trigger] r@[i] < pow2(2 * ((log_m / 2) as nat)),
    {
        chunk_and_concatenate_operands(self.0, self.1, c, log_m)
    }

    /// The instance with the two sampled words as its operands.
    pub fn from_samples(a: u32, b: u32) -> (r: Self)
        ensures
            r.0 == a,
            r.1 == b,
    {
        BGEUInstruction(a as u64, b as u64)
    }

    /// An instance sampled from `rng`: two draws of 32 bits, the first for
    /// `x`, the second for `y`.
    pub fn random(&self, rng: &mut StdRng) -> (r: Self)
        ensures
            r.0 <= u32::MAX,
            r.1 <= u32::MAX,
    {
        let a: u32 = next_u32(rng);
        let b: u32 = next_u32(rng);
        Self::from_samples(a, b)
    }

    /// The genuine entries that the instruction reads, for `c` chunks and
    /// tables of `2^log_m` entries: for each subtable in turn, its entry at
    /// each chunk's index.
    pub fn subtable_lookups(&self, c: usize, log_m: usize) -> (r: Vec<Fe>)
        requires
            valid_config(c, log_m),
        ensures
            all_wf(r@),
            genuine_lookups(r@, self.0, self.1, c as nat, (log_m / 2) as nat),
    {
        let indices: Vec<usize> = self.to_indices(c, log_m);
        let kinds: Vec<SubtableKind> = self.subtables(c);
        let mut r: Vec<Fe> = Vec::new();
        push_entries(kinds[0], &indices, log_m, &mut r);
        let ghost first: Seq<Fe> = r@;
        push_entries(kinds[1], &indices, log_m, &mut r);
        proof {
            let w: nat = (log_m / 2) as nat;
            assert forall|i: int| 0 <= i < c implies (#[trigger] r@[i])@ == ltu_entry(
                chunk_index(self.0, self.1, c as nat, w, i as nat),
                w,
            ) by {
                assert(first[0 + i]@ == kinds@[0].entry_spec(indices@[i] as nat, w));
                assert(r@.subrange(0, c as int)[i] == r@[i]);
            }
            assert forall|i: int| 0 <= i < c implies (#[trigger] r@[c + i])@ == eq_entry(
                chunk_index(self.0, self.1, c as nat, w, i as nat),
                w,
            ) by {
                assert(r@[c + i]@ == kinds@[1].entry_spec(indices@[i] as nat, w));
            }
        }
        r
    }

    /// The instruction's output, through the tables: the combiner applied to
    /// the genuine entries. It is one where `x >= y` and zero elsewhere.
    pub fn lookup_entry(&self, c: usize, m: usize) -> (r: Fe)
        requires
            Self::valid_table(c, m),
        ensures
            r.wf(),
            r@ == self.native(),
            r@ == 1 <==> self.0 >= self.1,
    {
        let log_m: usize = log2_ceil(m);
        let vals: Vec<Fe> = self.subtable_lookups(c, log_m);
        proof {
            lemma_combine_sound(vals@, self.0, self.1, c as nat, (log_m / 2) as nat);
        }
        self.combine_lookups(vals.as_slice(), c, m)
    }
}

/// Checks a table size against a number of chunks, once, at setup.
pub fn check_table(c: usize, m: usize) -> (r: Result<(), ConfigError>)
    ensures
        r.is_ok() <==> BGEUInstruction::valid_table(c, m),
        r == Err::<(), ConfigError>(ConfigError::SliceWidth) <==> !(1 <= ceil_log2(m as nat) / 2
            <= 16),
        r == Err::<(), ConfigError>(ConfigError::Coverage) <==> (1 <= ceil_log2(m as nat) / 2 <= 16
            && c * (ceil_log2(m as nat) / 2) != 64),
        r == Err::<(), ConfigError>(ConfigError::TableSize) <==> (valid_config(
            c,
            ceil_log2(m as nat) as usize,
        ) && pow2(2 * (ceil_log2(m as nat) / 2)) > m),
{
    let log_m: usize = log2_ceil(m);
    match check_config(c, log_m) {
        Err(e) => Err(e),
        Ok(()) => {
            let w: usize = log_m / 2;
            let size: u64 = pow2_u64(2 * w);
            if size <= m as u64 {
                Ok(())
            } else {
                Err(ConfigError::TableSize)
            }
        },
    }
}

/// The strict comparison's combiner is sound: on the genuine entries for
/// `(x, y)` it gives one where `x < y` and zero elsewhere.
pub proof fn lemma_sltu_sound(vals: Seq<Fe>, x: u64, y: u64, c: nat, w: nat)
    requires
        genuine_lookups(vals, x, y, c, w),
        c * w == 64,
    ensures
        SLTUInstruction::combine_spec(vals, c) == indicator(x < y),
{
    let lt = lt_vals(vals, c);
    let eq = eq_vals(vals, c);
    assert forall|i: int| 0 <= i < c implies #[trigger] lt[i] == indicator(
        slice_of(x as nat, (c - 1 - i) as nat, w) < slice_of(y as nat, (c - 1 - i) as nat, w),
    ) by {
        lemma_chunk_halves(x, y, c, w, i as nat);
        assert(vals[i]@ == ltu_entry(chunk_index(x, y, c, w, i as nat), w));
    }
    assert forall|i: int| 0 <= i < c implies #[trigger] eq[i] == indicator(
        slice_of(x as nat, (c - 1 - i) as nat, w) == slice_of(y as nat, (c - 1 - i) as nat, w),
    ) by {
        lemma_chunk_halves(x, y, c, w, i as nat);
        assert(vals[c + i]@ == eq_entry(chunk_index(x, y, c, w, i as nat), w));
    }
    lemma2_to64();
    lemma2_to64_rest();
    lemma_slicewise_compare(lt, eq, x as nat, y as nat, c, w);
}

/// The combiner is sound: on the genuine entries for `(x, y)` it gives the
/// instruction's native output, one where `x >= y` and zero elsewhere. In
/// particular it gives one wherever `x == y`.
pub proof fn lemma_combine_sound(vals: Seq<Fe>, x: u64, y: u64, c: nat, w: nat)
    requires
        genuine_lookups(vals, x, y, c, w),
        c * w == 64,
    ensures
        BGEUInstruction::combine_spec(vals, c) == BGEUInstruction(x, y).native(),
        BGEUInstruction::combine_spec(vals, c) == 1 <==> x >= y,
        x == y ==> BGEUInstruction::combine_spec(vals, c) == 1,
{
    lemma_sltu_sound(vals, x, y, c, w);
    lemma_small_residues();
}

} // verus!
