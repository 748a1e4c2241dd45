//! Comparing two numbers slice by slice, from the most significant slice
//! down, with sums and products in the field.

use vstd::prelude::*;
use vstd::arithmetic::power2::*;
use vstd::arithmetic::div_mod::*;
use crate::field::{add_mod, sub_mod, mul_mod, modulus};
use crate::chunk::slice_of;

verus! {

/// One for `true`, zero for `false`.
pub open spec fn indicator(b: bool) -> nat {
    if b {
        1
    } else {
        0
    }
}

/// The product of the first `n` values of `eq`.
pub open spec fn eq_prod(eq: Seq<nat>, n: nat) -> nat
    decreases n,
{
    if n == 0 {
        1
    } else {
        mul_mod(eq_prod(eq, (n - 1) as nat), eq[n - 1])
    }
}

/// The sum, over the first `n` positions, of the position's value in `lt`
/// times the values of `eq` at all positions before it.
pub open spec fn ltu_sum(lt: Seq<nat>, eq: Seq<nat>, n: nat) -> nat
    decreases n,
{
    if n == 0 {
        0
    } else {
        add_mod(ltu_sum(lt, eq, (n - 1) as nat), mul_mod(lt[n - 1], eq_prod(eq, (n - 1) as nat)))
    }
}

/// What is left of `x` when its `k` lowest slices of `w` bits are dropped.
pub open spec fn prefix_of(x: nat, k: nat, w: nat) -> nat {
    x / pow2(k * w)
}

/// `lt` and `eq` compare `x` and `y` slice by slice: position `i`, counted
/// from the most significant of `c` slices of `w` bits, holds one in `lt`
/// where the slice of `x` is below that of `y`, and one in `eq` where the two
/// slices are equal.
pub open spec fn slicewise(lt: Seq<nat>, eq: Seq<nat>, x: nat, y: nat, c: nat, w: nat) -> bool {
    &&& lt.len() == c
    &&& eq.len() == c
    &&& forall|i: int|
        0 <= i < c ==> #[trigger] lt[i] == indicator(
            slice_of(x, (c - 1 - i) as nat, w) < slice_of(y, (c - 1 - i) as nat, w),
        )
    &&& forall|i: int|
        0 <= i < c ==> #[trigger] eq[i] == indicator(
            slice_of(x, (c - 1 - i) as nat, w) == slice_of(y, (c - 1 - i) as nat, w),
        )
}

/// Zero and one are their own residues, and one minus each is the other.
pub proof fn lemma_small_residues()
    ensures
        sub_mod(1, 0) == 1,
        sub_mod(1, 1) == 0,
        mul_mod(0, 0) == 0,
        mul_mod(0, 1) == 0,
        mul_mod(1, 0) == 0,
        mul_mod(1, 1) == 1,
        add_mod(0, 0) == 0,
        add_mod(0, 1) == 1,
        add_mod(1, 0) == 1,
{
    lemma_small_mod(0, modulus());
    lemma_small_mod(1, modulus());
    lemma_mod_self_0(modulus() as int);
    lemma_mod_multiples_vanish(1, 1, modulus() as int);
}

/// A prefix is the next shorter prefix, shifted, plus one slice.
pub proof fn lemma_prefix_step(x: nat, k: nat, w: nat)
    ensures
        prefix_of(x, k, w) == prefix_of(x, k + 1, w) * pow2(w) + slice_of(x, k, w),
        slice_of(x, k, w) < pow2(w),
{
    let d = pow2(k * w);
    let b = pow2(w);
    lemma_pow2_pos(k * w);
    lemma_pow2_pos(w);
    assert((k + 1) * w == k * w + w) by (nonlinear_arith);
    lemma_pow2_adds(k * w, w);
    lemma_div_denominator(x as int, d as int, b as int);
    lemma_fundamental_div_mod((x / d) as int, b as int);
    lemma_mod_bound((x / d) as int, b as int);
    assert(b * ((x / d) / b) == ((x / d) / b) * b) by (nonlinear_arith);
}

/// Two numbers with low parts below `b` are equal when their high parts and
/// their low parts are; the first is below the second when its high part is
/// below, or the high parts are equal and its low part is below.
pub proof fn lemma_compare_step(xh: nat, yh: nat, xl: nat, yl: nat, b: nat)
    requires
        xl < b,
        yl < b,
    ensures
        (xh * b + xl == yh * b + yl) <==> (xh == yh && xl == yl),
        (xh * b + xl < yh * b + yl) <==> (xh < yh || (xh == yh && xl < yl)),
{
    if xh < yh {
        assert(xh * b + b <= yh * b) by (nonlinear_arith)
            requires
                xh < yh,
        ;
    } else if yh < xh {
        assert(yh * b + b <= xh * b) by (nonlinear_arith)
            requires
                yh < xh,
        ;
    }
}

/// After `n` positions the product says whether `x` and `y` agree on their
/// `n` highest slices, and the sum says whether `x` is below `y` on them.
pub proof fn lemma_prefix_compare(lt: Seq<nat>, eq: Seq<nat>, x: nat, y: nat, c: nat, w: nat, n: nat)
    requires
        slicewise(lt, eq, x, y, c, w),
        n <= c,
        x < pow2(c * w),
        y < pow2(c * w),
    ensures
        eq_prod(eq, n) == indicator(
            prefix_of(x, (c - n) as nat, w) == prefix_of(y, (c - n) as nat, w),
        ),
        ltu_sum(lt, eq, n) == indicator(
            prefix_of(x, (c - n) as nat, w) < prefix_of(y, (c - n) as nat, w),
        ),
    decreases n,
{
    if n == 0 {
        lemma_basic_div(x as int, pow2(c * w) as int);
        lemma_basic_div(y as int, pow2(c * w) as int);
    } else {
        let i = (n - 1) as nat;
        let k = (c - n) as nat;
        lemma_prefix_compare(lt, eq, x, y, c, w, i);
        assert((c - i) as nat == k + 1);
        assert((c - 1 - i) as nat == k);
        lemma_prefix_step(x, k, w);
        lemma_prefix_step(y, k, w);
        lemma_compare_step(
            prefix_of(x, k + 1, w),
            prefix_of(y, k + 1, w),
            slice_of(x, k, w),
            slice_of(y, k, w),
            pow2(w),
        );
        assert(lt[i as int] == indicator(slice_of(x, k, w) < slice_of(y, k, w)));
        assert(eq[i as int] == indicator(slice_of(x, k, w) == slice_of(y, k, w)));
        lemma_small_residues();
    }
}

/// Over all `c` slices the product says whether `x == y`, and the sum says
/// whether `x < y`.
pub proof fn lemma_slicewise_compare(lt: Seq<nat>, eq: Seq<nat>, x: nat, y: nat, c: nat, w: nat)
    requires
        slicewise(lt, eq, x, y, c, w),
        x < pow2(c * w),
        y < pow2(c * w),
    ensures
        eq_prod(eq, c) == indicator(x == y),
        ltu_sum(lt, eq, c) == indicator(x < y),
{
    lemma_prefix_compare(lt, eq, x, y, c, w, c);
    lemma2_to64();
    assert(0nat * w == 0) by (nonlinear_arith);
    assert((c - c) as nat == 0nat);
    assert(pow2(0nat * w) == 1);
    assert(prefix_of(x, 0, w) == x / 1);
    assert(prefix_of(y, 0, w) == y / 1);
}

} // verus!
