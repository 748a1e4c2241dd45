//! The degree of the comparison combiner: along every line through the
//! origin it is a polynomial whose degree the declared bound covers.

use vstd::prelude::*;
use vstd::arithmetic::div_mod::lemma_small_mod;
use crate::field::{
    Fe, add_mod, sub_mod, mul_mod, modulus, lemma_mul_mod_laws, lemma_mul_mod_exchange,
};
use crate::compare::{eq_prod, ltu_sum, lemma_small_residues};
use crate::instruction::{lt_vals, eq_vals, BGEUInstruction, SLTUInstruction};

verus! {

/// `t` to the power `k`, in the field.
pub open spec fn pow_mod(t: nat, k: nat) -> nat
    decreases k,
{
    if k == 0 {
        1
    } else {
        mul_mod(pow_mod(t, (k - 1) as nat), t)
    }
}

/// The value at `t` of the polynomial made of the first `n` coefficients of
/// `coeffs`, the constant one first.
pub open spec fn poly_eval(coeffs: Seq<nat>, t: nat, n: nat) -> nat
    decreases n,
{
    if n == 0 {
        0
    } else {
        add_mod(
            poly_eval(coeffs, t, (n - 1) as nat),
            mul_mod(coeffs[n - 1], pow_mod(t, (n - 1) as nat)),
        )
    }
}

/// Every value of `scaled` is `t` times the value of `vals` at its place.
pub open spec fn scaled_by(scaled: Seq<Fe>, vals: Seq<Fe>, t: nat) -> bool {
    &&& scaled.len() == vals.len()
    &&& forall|i: int| 0 <= i < vals.len() ==> (#[trigger] scaled[i])@ == mul_mod(t, vals[i]@)
}

/// The coefficients of the strict comparison's combiner along the line
/// through `vals`: none of degree zero, and of degree `k` chunk `k - 1`'s
/// less-than value times the equality values of the chunks before it.
pub open spec fn line_coeffs(vals: Seq<Fe>, c: nat) -> Seq<nat> {
    Seq::new(
        c + 1,
        |k: int|
            if k == 0 {
                0
            } else {
                mul_mod(lt_vals(vals, c)[k - 1], eq_prod(eq_vals(vals, c), (k - 1) as nat))
            },
    )
}

/// The product of `n` scaled equality values is the product of the values
/// themselves, times `t` to the power `n`.
pub proof fn lemma_scaled_eq_prod(scaled: Seq<Fe>, vals: Seq<Fe>, t: nat, c: nat, n: nat)
    requires
        vals.len() == 2 * c,
        scaled_by(scaled, vals, t),
        n <= c,
    ensures
        eq_prod(eq_vals(scaled, c), n) == mul_mod(pow_mod(t, n), eq_prod(eq_vals(vals, c), n)),
    decreases n,
{
    if n == 0 {
        lemma_small_residues();
    } else {
        let k = (n - 1) as nat;
        lemma_scaled_eq_prod(scaled, vals, t, c, k);
        let e = vals[(c + k) as int]@;
        assert(scaled[(c + k) as int]@ == mul_mod(t, e));
        lemma_mul_mod_exchange(pow_mod(t, k), eq_prod(eq_vals(vals, c), k), t, e);
    }
}

/// On scaled values the strict comparison's sum over `n` chunks is the
/// polynomial with the line's first `n + 1` coefficients.
pub proof fn lemma_scaled_ltu_sum(scaled: Seq<Fe>, vals: Seq<Fe>, t: nat, c: nat, n: nat)
    requires
        vals.len() == 2 * c,
        scaled_by(scaled, vals, t),
        n <= c,
    ensures
        ltu_sum(lt_vals(scaled, c), eq_vals(scaled, c), n) == poly_eval(
            line_coeffs(vals, c),
            t,
            n + 1,
        ),
    decreases n,
{
    let coeffs = line_coeffs(vals, c);
    if n == 0 {
        assert(poly_eval(coeffs, t, 0) == 0);
        assert(coeffs[0] == 0);
        lemma_small_mod(0, modulus());
    } else {
        let k = (n - 1) as nat;
        lemma_scaled_ltu_sum(scaled, vals, t, c, k);
        lemma_scaled_eq_prod(scaled, vals, t, c, k);
        let l = vals[k as int]@;
        let big_e = eq_prod(eq_vals(vals, c), k);
        assert(scaled[k as int]@ == mul_mod(t, l));
        assert(coeffs[n as int] == mul_mod(l, big_e));
        lemma_mul_mod_laws(t, l, 1);
        lemma_mul_mod_laws(big_e, pow_mod(t, k), 1);
        lemma_mul_mod_exchange(l, t, big_e, pow_mod(t, k));
        lemma_mul_mod_laws(pow_mod(t, k), t, 1);
    }
}

/// The declared degree covers the combiner: when all `2 * c` inputs are
/// scaled by `t`, the strict comparison's combiner is a polynomial in `t`
/// with `c + 1` coefficients that do not depend on `t`, so of degree at most
/// `c`, and the combiner of "greater or equal" is one minus that polynomial.
pub proof fn lemma_degree_bound(scaled: Seq<Fe>, vals: Seq<Fe>, t: nat, c: nat)
    requires
        vals.len() == 2 * c,
        scaled_by(scaled, vals, t),
    ensures
        line_coeffs(vals, c).len() == c + 1,
        SLTUInstruction::combine_spec(scaled, c) == poly_eval(line_coeffs(vals, c), t, c + 1),
        BGEUInstruction::combine_spec(scaled, c) == sub_mod(
            1,
            poly_eval(line_coeffs(vals, c), t, c + 1),
        ),
{
    lemma_scaled_ltu_sum(scaled, vals, t, c, c);
}

} // verus!
