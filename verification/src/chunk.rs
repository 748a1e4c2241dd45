//! The operand chunker: two 64-bit operands are cut into aligned slices, and
//! each pair of slices is packed into one table index.

use vstd::prelude::*;
use vstd::arithmetic::power2::*;

verus! {

/// Slice number `k` of `x`, counted from the least significant, `w` bits wide.
pub open spec fn slice_of(x: nat, k: nat, w: nat) -> nat {
    (x / pow2(k * w)) % pow2(w)
}

/// The table index of chunk `i` (the most significant is chunk 0) of `c`
/// chunks: the slice of `x` above the slice of `y`.
pub open spec fn chunk_index(x: u64, y: u64, c: nat, w: nat, i: nat) -> nat {
    slice_of(x as nat, (c - 1 - i) as nat, w) * pow2(w) + slice_of(y as nat, (c - 1 - i) as nat, w)
}

/// `c` slices of `log_m / 2` bits cover a 64-bit operand exactly, and a table
/// index fits a machine word.
pub open spec fn valid_config(c: usize, log_m: usize) -> bool {
    &&& 1 <= log_m / 2 <= 16
    &&& c * (log_m / 2) == 64
}

/// Why a configuration is refused.
#[derive(Clone, Copy, Debug, PartialEq, Eq)]
pub enum ConfigError {
    /// The slice width is zero, or too wide for a table index.
    SliceWidth,
    /// The slices do not cover the 64 bits of an operand exactly.
    Coverage,
    /// The table is too small for the indices that two slices make.
    TableSize,
}

/// Checks a configuration once, at setup.
pub fn check_config(c: usize, log_m: usize) -> (r: Result<(), ConfigError>)
    ensures
        r.is_ok() <==> valid_config(c, log_m),
        r == Err::<(), ConfigError>(ConfigError::SliceWidth) <==> !(1 <= log_m / 2 <= 16),
        r == Err::<(), ConfigError>(ConfigError::Coverage) <==> (1 <= log_m / 2 <= 16 && c * (log_m
            / 2) != 64),
{
    let w: usize = log_m / 2;
    if w < 1 || w > 16 {
        return Err(ConfigError::SliceWidth);
    }
    if c > 64 {
        assert(c * w != 64) by (nonlinear_arith)
            requires
                c > 64,
                w >= 1,
        ;
        return Err(ConfigError::Coverage);
    }
    assert(c * w <= 64 * 16) by (nonlinear_arith)
        requires
            c <= 64,
            w <= 16,
    ;
    if c * w != 64 {
        return Err(ConfigError::Coverage);
    }
    Ok(())
}

/// Two to the power `e`.
pub fn pow2_u64(e: usize) -> (r: u64)
    requires
        e < 64,
    ensures
        r == pow2(e as nat),
{
    let mut r: u64 = 1;
    let mut j: usize = 0;
    proof {
        lemma2_to64();
    }
    while j < e
        invariant
            j <= e,
            e < 64,
            r == pow2(j as nat),
        decreases e - j,
    {
        proof {
            lemma_pow2_unfold((j + 1) as nat);
            lemma_pow2_strictly_increases((j + 1) as nat, 64);
            lemma2_to64_rest();
        }
        r = r * 2;
        j = j + 1;
    }
    r
}

/// Cuts `x` and `y` into `c` slices of `log_m / 2` bits and packs each pair
/// into one index, the most significant chunk first.
pub fn chunk_and_concatenate_operands(x: u64, y: u64, c: usize, log_m: usize) -> (r: Vec<usize>)
    requires
        valid_config(c, log_m),
    ensures
        r@.len() == c,
        forall|i: int|
            0 <= i < c ==> r@[i] as nat == #[trigger] chunk_index(
                x,
                y,
                c as nat,
                (log_m / 2) as nat,
                i as nat,
            ),
        forall|i: int| 0 <= i < c ==> #[trigger] r@[i] < pow2(2 * ((log_m / 2) as nat)),
{
    let w: usize = log_m / 2;
    assert(c <= 64 && c >= 4) by (nonlinear_arith)
        requires
            c * w == 64,
            1 <= w <= 16,
    ;
    let base: u64 = pow2_u64(w);
    proof {
        lemma2_to64();
        if w < 16 {
            lemma_pow2_strictly_increases(w as nat, 16);
        }
    }
    let mut r: Vec<usize> = Vec::new();
    let mut i: usize = 0;
    while i < c
        invariant
            i <= c,
            c <= 64,
            1 <= w <= 16,
            c * w == 64,
            base == pow2(w as nat),
            base <= 0x10000,
            r@.len() == i,
            forall|j: int| 0 <= j < i ==> #[trigger] r@[j] < pow2(2 * (w as nat)),
            forall|j: int|
                0 <= j < i ==> r@[j] as nat == #[trigger] chunk_index(
                    x,
                    y,
                    c as nat,
                    w as nat,
                    j as nat,
                ),
        decreases c - i,
    {
        let k: usize = c - 1 - i;
        assert(k * w < 64) by (nonlinear_arith)
            requires
                c * w == 64,
                k < c,
                w >= 1,
        ;
        let d: u64 = pow2_u64(k * w);
        proof {
            lemma_pow2_pos((k * w) as nat);
            lemma_pow2_pos(w as nat);
        }
        let sx: u64 = (x / d) % base;
        let sy: u64 = (y / d) % base;
        assert(sx * base + sy < 0x1_0000_0000) by (nonlinear_arith)
            requires
                sx < base,
                sy < base,
                base <= 0x10000,
        ;
        let idx: u64 = sx * base + sy;
        proof {
            lemma_pow2_adds(w as nat, w as nat);
            assert(sx * base + sy < base * base) by (nonlinear_arith)
                requires
                    sx < base,
                    sy < base,
            ;
        }
        r.push(idx as usize);
        i = i + 1;
    }
    r
}

} // verus!
