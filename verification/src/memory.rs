//! The four accumulated products of one read-only memory, built from a trace
//! of lookups, and the balance that an honest trace always has.

use vstd::prelude::*;
use crate::field::{Fe, mul_mod, all_wf, lemma_mul_mod_laws};
use crate::fingerprint::{hash_spec, hash_tuple, GPEvals};

verus! {

/// Every address of the trace lies inside a memory of `m` cells.
pub open spec fn trace_in_range(ops: Seq<usize>, m: nat) -> bool {
    forall|j: int| 0 <= j < ops.len() ==> #[trigger] ops[j] < m
}

/// How often the first `n` lookups of the trace read the cell `a`.
pub open spec fn count_before(ops: Seq<usize>, a: nat, n: nat) -> nat
    decreases n,
{
    if n == 0 {
        0
    } else {
        count_before(ops, a, (n - 1) as nat) + if ops[n - 1] == a {
            1nat
        } else {
            0nat
        }
    }
}

/// The grand-product factor of the cell `a` with the timestamp `t`.
pub open spec fn cell_hash(table: Seq<Fe>, a: nat, t: nat, r: nat, s: nat) -> nat {
    hash_spec(a, table[a as int]@, t, r, s)
}

/// The product over the first `n` lookups of the factor of what each read:
/// the cell, its value, and the number of earlier reads of the cell.
pub open spec fn read_prod(table: Seq<Fe>, ops: Seq<usize>, n: nat, r: nat, s: nat) -> nat
    decreases n,
{
    if n == 0 {
        1
    } else {
        mul_mod(
            read_prod(table, ops, (n - 1) as nat, r, s),
            cell_hash(
                table,
                ops[n - 1] as nat,
                count_before(ops, ops[n - 1] as nat, (n - 1) as nat),
                r,
                s,
            ),
        )
    }
}

/// The product over the first `n` lookups of the factor of what each wrote
/// back: the cell, its value, and the read's timestamp plus one.
pub open spec fn write_prod(table: Seq<Fe>, ops: Seq<usize>, n: nat, r: nat, s: nat) -> nat
    decreases n,
{
    if n == 0 {
        1
    } else {
        mul_mod(
            write_prod(table, ops, (n - 1) as nat, r, s),
            cell_hash(
                table,
                ops[n - 1] as nat,
                count_before(ops, ops[n - 1] as nat, (n - 1) as nat) + 1,
                r,
                s,
            ),
        )
    }
}

/// The product over the first `m` cells of the factor of the cell as it
/// stands after `n` lookups. With `n == 0` these are the initial contents,
/// with `n` the length of the trace the final ones.
pub open spec fn cells_prod(table: Seq<Fe>, ops: Seq<usize>, n: nat, m: nat, r: nat, s: nat) -> nat
    decreases m,
{
    if m == 0 {
        1
    } else {
        mul_mod(
            cells_prod(table, ops, n, (m - 1) as nat, r, s),
            cell_hash(table, (m - 1) as nat, count_before(ops, (m - 1) as nat, n), r, s),
        )
    }
}

/// A cell was read at most once per lookup.
pub proof fn lemma_count_bound(ops: Seq<usize>, a: nat, n: nat)
    ensures
        count_before(ops, a, n) <= n,
    decreases n,
{
    if n > 0 {
        lemma_count_bound(ops, a, (n - 1) as nat);
    }
}

/// A lookup of a cell at or above `m` leaves the first `m` cells as they are.
pub proof fn lemma_cells_unchanged(table: Seq<Fe>, ops: Seq<usize>, n: nat, m: nat, r: nat, s: nat)
    requires
        n < ops.len(),
        ops[n as int] >= m,
    ensures
        cells_prod(table, ops, n + 1, m, r, s) == cells_prod(table, ops, n, m, r, s),
    decreases m,
{
    if m > 0 {
        lemma_cells_unchanged(table, ops, n, (m - 1) as nat, r, s);
        assert(count_before(ops, (m - 1) as nat, n + 1) == count_before(ops, (m - 1) as nat, n));
    }
}

/// A lookup of the cell `a` trades, in the product over the cells, the
/// factor with the cell's old timestamp for the factor with the next.
pub proof fn lemma_cells_step(table: Seq<Fe>, ops: Seq<usize>, n: nat, m: nat, r: nat, s: nat)
    requires
        n < ops.len(),
        ops[n as int] < m,
    ensures
        mul_mod(
            cells_prod(table, ops, n + 1, m, r, s),
            cell_hash(table, ops[n as int] as nat, count_before(ops, ops[n as int] as nat, n), r, s),
        ) == mul_mod(
            cells_prod(table, ops, n, m, r, s),
            cell_hash(
                table,
                ops[n as int] as nat,
                count_before(ops, ops[n as int] as nat, n) + 1,
                r,
                s,
            ),
        ),
    decreases m,
{
    let a = ops[n as int] as nat;
    let t = count_before(ops, a, n);
    let h = cell_hash(table, a, t, r, s);
    let h1 = cell_hash(table, a, t + 1, r, s);
    let last = (m - 1) as nat;
    let below = cells_prod(table, ops, n, last, r, s);
    let below1 = cells_prod(table, ops, n + 1, last, r, s);
    if last == a {
        lemma_cells_unchanged(table, ops, n, last, r, s);
        assert(count_before(ops, a, n + 1) == t + 1);
        lemma_mul_mod_laws(below, h1, h);
    } else {
        lemma_cells_step(table, ops, n, last, r, s);
        assert(count_before(ops, last, n + 1) == count_before(ops, last, n));
        let c = cell_hash(table, last, count_before(ops, last, n), r, s);
        lemma_mul_mod_laws(below1, c, h);
        lemma_mul_mod_laws(below, h1, c);
    }
}

/// After any number of lookups of an honest trace, the initial contents
/// together with the writes weigh as much as the reads together with the
/// contents as they then stand.
pub proof fn lemma_trace_balance(table: Seq<Fe>, ops: Seq<usize>, n: nat, r: nat, s: nat)
    requires
        n <= ops.len(),
        trace_in_range(ops, table.len()),
    ensures
        mul_mod(cells_prod(table, ops, 0, table.len(), r, s), write_prod(table, ops, n, r, s))
            == mul_mod(
            read_prod(table, ops, n, r, s),
            cells_prod(table, ops, n, table.len(), r, s),
        ),
    decreases n,
{
    let m = table.len();
    let init = cells_prod(table, ops, 0, m, r, s);
    if n == 0 {
        lemma_mul_mod_laws(init, 1, 1);
    } else {
        let k = (n - 1) as nat;
        lemma_trace_balance(table, ops, k, r, s);
        lemma_cells_step(table, ops, k, m, r, s);
        let a = ops[k as int] as nat;
        let t = count_before(ops, a, k);
        let h = cell_hash(table, a, t, r, s);
        let h1 = cell_hash(table, a, t + 1, r, s);
        let w = write_prod(table, ops, k, r, s);
        let rd = read_prod(table, ops, k, r, s);
        let f = cells_prod(table, ops, k, m, r, s);
        let f1 = cells_prod(table, ops, n, m, r, s);
        lemma_mul_mod_laws(init, w, h1);
        lemma_mul_mod_laws(rd, f, h1);
        lemma_mul_mod_laws(rd, f1, h);
    }
}

/// The four products of a memory with the contents `table` after the
/// lookups `ops`, each lookup reading one cell and writing it back with the
/// next timestamp. They always balance.
pub fn memory_products(table: &[Fe], ops: &[usize], r_hash: &Fe, r_multiset_check: &Fe) -> (g:
    GPEvals)
    requires
        all_wf(table@),
        trace_in_range(ops@, table@.len() as nat),
        r_hash.wf(),
        r_multiset_check.wf(),
    ensures
        g.wf(),
        g.hash_init@ == cells_prod(table@, ops@, 0, table@.len() as nat, r_hash@, r_multiset_check@),
        g.hash_read@ == read_prod(table@, ops@, ops@.len() as nat, r_hash@, r_multiset_check@),
        g.hash_write@ == write_prod(table@, ops@, ops@.len() as nat, r_hash@, r_multiset_check@),
        g.hash_final@ == cells_prod(
            table@,
            ops@,
            ops@.len() as nat,
            table@.len() as nat,
            r_hash@,
            r_multiset_check@,
        ),
        g.balanced(),
{
    let m: usize = table.len();
    let ghost r: nat = r_hash@;
    let ghost s: nat = r_multiset_check@;
    let zero: Fe = Fe::zero();
    let mut counters: Vec<usize> = Vec::new();
    let mut init: Fe = Fe::one();
    let mut a: usize = 0;
    while a < m
        invariant
            a <= m,
            m == table@.len(),
            all_wf(table@),
            r_hash.wf(),
            r_multiset_check.wf(),
            r == r_hash@,
            s == r_multiset_check@,
            zero.wf(),
            zero@ == 0,
            init.wf(),
            init@ == cells_prod(table@, ops@, 0, a as nat, r, s),
            counters@.len() == a,
            forall|c: int| 0 <= c < a ==> #[trigger] counters@[c] == 0,
        decreases m - a,
    {
        let h: Fe = hash_tuple(&Fe::from_u64(a as u64), &table[a], &zero, r_hash, r_multiset_check);
        init = init.mul(&h);
        counters.push(0);
        a = a + 1;
    }
    let mut read: Fe = Fe::one();
    let mut write: Fe = Fe::one();
    let mut j: usize = 0;
    while j < ops.len()
        invariant
            j <= ops@.len(),
            m == table@.len(),
            all_wf(table@),
            trace_in_range(ops@, m as nat),
            r_hash.wf(),
            r_multiset_check.wf(),
            r == r_hash@,
            s == r_multiset_check@,
            read.wf(),
            write.wf(),
            read@ == read_prod(table@, ops@, j as nat, r, s),
            write@ == write_prod(table@, ops@, j as nat, r, s),
            counters@.len() == m,
            forall|c: int| 0 <= c < m ==> #[trigger] counters@[c] == count_before(ops@, c as nat, j as nat),
        decreases ops@.len() - j,
    {
        let cell: usize = ops[j];
        let t: usize = counters[cell];
        proof {
            lemma_count_bound(ops@, cell as nat, j as nat);
        }
        let addr: Fe = Fe::from_u64(cell as u64);
        let hr: Fe = hash_tuple(&addr, &table[cell], &Fe::from_u64(t as u64), r_hash, r_multiset_check);
        let hw: Fe = hash_tuple(
            &addr,
            &table[cell],
            &Fe::from_u64((t + 1) as u64),
            r_hash,
            r_multiset_check,
        );
        read = read.mul(&hr);
        write = write.mul(&hw);
        counters.set(cell, t + 1);
        j = j + 1;
    }
    let mut fin: Fe = Fe::one();
    let mut b: usize = 0;
    while b < m
        invariant
            b <= m,
            m == table@.len(),
            all_wf(table@),
            r_hash.wf(),
            r_multiset_check.wf(),
            r == r_hash@,
            s == r_multiset_check@,
            fin.wf(),
            fin@ == cells_prod(table@, ops@, ops@.len() as nat, b as nat, r, s),
            counters@.len() == m,
            forall|c: int|
                0 <= c < m ==> #[trigger] counters@[c] == count_before(
                    ops@,
                    c as nat,
                    ops@.len() as nat,
                ),
        decreases m - b,
    {
        let h: Fe = hash_tuple(
            &Fe::from_u64(b as u64),
            &table[b],
            &Fe::from_u64(counters[b] as u64),
            r_hash,
            r_multiset_check,
        );
        fin = fin.mul(&h);
        b = b + 1;
    }
    proof {
        lemma_trace_balance(table@, ops@, ops@.len() as nat, r, s);
    }
    GPEvals { hash_init: init, hash_read: read, hash_write: write, hash_final: fin }
}

} // verus!
