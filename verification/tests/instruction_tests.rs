use ark_curve25519::Fr;
use ark_ff::{BigInt, PrimeField};
use ark_std::rand::{RngCore, SeedableRng};
use ark_std::{test_rng, One, Zero};
use jolt_core::chunk::{check_config, chunk_and_concatenate_operands, pow2_u64, ConfigError};
use jolt_core::field::Fe;
use jolt_core::instruction::{check_table, BGEUInstruction, SLTUInstruction};
use jolt_core::subtable::{index_to_point, push_bits, SubtableKind};
use jolt_core::instruction::push_entries;
use rand::rngs::StdRng;

fn to_fr(e: Fe) -> Fr {
    Fr::from_bigint(BigInt::new(e.limbs())).unwrap()
}

fn from_fr(f: Fr) -> Vec<u64> {
    f.into_bigint().0.to_vec()
}

fn combine_through_tables(instr: BGEUInstruction, tables: &[Vec<Fe>], c: usize, m: usize) -> Fe {
    let indices = instr.to_indices(c, ark_std::log2(m) as usize);
    let mut vals = vec![];
    for table in tables {
        for index in &indices {
            vals.push(table[*index]);
        }
    }
    instr.combine_lookups(&vals, c, m)
}

#[test]
fn bgeu_instruction_e2e() {
    let mut rng = test_rng();
    const C: usize = 8;
    const M: usize = 1 << 16;
    let tables: Vec<Vec<Fe>> = BGEUInstruction(0, 0)
        .subtables(C)
        .iter()
        .map(|kind| kind.materialize(M))
        .collect();

    for _ in 0..256 {
        let (x, y) = (rng.next_u64(), rng.next_u64());
        let expected: Fr = (x >= y).into();
        assert_eq!(to_fr(combine_through_tables(BGEUInstruction(x, y), &tables, C, M)), expected);
        assert_eq!(to_fr(BGEUInstruction(x, y).lookup_entry(C, M)), expected);
    }
    for _ in 0..256 {
        let x = rng.next_u64();
        assert_eq!(to_fr(combine_through_tables(BGEUInstruction(x, x), &tables, C, M)), Fr::one());
        assert_eq!(to_fr(BGEUInstruction(x, x).lookup_entry(C, M)), Fr::one());
    }
}

#[test]
fn bgeu_boundary_pairs() {
    let pairs: [(u64, u64, u64); 8] = [
        (0, 0, 1),
        (0, 1, 0),
        (1, 0, 1),
        (u64::MAX, u64::MAX, 1),
        (u64::MAX, 0, 1),
        (0, u64::MAX, 0),
        (u64::MAX - 1, u64::MAX, 0),
        (0x0100_0000_0000_0000, 0x00ff_ffff_ffff_ffff, 1),
    ];
    for (x, y, want) in pairs {
        assert_eq!(BGEUInstruction(x, y).lookup_entry(8, 1 << 16), Fe::from_u64(want));
        assert_eq!(BGEUInstruction(x, y).lookup_entry(16, 1 << 8), Fe::from_u64(want));
        assert_eq!(BGEUInstruction(x, y).lookup_entry(4, 1 << 32), Fe::from_u64(want));
        assert_eq!(BGEUInstruction(x, y).lookup_entry(64, 1 << 2), Fe::from_u64(want));
    }
}

#[test]
fn sltu_combiner_is_strict() {
    let c: usize = 8;
    let m: usize = 1 << 16;
    for (x, y, want) in [(3u64, 4u64, 1u64), (4, 3, 0), (7, 7, 0), (u64::MAX, 0, 0)] {
        let vals = BGEUInstruction(x, y).subtable_lookups(c, 16);
        assert_eq!(vals.len(), 2 * c);
        assert_eq!(SLTUInstruction(x, y).combine_lookups(&vals, c, m), Fe::from_u64(want));
    }
}

#[test]
fn combiner_on_arbitrary_values() {
    // two chunks: ltu = [2, 3], eq = [5, 7]: 2 + 3 * 5 = 17, and 1 - 17 in the field
    let vals: Vec<Fe> = [2u64, 3, 5, 7].iter().map(|v| Fe::from_u64(*v)).collect();
    let lt = SLTUInstruction(0, 0).combine_lookups(&vals, 2, 4);
    assert_eq!(lt, Fe::from_u64(17));
    let ge = BGEUInstruction(0, 0).combine_lookups(&vals, 2, 4);
    assert_eq!(to_fr(ge), Fr::one() - Fr::from(17u64));
}

#[test]
fn operands_degree_and_subtables() {
    let i = BGEUInstruction(11, 22);
    assert_eq!(i.operands(), [11, 22]);
    assert_eq!(i.g_poly_degree(8), 8);
    assert_eq!(i.g_poly_degree(0), 0);
    assert_eq!(i.subtables(8), vec![SubtableKind::Ltu, SubtableKind::Eq]);
    let d = BGEUInstruction::default();
    assert_eq!(d.operands(), [0, 0]);
}

#[test]
fn combiner_degree_is_within_bound() {
    // Along the line t -> t * vals the combiner is a polynomial in t whose
    // degree the bound must cover: its finite difference of order bound + 1
    // vanishes.
    for c in 1usize..=4 {
        let bound = BGEUInstruction(0, 0).g_poly_degree(c);
        let base: Vec<u64> = (0..2 * c as u64).map(|k| 3 * k + 2).collect();
        let mut samples: Vec<Fr> = (0..=(bound as u64 + 1))
            .map(|t| {
                let vals: Vec<Fe> = base.iter().map(|b| Fe::from_u64(t * b)).collect();
                to_fr(BGEUInstruction(0, 0).combine_lookups(&vals, c, 1 << 16))
            })
            .collect();
        for _ in 0..=bound {
            samples = samples.windows(2).map(|p| p[1] - p[0]).collect();
        }
        assert_eq!(samples.len(), 1);
        assert_eq!(samples[0], Fr::zero());
    }
}

#[test]
fn chunker_packs_slices_most_significant_first() {
    let x: u64 = 0x0123_4567_89ab_cdef;
    let y: u64 = 0xfedc_ba98_7654_3210;
    assert_eq!(
        chunk_and_concatenate_operands(x, y, 8, 16),
        vec![0x01fe, 0x23dc, 0x45ba, 0x6798, 0x8976, 0xab54, 0xcd32, 0xef10]
    );
    assert_eq!(
        chunk_and_concatenate_operands(x, y, 4, 32),
        vec![0x0123_fedc, 0x4567_ba98, 0x89ab_7654, 0xcdef_3210]
    );
    assert_eq!(BGEUInstruction(x, y).to_indices(8, 16), chunk_and_concatenate_operands(x, y, 8, 16));
    let bits = chunk_and_concatenate_operands(u64::MAX, 0, 64, 2);
    assert_eq!(bits, vec![2usize; 64]);
    // an odd table logarithm leaves the slice width at its half, rounded down
    assert_eq!(
        chunk_and_concatenate_operands(x, y, 8, 17),
        chunk_and_concatenate_operands(x, y, 8, 16)
    );
}

#[test]
fn config_is_checked() {
    assert_eq!(check_config(8, 16), Ok(()));
    assert_eq!(check_config(4, 32), Ok(()));
    assert_eq!(check_config(64, 2), Ok(()));
    assert_eq!(check_config(8, 0), Err(ConfigError::SliceWidth));
    assert_eq!(check_config(2, 64), Err(ConfigError::SliceWidth));
    assert_eq!(check_config(7, 16), Err(ConfigError::Coverage));
    assert_eq!(check_config(usize::MAX, 16), Err(ConfigError::Coverage));
    assert_eq!(check_config(8, 12), Err(ConfigError::Coverage));
}

#[test]
fn powers_of_two() {
    assert_eq!(pow2_u64(0), 1);
    assert_eq!(pow2_u64(1), 2);
    assert_eq!(pow2_u64(16), 65536);
    assert_eq!(pow2_u64(63), 1u64 << 63);
}

#[test]
fn table_entries() {
    // halves of two bits: index 9 = 0b10_01, index 6 = 0b01_10, index 5 = 0b01_01
    assert_eq!(SubtableKind::Ltu.entry(9, 4), Fe::zero());
    assert_eq!(SubtableKind::Ltu.entry(6, 4), Fe::one());
    assert_eq!(SubtableKind::Ltu.entry(5, 4), Fe::zero());
    assert_eq!(SubtableKind::Eq.entry(9, 4), Fe::zero());
    assert_eq!(SubtableKind::Eq.entry(5, 4), Fe::one());
    assert_eq!(SubtableKind::Eq.entry(0, 4), Fe::one());
}

#[test]
fn materialize_uses_the_logarithm_of_the_size() {
    let ltu = SubtableKind::Ltu.materialize(16);
    assert_eq!(ltu.len(), 16);
    let want: [u64; 16] = [0, 1, 1, 1, 0, 0, 1, 1, 0, 0, 0, 1, 0, 0, 0, 0];
    for i in 0..16 {
        assert_eq!(ltu[i], Fe::from_u64(want[i]));
    }
    let eq = SubtableKind::Eq.materialize(16);
    for i in 0..16 {
        assert_eq!(eq[i], Fe::from_bool(i / 4 == i % 4));
    }
    assert_eq!(SubtableKind::Eq.materialize(0).len(), 0);
}

#[test]
fn random_draws_two_words() {
    let mut rng = StdRng::seed_from_u64(7);
    let mut twin = StdRng::seed_from_u64(7);
    for _ in 0..32 {
        let i = BGEUInstruction(0, 0).random(&mut rng);
        let a = twin.next_u32() as u64;
        let b = twin.next_u32() as u64;
        assert_eq!(i.operands(), [a, b]);
        assert!(i.0 <= u32::MAX as u64 && i.1 <= u32::MAX as u64);
    }
    let s = BGEUInstruction::from_samples(5, u32::MAX);
    assert_eq!(s.operands(), [5, u32::MAX as u64]);
}

#[test]
fn field_arithmetic_matches_the_backend() {
    let mut rng = test_rng();
    let minus_one = Fe::zero().sub(&Fe::one());
    assert_eq!(from_fr(-Fr::one()), minus_one.limbs().to_vec());
    assert_eq!(minus_one.add(&Fe::from_u64(2)), Fe::one());
    assert_eq!(minus_one.mul(&minus_one), Fe::one());
    assert_eq!(Fe::from_u64(6).mul(&Fe::from_u64(7)), Fe::from_u64(42));
    assert_eq!(Fe::from_u64(6).add(&Fe::from_u64(7)), Fe::from_u64(13));
    assert_eq!(Fe::from_u64(7).sub(&Fe::from_u64(6)), Fe::from_u64(1));
    assert_eq!(Fe::from_u64(u64::MAX).add(&Fe::one()).limbs(), [0, 1, 0, 0]);
    for _ in 0..64 {
        let (a, b) = (rng.next_u64(), rng.next_u64());
        let (fa, fb) = (Fe::from_u64(a), Fe::from_u64(b));
        let big = fa.mul(&fb).mul(&fa.sub(&fb)).mul(&minus_one);
        let want = Fr::from(a) * Fr::from(b) * (Fr::from(a) - Fr::from(b)) * (-Fr::one());
        assert_eq!(to_fr(big), want);
        assert_eq!(to_fr(big.add(&big)), want + want);
        assert!(big.is_equal(&big));
        assert_eq!(fa.is_equal(&fb), a == b);
    }
}

#[test]
fn limbs_below_the_modulus_are_accepted() {
    let modulus: [u64; 4] = [0x5812631a5cf5d3ed, 0x14def9dea2f79cd6, 0, 0x1000000000000000];
    assert_eq!(Fr::MODULUS.0, modulus);
    assert!(Fe::from_limbs(modulus).is_none());
    assert!(Fe::from_limbs([u64::MAX; 4]).is_none());
    assert!(Fe::from_limbs([0, 0, 1, 0x1000000000000000]).is_none());
    assert!(Fe::from_limbs([0x5812631a5cf5d3ed, 0x14def9dea2f79cd7, 0, 0x1000000000000000]).is_none());
    let top = Fe::from_limbs([0x5812631a5cf5d3ec, 0x14def9dea2f79cd6, 0, 0x1000000000000000]);
    assert_eq!(top, Some(Fe::zero().sub(&Fe::one())));
    assert_eq!(Fe::from_limbs([9, 0, 0, 0]), Some(Fe::from_u64(9)));
    let big = Fe::from_limbs([u64::MAX, u64::MAX, u64::MAX, 0x0fff_ffff_ffff_ffff]).unwrap();
    assert_eq!(big.limbs(), [u64::MAX, u64::MAX, u64::MAX, 0x0fff_ffff_ffff_ffff]);
    let mut rng = test_rng();
    for _ in 0..32 {
        let f = Fr::from(rng.next_u64()) * Fr::from(rng.next_u64()) * Fr::from(rng.next_u64());
        let e = Fe::from_limbs(f.into_bigint().0).unwrap();
        assert_eq!(to_fr(e.mul(&e)), f * f);
    }
}

#[test]
fn binary_points() {
    // 0b10_01 with halves of two bits
    let p = index_to_point(9, 4);
    assert_eq!(p, vec![Fe::one(), Fe::zero(), Fe::zero(), Fe::one()]);
    assert_eq!(index_to_point(0x01fe, 16).len(), 16);
    let mut out = vec![Fe::from_u64(7)];
    push_bits(0b110, 4, &mut out);
    assert_eq!(out, vec![Fe::from_u64(7), Fe::zero(), Fe::one(), Fe::one(), Fe::zero()]);
    push_bits(5, 0, &mut out);
    assert_eq!(out.len(), 5);
}

#[test]
fn extension_agrees_with_the_table() {
    for kind in [SubtableKind::Ltu, SubtableKind::Eq] {
        let table = kind.materialize(1 << 8);
        for index in 0..(1usize << 8) {
            assert_eq!(kind.evaluate_mle(&index_to_point(index, 8)), table[index]);
            assert_eq!(kind.lookup(index, 8), kind.entry(index, 8));
        }
    }
    assert_eq!(SubtableKind::Eq.evaluate_mle(&[]), Fe::one());
    assert_eq!(SubtableKind::Ltu.evaluate_mle(&[]), Fe::zero());
}

#[test]
fn extension_off_the_cube() {
    // one bit each: eq(x, y) = x y + (1 - x)(1 - y), ltu(x, y) = (1 - x) y
    let (x, y) = (Fe::from_u64(3), Fe::from_u64(5));
    assert_eq!(SubtableKind::Eq.evaluate_mle(&[x, y]), Fe::from_u64(15 + 8));
    assert_eq!(to_fr(SubtableKind::Ltu.evaluate_mle(&[x, y])), -Fr::from(10u64));
    // two bits each: ltu = (1 - x0) y0 + eq(x0, y0) (1 - x1) y1
    let p = [Fe::from_u64(2), Fe::from_u64(3), Fe::from_u64(4), Fe::from_u64(5)];
    let (x0, x1, y0, y1) = (Fr::from(2u64), Fr::from(3u64), Fr::from(4u64), Fr::from(5u64));
    let one = Fr::one();
    let eq0 = x0 * y0 + (one - x0) * (one - y0);
    let eq1 = x1 * y1 + (one - x1) * (one - y1);
    assert_eq!(to_fr(SubtableKind::Ltu.evaluate_mle(&p)), (one - x0) * y0 + eq0 * (one - x1) * y1);
    assert_eq!(to_fr(SubtableKind::Eq.evaluate_mle(&p)), eq0 * eq1);
}

#[test]
fn entries_are_pushed_in_order() {
    let mut out = vec![Fe::from_u64(9)];
    push_entries(SubtableKind::Ltu, &vec![6, 9, 5], 4, &mut out);
    assert_eq!(out, vec![Fe::from_u64(9), Fe::one(), Fe::zero(), Fe::zero()]);
    push_entries(SubtableKind::Eq, &vec![6, 9, 5], 4, &mut out);
    assert_eq!(out[4..], [Fe::zero(), Fe::zero(), Fe::one()]);
}

#[test]
fn genuine_lookups_are_ordered_by_subtable() {
    // x = 0x01.., y = 0x02..: only the top chunk differs
    let x: u64 = 0x0100_0000_0000_0000;
    let y: u64 = 0x0200_0000_0000_0000;
    let vals = BGEUInstruction(x, y).subtable_lookups(8, 16);
    let mut want = vec![Fe::zero(); 16];
    want[0] = Fe::one();
    for i in 9..16 {
        want[i] = Fe::one();
    }
    assert_eq!(vals, want);
    assert_eq!(BGEUInstruction(x, y).lookup_entry(8, 1 << 16), Fe::zero());
    assert_eq!(BGEUInstruction(y, x).lookup_entry(8, 1 << 16), Fe::one());
}

#[test]
fn table_size_is_checked() {
    assert_eq!(check_table(8, 1 << 16), Ok(()));
    assert_eq!(check_table(8, (1 << 16) + 1), Ok(()));
    assert_eq!(check_table(4, 1 << 32), Ok(()));
    assert_eq!(check_table(64, 4), Ok(()));
    assert_eq!(check_table(8, (1 << 16) - 1), Err(ConfigError::TableSize));
    assert_eq!(check_table(8, 1 << 15), Err(ConfigError::Coverage));
    assert_eq!(check_table(9, 1 << 16), Err(ConfigError::Coverage));
    assert_eq!(check_table(8, 1), Err(ConfigError::SliceWidth));
    assert_eq!(check_table(8, 0), Err(ConfigError::SliceWidth));
    assert_eq!(check_table(2, usize::MAX), Err(ConfigError::SliceWidth));
}

#[test]
fn greater_or_equal_is_one_exactly_where_it_holds() {
    let mut rng = test_rng();
    for _ in 0..64 {
        let (x, y) = (rng.next_u64(), rng.next_u64() >> (rng.next_u32() % 64));
        for (a, b) in [(x, y), (y, x), (x, x)] {
            let r = BGEUInstruction(a, b).lookup_entry(16, 1 << 8);
            assert_eq!(r == Fe::one(), a >= b);
            assert_eq!(r == Fe::zero(), a < b);
        }
    }
}
