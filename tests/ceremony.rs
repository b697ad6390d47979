use powersoftau::accumulator::Accumulator;
use powersoftau::basis::BasisInputs;
use powersoftau::batch::{batch_ranges, overlapping_batch_ranges};
use powersoftau::error::SetupError;
use powersoftau::layout::{CeremonyParams, CheckForCorrectness, CurveParams, UseCompression};
use powersoftau::phase2::{check_circuit_fits, domain_size, phase2_size, Phase2Params};
use powersoftau::prepare::prepare_phase2;
use powersoftau::srs::Groth16Params;

fn bls_like() -> CurveParams {
    CurveParams { g1: 96, g2: 192, g1_compressed: 48, g2_compressed: 96 }
}

fn tiny_curve() -> CurveParams {
    CurveParams { g1: 4, g2: 6, g1_compressed: 2, g2_compressed: 3 }
}

fn element(tag: u8, index: usize, size: usize) -> Vec<u8> {
    (0..size).map(|b| tag.wrapping_mul(31).wrapping_add((index * 7 + b) as u8)).collect()
}

fn elements(tag: u8, count: usize, size: usize) -> Vec<Vec<u8>> {
    (0..count).map(|i| element(tag, i, size)).collect()
}

fn accumulator_for(p: &CeremonyParams, c: UseCompression) -> Accumulator {
    let s1 = p.curve.g1_size(c);
    let s2 = p.curve.g2_size(c);
    let n = p.powers_length;
    Accumulator {
        hash: (0..64).map(|b| b as u8).collect(),
        tau_powers_g1: elements(1, p.powers_g1_length, s1),
        tau_powers_g2: elements(2, n, s2),
        alpha_tau_powers_g1: elements(3, n, s1),
        beta_tau_powers_g1: elements(4, n, s1),
        beta_g2: element(5, 0, s2),
    }
}

fn same_accumulator(a: &Accumulator, b: &Accumulator) -> bool {
    a.hash == b.hash
        && a.tau_powers_g1 == b.tau_powers_g1
        && a.tau_powers_g2 == b.tau_powers_g2
        && a.alpha_tau_powers_g1 == b.alpha_tau_powers_g1
        && a.beta_tau_powers_g1 == b.beta_tau_powers_g1
        && a.beta_g2 == b.beta_g2
}

#[test]
fn first_chunk_sizes_for_power_six() {
    let p = CeremonyParams::new_for_first_chunk(bls_like(), 6, 4).unwrap();
    assert_eq!(p.powers_length, 64);
    assert_eq!(p.powers_g1_length, 127);
    assert_eq!(p.batch_size, 4);
    assert_eq!(p.accumulator_size(UseCompression::Yes), 64 + 127 * 48 + 64 * 96 + 2 * 64 * 48 + 96);
    assert_eq!(p.accumulator_size(UseCompression::Yes), 18544);
    assert_eq!(p.accumulator_size(UseCompression::No), 37024);
}

#[test]
fn first_chunk_refuses_degenerate_inputs() {
    assert!(CeremonyParams::new_for_first_chunk(bls_like(), 6, 0).is_none());
    let mut zero = bls_like();
    zero.g2_compressed = 0;
    assert!(CeremonyParams::new_for_first_chunk(zero, 6, 4).is_none());
    assert!(CeremonyParams::new_for_first_chunk(bls_like(), 63, 4).is_none());
    assert!(CeremonyParams::new_for_first_chunk(bls_like(), 200, 4).is_none());
    let p = CeremonyParams::new_for_first_chunk(bls_like(), 0, 1).unwrap();
    assert_eq!(p.powers_length, 1);
    assert_eq!(p.powers_g1_length, 1);
}

#[test]
fn accumulator_round_trip_both_encodings() {
    for c in [UseCompression::Yes, UseCompression::No] {
        let p = CeremonyParams::new_for_first_chunk(tiny_curve(), 2, 3).unwrap();
        let a = accumulator_for(&p, c);
        let bytes = a.serialize();
        assert_eq!(bytes.len(), p.accumulator_size(c));
        let b = Accumulator::deserialize(&bytes, c, &p).unwrap();
        assert!(same_accumulator(&a, &b));
    }
}

#[test]
fn accumulator_transcript_order() {
    let p = CeremonyParams::new_for_first_chunk(tiny_curve(), 1, 1).unwrap();
    let a = accumulator_for(&p, UseCompression::Yes);
    let bytes = a.serialize();
    let mut expected: Vec<u8> = a.hash.clone();
    for v in [&a.tau_powers_g1, &a.tau_powers_g2, &a.alpha_tau_powers_g1, &a.beta_tau_powers_g1] {
        for e in v.iter() {
            expected.extend_from_slice(e);
        }
    }
    expected.extend_from_slice(&a.beta_g2);
    assert_eq!(bytes, expected);
    assert_eq!(bytes.len(), 64 + 3 * 2 + 2 * 3 + 2 * 2 + 2 * 2 + 3);
}

#[test]
fn accumulator_wrong_length_is_size_mismatch() {
    let p = CeremonyParams::new_for_first_chunk(tiny_curve(), 2, 3).unwrap();
    let a = accumulator_for(&p, UseCompression::No);
    let mut bytes = a.serialize();
    bytes.push(0);
    assert!(matches!(
        Accumulator::deserialize(&bytes, UseCompression::No, &p),
        Err(SetupError::SizeMismatch)
    ));
    bytes.truncate(bytes.len() - 2);
    assert!(matches!(
        Accumulator::deserialize(&bytes, UseCompression::No, &p),
        Err(SetupError::SizeMismatch)
    ));
    // the uncompressed transcript read as compressed
    let full = a.serialize();
    assert!(matches!(
        Accumulator::deserialize(&full, UseCompression::Yes, &p),
        Err(SetupError::SizeMismatch)
    ));
    assert!(matches!(
        Accumulator::deserialize(&[], UseCompression::Yes, &p),
        Err(SetupError::SizeMismatch)
    ));
}

#[test]
fn basis_inputs_truncate_to_domain() {
    let p = CeremonyParams::new_for_first_chunk(tiny_curve(), 3, 2).unwrap();
    let a = accumulator_for(&p, UseCompression::Yes);
    let b = BasisInputs::select(&a, 4).unwrap();
    assert_eq!(b.tau_powers_g1, a.tau_powers_g1[0..4].to_vec());
    assert_eq!(b.tau_powers_g2, a.tau_powers_g2[0..4].to_vec());
    assert_eq!(b.alpha_tau_powers_g1, a.alpha_tau_powers_g1[0..4].to_vec());
    assert_eq!(b.beta_tau_powers_g1, a.beta_tau_powers_g1[0..4].to_vec());
    assert_eq!(b.tau_powers_g1_shifted, a.tau_powers_g1[4..7].to_vec());
    assert_eq!(b.alpha_g1, a.alpha_tau_powers_g1[0]);
    assert_eq!(b.beta_g1, a.beta_tau_powers_g1[0]);
    assert_eq!(b.beta_g2, a.beta_g2);
}

#[test]
fn basis_inputs_are_deterministic_and_sized() {
    let p = CeremonyParams::new_for_first_chunk(tiny_curve(), 4, 2).unwrap();
    let a = accumulator_for(&p, UseCompression::No);
    for n in [1usize, 2, 4, 8, 16] {
        let x = BasisInputs::select(&a, n).unwrap();
        let y = BasisInputs::select(&a, n).unwrap();
        assert_eq!(x.tau_powers_g1.len(), n);
        assert_eq!(x.tau_powers_g2.len(), n);
        assert_eq!(x.alpha_tau_powers_g1.len(), n);
        assert_eq!(x.beta_tau_powers_g1.len(), n);
        assert_eq!(x.tau_powers_g1_shifted.len(), n - 1);
        assert_eq!(x.tau_powers_g1, y.tau_powers_g1);
        assert_eq!(x.tau_powers_g1_shifted, y.tau_powers_g1_shifted);
        assert_eq!(x.alpha_g1, y.alpha_g1);
    }
}

#[test]
fn basis_inputs_domain_too_large() {
    let p = CeremonyParams::new_for_first_chunk(tiny_curve(), 3, 2).unwrap();
    let a = accumulator_for(&p, UseCompression::Yes);
    assert!(matches!(BasisInputs::select(&a, 9), Err(SetupError::CircuitTooLarge)));
    assert!(matches!(BasisInputs::select(&a, 16), Err(SetupError::CircuitTooLarge)));
    assert!(BasisInputs::select(&a, 8).is_ok());
}

#[test]
fn prepare_phase2_power_six_to_thirty_two() {
    let p = CeremonyParams::new_for_first_chunk(bls_like(), 6, 4).unwrap();
    let c = UseCompression::Yes;
    let a = accumulator_for(&p, c);
    let bytes = a.serialize();
    let b = prepare_phase2(&bytes, c, &p, 5).unwrap();
    assert_eq!(b.tau_powers_g1.len(), 32);
    assert_eq!(b.tau_powers_g2.len(), 32);
    assert_eq!(b.tau_powers_g1_shifted.len(), 31);
    assert_eq!(b.tau_powers_g1_shifted[0], a.tau_powers_g1[32]);
    assert!(matches!(prepare_phase2(&bytes, c, &p, 7), Err(SetupError::CircuitTooLarge)));
    assert!(matches!(prepare_phase2(&bytes, c, &p, 64), Err(SetupError::CircuitTooLarge)));
    assert!(matches!(
        prepare_phase2(&bytes[1..], c, &p, 5),
        Err(SetupError::SizeMismatch)
    ));
}

#[test]
fn squaring_circuit_fits_thirty_two_points() {
    // x * x = y with y public: one constraint, the constant one and y as
    // instance variables, x as witness
    let size = phase2_size(1, 2, 1).unwrap();
    assert_eq!(size, 4);
    assert!(check_circuit_fits(32, 1, 3).is_ok());
    assert_eq!(domain_size(size), Some(4));
}

#[test]
fn oversized_circuits_are_size_mismatch() {
    for extra in 1..10usize {
        assert!(matches!(check_circuit_fits(32, 32 + extra, 1), Err(SetupError::SizeMismatch)));
        assert!(matches!(check_circuit_fits(32, 1, 31 + extra), Err(SetupError::SizeMismatch)));
    }
    assert!(check_circuit_fits(32, 32, 31).is_ok());
    assert!(matches!(check_circuit_fits(32, 32, 32), Err(SetupError::SizeMismatch)));
    assert!(matches!(check_circuit_fits(0, 0, 0), Err(SetupError::SizeMismatch)));
}

#[test]
fn phase2_size_is_max_of_constraints_and_variables() {
    assert_eq!(phase2_size(10, 2, 3), Some(10));
    assert_eq!(phase2_size(3, 2, 3), Some(6));
    assert_eq!(phase2_size(0, 0, 0), Some(1));
    assert_eq!(phase2_size(0, usize::MAX, 0), None);
    assert_eq!(phase2_size(0, 1, usize::MAX - 1), None);
    assert_eq!(phase2_size(0, 1, usize::MAX - 2), Some(usize::MAX));
}

#[test]
fn domain_size_rounds_up_to_power_of_two() {
    assert_eq!(domain_size(0), Some(1));
    assert_eq!(domain_size(1), Some(1));
    assert_eq!(domain_size(3), Some(4));
    assert_eq!(domain_size(4), Some(4));
    assert_eq!(domain_size(5), Some(8));
    assert_eq!(domain_size(33), Some(64));
    assert_eq!(domain_size(1usize << 63), Some(1usize << 63));
    assert_eq!(domain_size((1usize << 63) + 1), None);
    assert_eq!(domain_size(usize::MAX), None);
}

#[test]
fn batches_cover_every_index_once() {
    assert_eq!(batch_ranges(10, 4), vec![(0, 4), (4, 8), (8, 10)]);
    assert_eq!(batch_ranges(8, 4), vec![(0, 4), (4, 8)]);
    assert_eq!(batch_ranges(0, 4), vec![]);
    assert_eq!(batch_ranges(3, 256), vec![(0, 3)]);
    assert_eq!(batch_ranges(127, 4).len(), 32);
}

fn phase2_params() -> Phase2Params {
    Phase2Params {
        alpha_g1: element(1, 0, 4),
        beta_g1: element(2, 0, 4),
        beta_g2: element(3, 0, 6),
        gamma_g2: element(4, 0, 6),
        gamma_abc_g1: elements(5, 2, 4),
        a_query: elements(6, 3, 4),
        b_g1_query: elements(7, 3, 4),
        b_g2_query: elements(8, 3, 6),
        delta_g1: element(9, 0, 4),
        delta_g2: element(10, 0, 6),
        h_query: elements(11, 3, 4),
        l_query: elements(12, 1, 4),
        cs_hash: element(13, 0, 64),
        contributions: vec![],
    }
}

fn contributed(before: &Phase2Params) -> Phase2Params {
    let mut after = Phase2Params {
        alpha_g1: before.alpha_g1.clone(),
        beta_g1: before.beta_g1.clone(),
        beta_g2: before.beta_g2.clone(),
        gamma_g2: before.gamma_g2.clone(),
        gamma_abc_g1: before.gamma_abc_g1.clone(),
        a_query: before.a_query.clone(),
        b_g1_query: before.b_g1_query.clone(),
        b_g2_query: before.b_g2_query.clone(),
        delta_g1: element(20, 0, 4),
        delta_g2: element(21, 0, 6),
        h_query: elements(22, 3, 4),
        l_query: elements(23, 1, 4),
        cs_hash: before.cs_hash.clone(),
        contributions: before.contributions.clone(),
    };
    after.contributions.push(element(24, after.contributions.len(), 8));
    after
}

#[test]
fn phase2_honest_transition_accepted() {
    let before = phase2_params();
    let after = contributed(&before);
    assert!(before.verify_transition(&after).is_ok());
    let third = contributed(&after);
    assert!(after.verify_transition(&third).is_ok());
    // skipping a step is not one contribution
    assert!(matches!(before.verify_transition(&third), Err(SetupError::InvalidContribution)));
    // nor is no contribution
    assert!(matches!(after.verify_transition(&after), Err(SetupError::InvalidContribution)));
}

#[test]
fn phase2_tampered_fixed_fields_refused() {
    let before = phase2_params();
    let good = contributed(&before);
    let tampers: Vec<fn(&mut Phase2Params)> = vec![
        |p| p.alpha_g1[0] ^= 1,
        |p| p.beta_g1[3] ^= 0x80,
        |p| p.beta_g2[5] ^= 1,
        |p| p.gamma_g2[0] ^= 1,
        |p| p.gamma_abc_g1[1][2] ^= 1,
        |p| p.a_query[2][0] ^= 1,
        |p| p.b_g1_query[0][1] ^= 1,
        |p| p.b_g2_query[1][5] ^= 1,
        |p| p.cs_hash[63] ^= 1,
        |p| {
            p.a_query.pop();
        },
        |p| p.h_query.push(vec![0; 4]),
        |p| {
            p.l_query.pop();
        },
    ];
    for t in tampers {
        let mut after = contributed(&before);
        t(&mut after);
        assert!(matches!(before.verify_transition(&after), Err(SetupError::InvalidContribution)));
    }
    assert!(before.verify_transition(&good).is_ok());
}

#[test]
fn phase2_rewritten_history_refused() {
    let before = contributed(&phase2_params());
    let mut after = contributed(&before);
    after.contributions[0][0] ^= 1;
    assert!(matches!(before.verify_transition(&after), Err(SetupError::InvalidContribution)));
}

fn srs(n: usize, s1: usize, s2: usize) -> Groth16Params {
    Groth16Params {
        alpha_g1: element(1, 0, s1),
        beta_g1: element(2, 0, s1),
        beta_g2: element(3, 0, s2),
        coeffs_g1: elements(4, n, s1),
        coeffs_g2: elements(5, n, s2),
        alpha_coeffs_g1: elements(6, n, s1),
        beta_coeffs_g1: elements(7, n, s1),
        h_g1: elements(8, n - 1, s1),
    }
}

#[test]
fn srs_round_trip_both_encodings() {
    let curve = tiny_curve();
    for c in [UseCompression::Yes, UseCompression::No] {
        let s1 = curve.g1_size(c);
        let s2 = curve.g2_size(c);
        let g = srs(8, s1, s2);
        let bytes = g.serialize();
        assert_eq!(bytes.len(), 2 * s1 + s2 + 8 * (3 * s1 + s2) + 7 * s1);
        let h = Groth16Params::deserialize(&bytes, &curve, c, 8).unwrap();
        assert_eq!(h.alpha_g1, g.alpha_g1);
        assert_eq!(h.beta_g1, g.beta_g1);
        assert_eq!(h.beta_g2, g.beta_g2);
        assert_eq!(h.coeffs_g1, g.coeffs_g1);
        assert_eq!(h.coeffs_g2, g.coeffs_g2);
        assert_eq!(h.alpha_coeffs_g1, g.alpha_coeffs_g1);
        assert_eq!(h.beta_coeffs_g1, g.beta_coeffs_g1);
        assert_eq!(h.h_g1, g.h_g1);
    }
}

#[test]
fn srs_wrong_length_is_size_mismatch() {
    let curve = tiny_curve();
    let g = srs(4, 2, 3);
    let bytes = g.serialize();
    assert!(Groth16Params::deserialize(&bytes, &curve, UseCompression::Yes, 4).is_ok());
    assert!(matches!(
        Groth16Params::deserialize(&bytes, &curve, UseCompression::Yes, 8),
        Err(SetupError::SizeMismatch)
    ));
    assert!(matches!(
        Groth16Params::deserialize(&bytes, &curve, UseCompression::No, 4),
        Err(SetupError::SizeMismatch)
    ));
    assert!(matches!(
        Groth16Params::deserialize(&bytes[..bytes.len() - 1], &curve, UseCompression::Yes, 4),
        Err(SetupError::SizeMismatch)
    ));
    assert!(matches!(
        Groth16Params::deserialize(&bytes, &curve, UseCompression::Yes, usize::MAX),
        Err(SetupError::SizeMismatch)
    ));
}

#[test]
fn overlapping_batches_share_one_element() {
    assert_eq!(overlapping_batch_ranges(10, 4), vec![(0, 5), (4, 9), (8, 10)]);
    assert_eq!(overlapping_batch_ranges(8, 4), vec![(0, 5), (4, 8)]);
    assert_eq!(overlapping_batch_ranges(0, 4), vec![]);
    let r = overlapping_batch_ranges(127, 4);
    for i in 0..126usize {
        assert!(r.iter().any(|&(lo, hi)| lo <= i && i + 1 < hi));
    }
}

#[test]
fn correctness_policies_select_elements() {
    let full: Vec<usize> = (0..6).filter(|&i| CheckForCorrectness::Full.must_check(i, 5)).collect();
    assert_eq!(full, vec![0, 1, 2, 3, 4]);
    let quick: Vec<usize> = (0..6).filter(|&i| CheckForCorrectness::Quick.must_check(i, 5)).collect();
    assert_eq!(quick, vec![0, 4]);
    let none: Vec<usize> = (0..6).filter(|&i| CheckForCorrectness::No.must_check(i, 5)).collect();
    assert!(none.is_empty());
    assert!(CheckForCorrectness::Quick.must_check(0, 1));
    assert!(!CheckForCorrectness::Quick.must_check(0, 0));
}

#[test]
fn phase2_contribution_keeps_fixed_fields() {
    let before = phase2_params();
    let after = before
        .with_contribution(element(30, 0, 4), element(31, 0, 6), elements(32, 3, 4), elements(33, 1, 4), vec![7; 8])
        .unwrap();
    assert_eq!(after.alpha_g1, before.alpha_g1);
    assert_eq!(after.a_query, before.a_query);
    assert_eq!(after.b_g2_query, before.b_g2_query);
    assert_eq!(after.cs_hash, before.cs_hash);
    assert_eq!(after.delta_g1, element(30, 0, 4));
    assert_eq!(after.h_query, elements(32, 3, 4));
    assert_eq!(after.contributions, vec![vec![7u8; 8]]);
    assert!(before.verify_transition(&after).is_ok());
    let next = after
        .with_contribution(element(34, 0, 4), element(35, 0, 6), elements(36, 3, 4), elements(37, 1, 4), vec![9; 8])
        .unwrap();
    assert_eq!(next.contributions, vec![vec![7u8; 8], vec![9u8; 8]]);
    assert!(after.verify_transition(&next).is_ok());
    assert!(matches!(
        before.with_contribution(element(30, 0, 4), element(31, 0, 6), elements(32, 2, 4), elements(33, 1, 4), vec![]),
        Err(SetupError::InvalidContribution)
    ));
    assert!(matches!(
        before.with_contribution(element(30, 0, 4), element(31, 0, 6), elements(32, 3, 4), vec![], vec![]),
        Err(SetupError::InvalidContribution)
    ));
}
