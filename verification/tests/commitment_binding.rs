//! The two-stage commitment: determinism, order sensitivity, and agreement
//! with an independent recomputation through the sponge library itself.

use ark_crypto_primitives::sponge::poseidon::{PoseidonConfig, PoseidonSponge};
use ark_crypto_primitives::sponge::{CryptographicSponge, FieldBasedCryptographicSponge};
use ark_ff::{BigInt, PrimeField};
use ark_test_curves::bls12_381::Fr;
use zk_inference::commitment::{
    check_statement, compute_public_statement, model_fingerprint, run_inference, statement_digest,
};
use zk_inference::field::{fe_from_i64, fe_from_u64, fe_matrix_from_i64, fe_vec_from_i64, FieldElem};
use zk_inference::network::Model;

fn cfg() -> PoseidonConfig<Fr> {
    PoseidonConfig {
        full_rounds: 8,
        partial_rounds: 57,
        alpha: 5,
        mds: vec![
            vec![Fr::from(1u64), Fr::from(2u64), Fr::from(3u64)],
            vec![Fr::from(4u64), Fr::from(5u64), Fr::from(6u64)],
            vec![Fr::from(7u64), Fr::from(8u64), Fr::from(9u64)],
        ],
        ark: (0..65)
            .map(|i| vec![Fr::from(i as u64), Fr::from(i as u64 + 1), Fr::from(i as u64 + 2)])
            .collect(),
        rate: 2,
        capacity: 1,
    }
}

fn fr_of(e: &FieldElem) -> Fr {
    Fr::from_bigint(BigInt::new([e.l0, e.l1, e.l2, e.l3])).unwrap()
}

fn elem_of(x: Fr) -> FieldElem {
    let b = x.into_bigint().0;
    FieldElem { l0: b[0], l1: b[1], l2: b[2], l3: b[3] }
}

fn small_model() -> Model {
    Model {
        weight_1: fe_matrix_from_i64(&vec![vec![1, 0], vec![0, 1]]),
        weight_2: fe_matrix_from_i64(&vec![vec![1, 0], vec![0, 1]]),
        bias_1: fe_vec_from_i64(&vec![0, 0]),
        bias_2: fe_vec_from_i64(&vec![0, 0]),
        zero_relu: fe_from_u64(0),
    }
}

/// The Stage-A absorb order, replayed directly through the sponge library.
fn reference_fingerprint(m: &Model) -> Fr {
    let mut sponge = PoseidonSponge::<Fr>::new(&cfg());
    for row in &m.weight_1 {
        for e in row {
            sponge.absorb(&fr_of(e));
        }
    }
    for row in &m.weight_2 {
        for e in row {
            sponge.absorb(&fr_of(e));
        }
    }
    for e in &m.bias_1 {
        sponge.absorb(&fr_of(e));
    }
    for e in &m.bias_2 {
        sponge.absorb(&fr_of(e));
    }
    sponge.absorb(&fr_of(&m.zero_relu));
    sponge.squeeze_native_field_elements(1)[0]
}

#[test]
fn fingerprint_matches_reference_sponge() {
    let m = small_model();
    assert_eq!(model_fingerprint(&m), elem_of(reference_fingerprint(&m)));
}

#[test]
fn fingerprint_is_deterministic() {
    let m = small_model();
    assert_eq!(model_fingerprint(&m), model_fingerprint(&m.clone()));
}

#[test]
fn statement_is_deterministic() {
    let m = small_model();
    let x = fe_vec_from_i64(&vec![1 << 23, 0]);
    let first = run_inference(&m, &x).unwrap();
    let second = run_inference(&m.clone(), &x.clone()).unwrap();
    assert_eq!(first, second);
}

#[test]
fn fingerprint_depends_on_absorb_order() {
    let m1 = Model { weight_1: fe_matrix_from_i64(&vec![vec![1, 2], vec![3, 4]]), ..small_model() };
    let m2 = Model { weight_1: fe_matrix_from_i64(&vec![vec![2, 1], vec![3, 4]]), ..small_model() };
    assert_ne!(model_fingerprint(&m1), model_fingerprint(&m2));
}

#[test]
fn fingerprint_separates_parameter_roles() {
    // The same multiset of values absorbed at different protocol positions.
    let m1 = Model { bias_1: fe_vec_from_i64(&vec![7, 0]), ..small_model() };
    let m2 = Model { bias_2: fe_vec_from_i64(&vec![7, 0]), ..small_model() };
    assert_ne!(model_fingerprint(&m1), model_fingerprint(&m2));
}

#[test]
fn end_to_end_statement_matches_reference() {
    let m = small_model();
    let x = fe_vec_from_i64(&vec![1 << 23, 0]);
    let (class, statement) = run_inference(&m, &x).unwrap();
    assert_eq!(class, 0);

    // Stage B replayed directly through the sponge library.
    let mut sponge = PoseidonSponge::<Fr>::new(&cfg());
    for e in &x {
        sponge.absorb(&fr_of(e));
    }
    sponge.absorb(&Fr::from(class as u64));
    sponge.absorb(&reference_fingerprint(&m));
    let expected = sponge.squeeze_native_field_elements(1)[0];
    assert_eq!(statement, elem_of(expected));
}

#[test]
fn statement_check_accepts_and_rejects() {
    let m = small_model();
    let x = fe_vec_from_i64(&vec![1 << 23, 0]);
    let (_, statement) = run_inference(&m, &x).unwrap();
    assert_eq!(check_statement(&m, &x, &statement), Ok(true));
    assert_eq!(check_statement(&m, &x, &fe_from_u64(12345)), Ok(false));
}

#[test]
fn mutating_a_weight_changes_the_statement() {
    let m = small_model();
    let x = fe_vec_from_i64(&vec![1 << 23, 0]);
    let (_, statement) = run_inference(&m, &x).unwrap();
    let mutated = Model { weight_2: fe_matrix_from_i64(&vec![vec![1, 0], vec![0, 2]]), ..small_model() };
    // The prediction is unchanged, but the commitment binds the weights.
    let (class, other_statement) = run_inference(&mutated, &x).unwrap();
    assert_eq!(class, 0);
    assert_ne!(statement, other_statement);
    assert_eq!(check_statement(&mutated, &x, &statement), Ok(false));
}

#[test]
fn statement_digest_chains_the_stages() {
    let m = small_model();
    let x = fe_vec_from_i64(&vec![1 << 23, 0]);
    let out = fe_from_u64(0);
    let fp = model_fingerprint(&m);
    assert_eq!(
        compute_public_statement(&m, &x, &out),
        statement_digest(&x, &out, &fp),
    );
}

#[test]
fn statement_depends_on_claimed_output() {
    let m = small_model();
    let x = fe_vec_from_i64(&vec![1 << 23, 0]);
    let a = compute_public_statement(&m, &x, &fe_from_u64(0));
    let b = compute_public_statement(&m, &x, &fe_from_u64(1));
    assert_ne!(a, b);
    let c = compute_public_statement(&m, &fe_vec_from_i64(&vec![1 << 23, 1]), &fe_from_u64(0));
    assert_ne!(a, c);
    let d = compute_public_statement(&m, &x, &fe_from_i64(0));
    assert_eq!(a, d);
}
