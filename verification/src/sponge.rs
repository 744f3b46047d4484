//! Sponge-based commitments over the scalar field.
//!
//! The sponge is a two-phase resource: construct it, absorb a sequence of
//! field elements, squeeze a single digest, then discard it. The absorb
//! order is part of the protocol, so it is tracked exactly: the spec-level
//! content of a sponge is the sequence of canonical values absorbed so far,
//! and the digest is an unspecified but fixed function of that sequence.
//!
//! The permutation itself (round counts, round constants, mixing matrix) is
//! the protocol's fixed configuration, built once inside `sponge_new`; it is
//! shared by everyone who recomputes the commitment, so the digest depends on
//! the absorbed sequence alone.

use vstd::prelude::*;
use crate::field::FieldElem;
use ark_crypto_primitives::sponge::CryptographicSponge;
use ark_crypto_primitives::sponge::FieldBasedCryptographicSponge;
use ark_crypto_primitives::sponge::poseidon::{PoseidonConfig, PoseidonSponge};
use ark_ff::{BigInt, PrimeField};
use ark_test_curves::bls12_381::Fr;

verus! {

/// An in-progress sponge commitment over the scalar field.
#[verifier::external_body]
pub struct Sponge {
    inner: PoseidonSponge<Fr>,
}

/// The canonical values a sponge has absorbed so far, in order.
pub uninterp spec fn absorbed(s: Sponge) -> Seq<nat>;

/// Whether a sponge is still in its absorbing phase: it has never been
/// squeezed. Only such a sponge may absorb further elements or be squeezed,
/// which keeps every digest the digest of a freshly constructed sponge.
pub uninterp spec fn in_absorbing_phase(s: Sponge) -> bool;

/// The digest the fixed sponge permutation squeezes after absorbing a given
/// sequence of canonical values.
pub uninterp spec fn sponge_digest(inputs: Seq<nat>) -> nat;

/// Construct a fresh sponge with the protocol's fixed permutation
/// configuration (8 full rounds, 57 partial rounds, alpha 5, rate 2,
/// capacity 1, and fixed mixing and round-constant tables).
///
/// Relies on `PoseidonSponge::new`: a fresh sponge has absorbed nothing.
#[verifier::external_body]
pub(crate) fn sponge_new() -> (s: Sponge)
    ensures
        absorbed(s) == Seq::<nat>::empty(),
        in_absorbing_phase(s),
{
    let mds = (0..3u64).map(|r| (1..=3u64).map(|c| Fr::from(3 * r + c)).collect()).collect();
    let ark = (0..65u64).map(|i| vec![Fr::from(i), Fr::from(i + 1), Fr::from(i + 2)]).collect();
    let cfg = PoseidonConfig { full_rounds: 8, partial_rounds: 57, alpha: 5, mds, ark, rate: 2, capacity: 1 };
    Sponge { inner: PoseidonSponge::new(&cfg) }
}

/// Absorb one field element.
///
/// Relies on `PoseidonSponge::absorb` together with the `Absorb`
/// implementation of the prime field, which feeds exactly that one element
/// to the sponge.
#[verifier::external_body]
pub(crate) fn sponge_absorb(s: &mut Sponge, x: &FieldElem)
    requires
        in_absorbing_phase(*old(s)),
        x.wf(),
    ensures
        absorbed(*final(s)) == absorbed(*old(s)).push(x.value()),
        in_absorbing_phase(*final(s)),
{
    s.inner.absorb(&Fr::from_bigint(BigInt::new([x.l0, x.l1, x.l2, x.l3])).unwrap());
}

/// Squeeze the single digest element and leave the sponge spent.
///
/// Relies on `PoseidonSponge::squeeze_native_field_elements`: with the
/// configuration fixed inside `sponge_new`, the element squeezed is a
/// function of the absorbed sequence alone, and is a canonical field
/// element.
#[verifier::external_body]
pub(crate) fn sponge_squeeze(s: &mut Sponge) -> (r: FieldElem)
    requires
        in_absorbing_phase(*old(s)),
    ensures
        r.value() == sponge_digest(absorbed(*old(s))),
        r.wf(),
{
    let out = s.inner.squeeze_native_field_elements(1)[0].into_bigint().0;
    FieldElem { l0: out[0], l1: out[1], l2: out[2], l3: out[3] }
}

} // verus!
