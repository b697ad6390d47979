use vstd::prelude::*;
use vstd::arithmetic::power2::pow2;
use crate::accumulator::{decode, lemma_round_trip, Accumulator, AccumulatorView};
use crate::basis::{basis_inputs, domain_fits, lemma_basis_inputs_len, BasisInputs};
use crate::error::SetupError;
use crate::layout::{checked_pow2, CeremonyParams, UseCompression};

verus! {

/// Reads the final phase-one transcript `response` and takes from it what
/// the change to the evaluation basis needs for a phase-two domain of
/// `2^phase2_size` points.
///
/// Fails with `SizeMismatch` exactly when the transcript's length is not the
/// one that `params` implies, and otherwise with `CircuitTooLarge` exactly
/// when the accumulator holds too few powers for that domain.
pub fn prepare_phase2(
    response: &[u8],
    c: UseCompression,
    params: &CeremonyParams,
    phase2_size: u32,
) -> (r: Result<BasisInputs, SetupError>)
    requires
        params.wf(),
    ensures
        r == Err::<BasisInputs, SetupError>(SetupError::SizeMismatch) <==> response@.len()
            != params.size_in_bytes(c),
        r is Ok <==> response@.len() == params.size_in_bytes(c) && pow2(phase2_size as nat)
            <= usize::MAX && domain_fits(decode(response@, *params, c), pow2(phase2_size as nat)),
        r matches Ok(b) ==> b@ == basis_inputs(
            decode(response@, *params, c),
            pow2(phase2_size as nat),
        ),
        r matches Err(e) ==> e == SetupError::SizeMismatch || e == SetupError::CircuitTooLarge,
{
    let acc = match Accumulator::deserialize(response, c, params) {
        Ok(a) => a,
        Err(e) => return Err(e),
    };
    let n = match checked_pow2(phase2_size as usize) {
        Some(n) => n,
        None => return Err(SetupError::CircuitTooLarge),
    };
    BasisInputs::select(&acc, n)
}

/// The transcript of a well-formed accumulator is accepted for any phase-two
/// domain of `2^k <= 2^size` points, and what comes out is exactly the
/// truncation of that accumulator to the domain.
pub proof fn lemma_prepare_from_transcript(
    a: AccumulatorView,
    p: CeremonyParams,
    c: UseCompression,
    k: nat,
)
    requires
        p.wf(),
        a.wf(p, c),
        pow2(k) <= p.powers_length,
    ensures
        a.encoding().len() == p.size_in_bytes(c),
        domain_fits(decode(a.encoding(), p, c), pow2(k)),
        basis_inputs(decode(a.encoding(), p, c), pow2(k)) == basis_inputs(a, pow2(k)),
        basis_inputs(a, pow2(k)).tau_powers_g1.len() == pow2(k),
{
    lemma_round_trip(a, p, c);
    vstd::arithmetic::power2::lemma_pow2_pos(k);
    lemma_basis_inputs_len(a, p, c, pow2(k));
}

} // verus!
