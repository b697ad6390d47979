use vstd::prelude::*;
use crate::accumulator::{Accumulator, AccumulatorView};
use crate::codec::{copy_bytes, copy_elements, views};
use crate::error::SetupError;
use crate::layout::{CeremonyParams, UseCompression};

verus! {

/// What the change to the evaluation basis reads from a phase-one
/// accumulator for a domain of `n` points. Everything past what the domain
/// needs is dropped here and never carried on.
pub struct BasisInputs {
    /// tau^i in G1, for i < n: the monomial basis of the domain.
    pub tau_powers_g1: Vec<Vec<u8>>,
    /// tau^i in G2, for i < n
    pub tau_powers_g2: Vec<Vec<u8>>,
    /// alpha * tau^i in G1, for i < n
    pub alpha_tau_powers_g1: Vec<Vec<u8>>,
    /// beta * tau^i in G1, for i < n
    pub beta_tau_powers_g1: Vec<Vec<u8>>,
    /// tau^(n + i) in G1, for i < n - 1; with the first `n - 1` entries of
    /// `tau_powers_g1` these give the query tau^i * (tau^n - 1).
    pub tau_powers_g1_shifted: Vec<Vec<u8>>,
    /// alpha in G1
    pub alpha_g1: Vec<u8>,
    /// beta in G1
    pub beta_g1: Vec<u8>,
    /// beta in G2
    pub beta_g2: Vec<u8>,
}

pub struct BasisInputsView {
    pub tau_powers_g1: Seq<Seq<u8>>,
    pub tau_powers_g2: Seq<Seq<u8>>,
    pub alpha_tau_powers_g1: Seq<Seq<u8>>,
    pub beta_tau_powers_g1: Seq<Seq<u8>>,
    pub tau_powers_g1_shifted: Seq<Seq<u8>>,
    pub alpha_g1: Seq<u8>,
    pub beta_g1: Seq<u8>,
    pub beta_g2: Seq<u8>,
}

impl View for BasisInputs {
    type V = BasisInputsView;

    open spec fn view(&self) -> BasisInputsView {
        BasisInputsView {
            tau_powers_g1: views(self.tau_powers_g1@),
            tau_powers_g2: views(self.tau_powers_g2@),
            alpha_tau_powers_g1: views(self.alpha_tau_powers_g1@),
            beta_tau_powers_g1: views(self.beta_tau_powers_g1@),
            tau_powers_g1_shifted: views(self.tau_powers_g1_shifted@),
            alpha_g1: self.alpha_g1@,
            beta_g1: self.beta_g1@,
            beta_g2: self.beta_g2@,
        }
    }
}

/// The accumulator holds enough powers for a domain of `n` points.
pub open spec fn domain_fits(a: AccumulatorView, n: nat) -> bool {
    &&& 2 * n - 1 <= a.tau_powers_g1.len()
    &&& n <= a.tau_powers_g2.len()
    &&& n <= a.alpha_tau_powers_g1.len()
    &&& n <= a.beta_tau_powers_g1.len()
}

/// The inputs of the basis change for `n` points, where the domain fits.
pub open spec fn basis_inputs(a: AccumulatorView, n: nat) -> BasisInputsView {
    BasisInputsView {
        tau_powers_g1: a.tau_powers_g1.subrange(0, n as int),
        tau_powers_g2: a.tau_powers_g2.subrange(0, n as int),
        alpha_tau_powers_g1: a.alpha_tau_powers_g1.subrange(0, n as int),
        beta_tau_powers_g1: a.beta_tau_powers_g1.subrange(0, n as int),
        tau_powers_g1_shifted: a.tau_powers_g1.subrange(n as int, 2 * n - 1),
        alpha_g1: a.alpha_tau_powers_g1[0],
        beta_g1: a.beta_tau_powers_g1[0],
        beta_g2: a.beta_g2,
    }
}

impl BasisInputs {
    /// Takes from `acc` what a domain of `n` points needs. Fails with
    /// `CircuitTooLarge` exactly when the accumulator holds too few powers.
    pub fn select(acc: &Accumulator, n: usize) -> (r: Result<Self, SetupError>)
        requires
            n >= 1,
        ensures
            r is Ok <==> domain_fits(acc@, n as nat),
            r matches Ok(b) ==> b@ == basis_inputs(acc@, n as nat),
            r matches Err(e) ==> e == SetupError::CircuitTooLarge,
    {
        if n > acc.tau_powers_g2.len() || n > acc.alpha_tau_powers_g1.len() || n
            > acc.beta_tau_powers_g1.len() || n > acc.tau_powers_g1.len() {
            return Err(SetupError::CircuitTooLarge);
        }
        if n - 1 > acc.tau_powers_g1.len() - n {
            return Err(SetupError::CircuitTooLarge);
        }
        let r = BasisInputs {
            tau_powers_g1: copy_elements(&acc.tau_powers_g1, 0, n),
            tau_powers_g2: copy_elements(&acc.tau_powers_g2, 0, n),
            alpha_tau_powers_g1: copy_elements(&acc.alpha_tau_powers_g1, 0, n),
            beta_tau_powers_g1: copy_elements(&acc.beta_tau_powers_g1, 0, n),
            tau_powers_g1_shifted: copy_elements(&acc.tau_powers_g1, n, n + (n - 1)),
            alpha_g1: copy_bytes(&acc.alpha_tau_powers_g1[0]),
            beta_g1: copy_bytes(&acc.beta_tau_powers_g1[0]),
            beta_g2: copy_bytes(&acc.beta_g2),
        };
        proof {
            assert(r@ =~= basis_inputs(acc@, n as nat));
        }
        Ok(r)
    }
}

/// For an accumulator laid out by `p`, any domain of `1 <= n <= 2^size`
/// points fits, and the inputs of the basis change hold exactly `n` entries
/// per vector (and `n - 1` shifted powers), whatever the accumulator's own
/// size.
pub proof fn lemma_basis_inputs_len(a: AccumulatorView, p: CeremonyParams, c: UseCompression, n: nat)
    requires
        p.wf(),
        a.wf(p, c),
        1 <= n <= p.powers_length,
    ensures
        domain_fits(a, n),
        basis_inputs(a, n).tau_powers_g1.len() == n,
        basis_inputs(a, n).tau_powers_g2.len() == n,
        basis_inputs(a, n).alpha_tau_powers_g1.len() == n,
        basis_inputs(a, n).beta_tau_powers_g1.len() == n,
        basis_inputs(a, n).tau_powers_g1_shifted.len() == n - 1,
{
}

} // verus!
