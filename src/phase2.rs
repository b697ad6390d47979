use vstd::prelude::*;
use vstd::arithmetic::power2::{pow2, lemma_pow2_unfold};
use crate::codec::{bytes_eq, copy_bytes, copy_elements, elements_eq, views};
use crate::error::SetupError;

verus! {

/// The number of domain points a circuit needs: its constraints, and one
/// more than its variables (instance variables, the constant one among them,
/// and witness variables).
pub open spec fn circuit_size(num_constraints: nat, num_variables: nat) -> nat {
    if num_constraints >= num_variables + 1 {
        num_constraints
    } else {
        num_variables + 1
    }
}

/// A circuit fits a Lagrange reference string of `srs_size` points.
pub open spec fn circuit_fits(srs_size: nat, num_constraints: nat, num_variables: nat) -> bool {
    circuit_size(num_constraints, num_variables) <= srs_size
}

/// `max(num_constraints, num_instance + num_witness + 1)`, or `None` where that
/// does not fit in `usize`.
pub fn phase2_size(num_constraints: usize, num_instance: usize, num_witness: usize) -> (r: Option<
    usize,
>)
    ensures
        r is Some <==> num_instance + num_witness + 1 <= usize::MAX,
        r matches Some(v) ==> v == circuit_size(
            num_constraints as nat,
            (num_instance + num_witness) as nat,
        ),
{
    if num_instance > usize::MAX - 1 || num_witness > usize::MAX - 1 - num_instance {
        return None;
    }
    let v = num_instance + num_witness + 1;
    if num_constraints >= v {
        Some(num_constraints)
    } else {
        Some(v)
    }
}

/// The smallest power of two that is at least `m`, or `None` where it does
/// not fit in `usize`.
pub fn domain_size(m: usize) -> (r: Option<usize>)
    ensures
        r matches Some(d) ==> {
            &&& d >= m
            &&& exists|k: nat| pow2(k) == d
            &&& (d == 1 || d < 2 * m)
        },
        r is None ==> m > usize::MAX / 2 + 1,
{
    let mut d: usize = 1;
    let ghost mut k: nat = 0;
    proof {
        vstd::arithmetic::power2::lemma2_to64();
    }
    while d < m
        invariant
            d as nat == pow2(k),
            d >= 1,
            d == 1 || d < 2 * m,
        decreases usize::MAX - d,
    {
        if d > usize::MAX / 2 {
            return None;
        }
        proof {
            lemma_pow2_unfold(k + 1);
        }
        d = d * 2;
        proof {
            k = k + 1;
        }
    }
    Some(d)
}

/// Checks that a circuit fits the reference string it is to be specialised
/// with. Fails with `SizeMismatch` exactly when it needs more points.
pub fn check_circuit_fits(srs_size: usize, num_constraints: usize, num_variables: usize) -> (r:
    Result<(), SetupError>)
    ensures
        r is Ok <==> circuit_fits(srs_size as nat, num_constraints as nat, num_variables as nat),
        r matches Err(e) ==> e == SetupError::SizeMismatch,
{
    if num_constraints > srs_size || num_variables >= srs_size {
        Err(SetupError::SizeMismatch)
    } else {
        Ok(())
    }
}

/// A circuit whose constraint count, or whose variable count plus one,
/// exceeds the reference string's size is refused, whatever the excess.
pub proof fn lemma_oversized_circuit_refused(
    srs_size: nat,
    num_constraints: nat,
    num_variables: nat,
)
    requires
        num_constraints > srs_size || num_variables + 1 > srs_size,
    ensures
        !circuit_fits(srs_size, num_constraints, num_variables),
{
}

/// Phase-two parameters: a Groth16 proving and verifying key, with group
/// elements as their encodings, and the record of contributions so far.
pub struct Phase2Params {
    pub alpha_g1: Vec<u8>,
    pub beta_g1: Vec<u8>,
    pub beta_g2: Vec<u8>,
    pub gamma_g2: Vec<u8>,
    pub gamma_abc_g1: Vec<Vec<u8>>,
    pub a_query: Vec<Vec<u8>>,
    pub b_g1_query: Vec<Vec<u8>>,
    pub b_g2_query: Vec<Vec<u8>>,
    /// Scaled by every contribution's delta.
    pub delta_g1: Vec<u8>,
    /// Scaled by every contribution's delta.
    pub delta_g2: Vec<u8>,
    /// Scaled by the inverse of every contribution's delta.
    pub h_query: Vec<Vec<u8>>,
    /// Scaled by the inverse of every contribution's delta.
    pub l_query: Vec<Vec<u8>>,
    /// Digest of the circuit the parameters were specialised to.
    pub cs_hash: Vec<u8>,
    /// The public keys of the contributions, oldest first.
    pub contributions: Vec<Vec<u8>>,
}

pub struct Phase2ParamsView {
    pub alpha_g1: Seq<u8>,
    pub beta_g1: Seq<u8>,
    pub beta_g2: Seq<u8>,
    pub gamma_g2: Seq<u8>,
    pub gamma_abc_g1: Seq<Seq<u8>>,
    pub a_query: Seq<Seq<u8>>,
    pub b_g1_query: Seq<Seq<u8>>,
    pub b_g2_query: Seq<Seq<u8>>,
    pub delta_g1: Seq<u8>,
    pub delta_g2: Seq<u8>,
    pub h_query: Seq<Seq<u8>>,
    pub l_query: Seq<Seq<u8>>,
    pub cs_hash: Seq<u8>,
    pub contributions: Seq<Seq<u8>>,
}

impl View for Phase2Params {
    type V = Phase2ParamsView;

    open spec fn view(&self) -> Phase2ParamsView {
        Phase2ParamsView {
            alpha_g1: self.alpha_g1@,
            beta_g1: self.beta_g1@,
            beta_g2: self.beta_g2@,
            gamma_g2: self.gamma_g2@,
            gamma_abc_g1: views(self.gamma_abc_g1@),
            a_query: views(self.a_query@),
            b_g1_query: views(self.b_g1_query@),
            b_g2_query: views(self.b_g2_query@),
            delta_g1: self.delta_g1@,
            delta_g2: self.delta_g2@,
            h_query: views(self.h_query@),
            l_query: views(self.l_query@),
            cs_hash: self.cs_hash@,
            contributions: views(self.contributions@),
        }
    }
}

/// Every field that no contribution may change is the same in both.
pub open spec fn delta_independent_unchanged(before: Phase2ParamsView, after: Phase2ParamsView) -> bool {
    &&& before.alpha_g1 == after.alpha_g1
    &&& before.beta_g1 == after.beta_g1
    &&& before.beta_g2 == after.beta_g2
    &&& before.gamma_g2 == after.gamma_g2
    &&& before.gamma_abc_g1 == after.gamma_abc_g1
    &&& before.a_query == after.a_query
    &&& before.b_g1_query == after.b_g1_query
    &&& before.b_g2_query == after.b_g2_query
    &&& before.cs_hash == after.cs_hash
}

/// `after` can follow `before` by one contribution: the fixed fields are
/// untouched, the rescaled vectors keep their lengths, and the record of
/// contributions grows by exactly one entry, keeping the earlier ones.
pub open spec fn transition_shape_ok(before: Phase2ParamsView, after: Phase2ParamsView) -> bool {
    &&& delta_independent_unchanged(before, after)
    &&& before.h_query.len() == after.h_query.len()
    &&& before.l_query.len() == after.l_query.len()
    &&& after.contributions.len() == before.contributions.len() + 1
    &&& after.contributions.subrange(0, before.contributions.len() as int) == before.contributions
}

impl Phase2Params {
    /// The parameters after one contribution: every delta-independent field
    /// copied from `self`, the delta points and the rescaled vectors taken
    /// from the contributor, and the contributor's public key appended to the
    /// record. Fails with `InvalidContribution` exactly when a rescaled
    /// vector has another length than the one it replaces.
    pub fn with_contribution(
        &self,
        delta_g1: Vec<u8>,
        delta_g2: Vec<u8>,
        h_query: Vec<Vec<u8>>,
        l_query: Vec<Vec<u8>>,
        public_key: Vec<u8>,
    ) -> (r: Result<Phase2Params, SetupError>)
        ensures
            r is Ok <==> h_query@.len() == self.h_query@.len() && l_query@.len()
                == self.l_query@.len(),
            r matches Ok(a) ==> {
                &&& delta_independent_unchanged(self@, a@)
                &&& a@.delta_g1 == delta_g1@
                &&& a@.delta_g2 == delta_g2@
                &&& a@.h_query == views(h_query@)
                &&& a@.l_query == views(l_query@)
                &&& a@.contributions == self@.contributions.push(public_key@)
            },
            r matches Err(e) ==> e == SetupError::InvalidContribution,
    {
        if h_query.len() != self.h_query.len() || l_query.len() != self.l_query.len() {
            return Err(SetupError::InvalidContribution);
        }
        let mut contributions = copy_elements(&self.contributions, 0, self.contributions.len());
        let ghost old_c = views(contributions@);
        contributions.push(public_key);
        proof {
            assert(views(self.contributions@).subrange(0, self.contributions@.len() as int)
                =~= views(self.contributions@));
            assert(views(contributions@) =~= old_c.push(public_key@));
        }
        let a = Phase2Params {
            alpha_g1: copy_bytes(&self.alpha_g1),
            beta_g1: copy_bytes(&self.beta_g1),
            beta_g2: copy_bytes(&self.beta_g2),
            gamma_g2: copy_bytes(&self.gamma_g2),
            gamma_abc_g1: copy_elements(&self.gamma_abc_g1, 0, self.gamma_abc_g1.len()),
            a_query: copy_elements(&self.a_query, 0, self.a_query.len()),
            b_g1_query: copy_elements(&self.b_g1_query, 0, self.b_g1_query.len()),
            b_g2_query: copy_elements(&self.b_g2_query, 0, self.b_g2_query.len()),
            delta_g1,
            delta_g2,
            h_query,
            l_query,
            cs_hash: copy_bytes(&self.cs_hash),
            contributions,
        };
        proof {
            assert(views(self.gamma_abc_g1@).subrange(0, self.gamma_abc_g1@.len() as int)
                =~= views(self.gamma_abc_g1@));
            assert(views(self.a_query@).subrange(0, self.a_query@.len() as int) =~= views(
                self.a_query@,
            ));
            assert(views(self.b_g1_query@).subrange(0, self.b_g1_query@.len() as int) =~= views(
                self.b_g1_query@,
            ));
            assert(views(self.b_g2_query@).subrange(0, self.b_g2_query@.len() as int) =~= views(
                self.b_g2_query@,
            ));
        }
        Ok(a)
    }

    /// The structural half of verifying a phase-two contribution; the pairing
    /// checks on the delta points and the rescaled vectors are the group
    /// library's. Fails with `InvalidContribution` exactly when `after` cannot
    /// follow `self` by one contribution.
    pub fn verify_transition(&self, after: &Phase2Params) -> (r: Result<(), SetupError>)
        ensures
            r is Ok <==> transition_shape_ok(self@, after@),
            r matches Err(e) ==> e == SetupError::InvalidContribution,
    {
        let fixed = bytes_eq(&self.alpha_g1, &after.alpha_g1) && bytes_eq(
            &self.beta_g1,
            &after.beta_g1,
        ) && bytes_eq(&self.beta_g2, &after.beta_g2) && bytes_eq(&self.gamma_g2, &after.gamma_g2)
            && elements_eq(&self.gamma_abc_g1, &after.gamma_abc_g1) && elements_eq(
            &self.a_query,
            &after.a_query,
        ) && elements_eq(&self.b_g1_query, &after.b_g1_query) && elements_eq(
            &self.b_g2_query,
            &after.b_g2_query,
        ) && bytes_eq(&self.cs_hash, &after.cs_hash);
        if !fixed {
            return Err(SetupError::InvalidContribution);
        }
        if self.h_query.len() != after.h_query.len() || self.l_query.len() != after.l_query.len() {
            return Err(SetupError::InvalidContribution);
        }
        let k = self.contributions.len();
        if after.contributions.len() == 0 || after.contributions.len() - 1 != k {
            return Err(SetupError::InvalidContribution);
        }
        let mut i: usize = 0;
        while i < k
            invariant
                i <= k,
                k == self.contributions@.len(),
                after.contributions@.len() == k + 1,
                views(after.contributions@).subrange(0, i as int) == views(
                    self.contributions@,
                ).subrange(0, i as int),
            decreases k - i,
        {
            if !bytes_eq(&self.contributions[i], &after.contributions[i]) {
                proof {
                    assert(views(after.contributions@).subrange(0, k as int)[i as int]
                        != views(self.contributions@)[i as int]);
                }
                return Err(SetupError::InvalidContribution);
            }
            proof {
                assert(views(after.contributions@).subrange(0, i + 1) =~= views(
                    after.contributions@,
                ).subrange(0, i as int).push(views(after.contributions@)[i as int]));
                assert(views(self.contributions@).subrange(0, i + 1) =~= views(
                    self.contributions@,
                ).subrange(0, i as int).push(views(self.contributions@)[i as int]));
            }
            i = i + 1;
        }
        proof {
            assert(views(self.contributions@) =~= views(self.contributions@).subrange(0, k as int));
        }
        Ok(())
    }
}

/// A contribution that alters any delta-independent field is refused, even
/// where everything else about it is in order.
pub proof fn lemma_tampered_fixed_field_refused(before: Phase2ParamsView, after: Phase2ParamsView)
    requires
        !delta_independent_unchanged(before, after),
    ensures
        !transition_shape_ok(before, after),
{
}

/// Parameters built from `before` by one contribution, with rescaled vectors
/// of the lengths they replace, pass the structural check of a transition.
pub proof fn lemma_contribution_passes(
    before: Phase2ParamsView,
    after: Phase2ParamsView,
    public_key: Seq<u8>,
)
    requires
        delta_independent_unchanged(before, after),
        after.h_query.len() == before.h_query.len(),
        after.l_query.len() == before.l_query.len(),
        after.contributions == before.contributions.push(public_key),
    ensures
        transition_shape_ok(before, after),
{
    assert(after.contributions.subrange(0, before.contributions.len() as int)
        =~= before.contributions);
}

} // verus!
