use vstd::prelude::*;
use crate::codec::{all_sized, chunks, flatten, lemma_chunks_of_flatten, lemma_flatten_len, read_elements, views, write_elements};
use crate::error::SetupError;
use crate::layout::{CeremonyParams, HASH_SIZE, UseCompression};

verus! {

/// A phase-one accumulator: the digest of the transcript it answers, then
/// five vectors of encoded group elements.
pub struct Accumulator {
    pub hash: Vec<u8>,
    /// tau^i in G1, for i < 2n - 1
    pub tau_powers_g1: Vec<Vec<u8>>,
    /// tau^i in G2, for i < n
    pub tau_powers_g2: Vec<Vec<u8>>,
    /// alpha * tau^i in G1, for i < n
    pub alpha_tau_powers_g1: Vec<Vec<u8>>,
    /// beta * tau^i in G1, for i < n
    pub beta_tau_powers_g1: Vec<Vec<u8>>,
    /// beta in G2
    pub beta_g2: Vec<u8>,
}

/// The byte contents of an [`Accumulator`].
pub struct AccumulatorView {
    pub hash: Seq<u8>,
    pub tau_powers_g1: Seq<Seq<u8>>,
    pub tau_powers_g2: Seq<Seq<u8>>,
    pub alpha_tau_powers_g1: Seq<Seq<u8>>,
    pub beta_tau_powers_g1: Seq<Seq<u8>>,
    pub beta_g2: Seq<u8>,
}

impl View for Accumulator {
    type V = AccumulatorView;

    open spec fn view(&self) -> AccumulatorView {
        AccumulatorView {
            hash: self.hash@,
            tau_powers_g1: views(self.tau_powers_g1@),
            tau_powers_g2: views(self.tau_powers_g2@),
            alpha_tau_powers_g1: views(self.alpha_tau_powers_g1@),
            beta_tau_powers_g1: views(self.beta_tau_powers_g1@),
            beta_g2: self.beta_g2@,
        }
    }
}

impl AccumulatorView {
    /// Every vector has the length that `p` fixes and every element the size
    /// of its group under `c`.
    pub open spec fn wf(&self, p: CeremonyParams, c: UseCompression) -> bool {
        let s1 = p.curve.g1_size_spec(c);
        let s2 = p.curve.g2_size_spec(c);
        let n = p.powers_length as nat;
        &&& self.hash.len() == HASH_SIZE
        &&& self.tau_powers_g1.len() == p.powers_g1_length
        &&& self.tau_powers_g2.len() == n
        &&& self.alpha_tau_powers_g1.len() == n
        &&& self.beta_tau_powers_g1.len() == n
        &&& self.beta_g2.len() == s2
        &&& all_sized(self.tau_powers_g1, s1)
        &&& all_sized(self.tau_powers_g2, s2)
        &&& all_sized(self.alpha_tau_powers_g1, s1)
        &&& all_sized(self.beta_tau_powers_g1, s1)
    }

    /// The transcript: every field in declared order, no padding.
    pub open spec fn encoding(&self) -> Seq<u8> {
        self.hash + flatten(self.tau_powers_g1) + flatten(self.tau_powers_g2) + flatten(
            self.alpha_tau_powers_g1,
        ) + flatten(self.beta_tau_powers_g1) + self.beta_g2
    }
}

/// Where each field of an accumulator starts in its transcript.
pub open spec fn offsets(p: CeremonyParams, c: UseCompression) -> (int, int, int, int, int) {
    let s1 = p.curve.g1_size_spec(c) as int;
    let s2 = p.curve.g2_size_spec(c) as int;
    let n = p.powers_length as int;
    let o1 = HASH_SIZE as int;
    let o2 = o1 + p.powers_g1_length * s1;
    let o3 = o2 + n * s2;
    let o4 = o3 + n * s1;
    let o5 = o4 + n * s1;
    (o1, o2, o3, o4, o5)
}

/// The accumulator that a transcript of the right length describes.
pub open spec fn decode(bytes: Seq<u8>, p: CeremonyParams, c: UseCompression) -> AccumulatorView {
    let s1 = p.curve.g1_size_spec(c);
    let s2 = p.curve.g2_size_spec(c);
    let n = p.powers_length as nat;
    let (o1, o2, o3, o4, o5) = offsets(p, c);
    AccumulatorView {
        hash: bytes.subrange(0, o1),
        tau_powers_g1: chunks(bytes, o1, p.powers_g1_length as nat, s1),
        tau_powers_g2: chunks(bytes, o2, n, s2),
        alpha_tau_powers_g1: chunks(bytes, o3, n, s1),
        beta_tau_powers_g1: chunks(bytes, o4, n, s1),
        beta_g2: bytes.subrange(o5, o5 + s2),
    }
}

proof fn lemma_terms_fit(p: CeremonyParams, c: UseCompression)
    requires
        p.wf(),
    ensures
        ({
            let (o1, o2, o3, o4, o5) = offsets(p, c);
            &&& o1 <= o2 <= o3 <= o4 <= o5
            &&& o5 + p.curve.g2_size_spec(c) == p.size_in_bytes(c)
        }),
{
    let s1 = p.curve.g1_size_spec(c) as int;
    let s2 = p.curve.g2_size_spec(c) as int;
    let n = p.powers_length as int;
    let m = p.powers_g1_length as int;
    assert(m * s1 >= 0 && n * s2 >= 0 && n * s1 >= 0) by (nonlinear_arith)
        requires
            m >= 0,
            n >= 0,
            s1 >= 0,
            s2 >= 0,
    ;
}

impl Accumulator {
    /// The transcript of this accumulator.
    pub fn serialize(&self) -> (r: Vec<u8>)
        ensures
            r@ == self@.encoding(),
    {
        let mut out: Vec<u8> = Vec::new();
        let mut k: usize = 0;
        while k < self.hash.len()
            invariant
                k <= self.hash@.len(),
                out@ == self.hash@.subrange(0, k as int),
            decreases self.hash@.len() - k,
        {
            out.push(self.hash[k]);
            proof {
                assert(out@ =~= self.hash@.subrange(0, k + 1));
            }
            k = k + 1;
        }
        proof {
            assert(out@ =~= self.hash@);
        }
        write_elements(&mut out, &self.tau_powers_g1);
        write_elements(&mut out, &self.tau_powers_g2);
        write_elements(&mut out, &self.alpha_tau_powers_g1);
        write_elements(&mut out, &self.beta_tau_powers_g1);
        let ghost before = out@;
        let mut k: usize = 0;
        while k < self.beta_g2.len()
            invariant
                k <= self.beta_g2@.len(),
                out@ == before + self.beta_g2@.subrange(0, k as int),
            decreases self.beta_g2@.len() - k,
        {
            out.push(self.beta_g2[k]);
            proof {
                assert(out@ =~= before + self.beta_g2@.subrange(0, k + 1));
            }
            k = k + 1;
        }
        proof {
            assert(out@ =~= self@.encoding());
        }
        out
    }

    /// Reads an accumulator laid out as `p` fixes under encoding `c`. The
    /// transcript must have exactly the length that `p` implies; otherwise
    /// this fails with `SizeMismatch`. Points are taken as they are written:
    /// checking them against the curve is the group library's work.
    pub fn deserialize(bytes: &[u8], c: UseCompression, p: &CeremonyParams) -> (r: Result<
        Self,
        SetupError,
    >)
        requires
            p.wf(),
        ensures
            r is Ok <==> bytes@.len() == p.size_in_bytes(c),
            r matches Ok(a) ==> a@ == decode(bytes@, *p, c),
            r matches Err(e) ==> e == SetupError::SizeMismatch,
    {
        let total = p.accumulator_size(c);
        if bytes.len() != total {
            return Err(SetupError::SizeMismatch);
        }
        proof {
            lemma_terms_fit(*p, c);
        }
        let s1 = p.curve.g1_size(c);
        let s2 = p.curve.g2_size(c);
        let n = p.powers_length;
        let o1 = HASH_SIZE;
        let o2 = o1 + p.powers_g1_length * s1;
        let o3 = o2 + n * s2;
        let o4 = o3 + n * s1;
        let o5 = o4 + n * s1;
        let mut hash: Vec<u8> = Vec::new();
        let mut k: usize = 0;
        while k < o1
            invariant
                k <= o1,
                o1 <= bytes@.len(),
                hash@ == bytes@.subrange(0, k as int),
            decreases o1 - k,
        {
            hash.push(bytes[k]);
            proof {
                assert(hash@ =~= bytes@.subrange(0, k + 1));
            }
            k = k + 1;
        }
        let tau_powers_g1 = read_elements(bytes, o1, p.powers_g1_length, s1);
        let tau_powers_g2 = read_elements(bytes, o2, n, s2);
        let alpha_tau_powers_g1 = read_elements(bytes, o3, n, s1);
        let beta_tau_powers_g1 = read_elements(bytes, o4, n, s1);
        let mut beta_g2: Vec<u8> = Vec::new();
        let mut k: usize = 0;
        while k < s2
            invariant
                k <= s2,
                o5 + s2 <= bytes.len(),
                beta_g2@ == bytes@.subrange(o5 as int, o5 + k),
            decreases s2 - k,
        {
            beta_g2.push(bytes[o5 + k]);
            proof {
                assert(beta_g2@ =~= bytes@.subrange(o5 as int, o5 + k + 1));
            }
            k = k + 1;
        }
        let a = Accumulator {
            hash,
            tau_powers_g1,
            tau_powers_g2,
            alpha_tau_powers_g1,
            beta_tau_powers_g1,
            beta_g2,
        };
        Ok(a)
    }
}

/// Writing a well-formed accumulator and reading the transcript back under
/// the same parameters and encoding gives the same accumulator, and the
/// transcript has exactly the length that the parameters imply.
pub proof fn lemma_round_trip(a: AccumulatorView, p: CeremonyParams, c: UseCompression)
    requires
        p.wf(),
        a.wf(p, c),
    ensures
        a.encoding().len() == p.size_in_bytes(c),
        decode(a.encoding(), p, c) == a,
{
    let s1 = p.curve.g1_size_spec(c);
    let s2 = p.curve.g2_size_spec(c);
    let f1 = flatten(a.tau_powers_g1);
    let f2 = flatten(a.tau_powers_g2);
    let f3 = flatten(a.alpha_tau_powers_g1);
    let f4 = flatten(a.beta_tau_powers_g1);
    lemma_flatten_len(a.tau_powers_g1, s1);
    lemma_flatten_len(a.tau_powers_g2, s2);
    lemma_flatten_len(a.alpha_tau_powers_g1, s1);
    lemma_flatten_len(a.beta_tau_powers_g1, s1);
    lemma_terms_fit(p, c);
    let e = a.encoding();
    assert(e =~= a.hash + f1 + (f2 + f3 + f4 + a.beta_g2));
    lemma_chunks_of_flatten(a.tau_powers_g1, s1, a.hash, f2 + f3 + f4 + a.beta_g2);
    assert(e =~= (a.hash + f1) + f2 + (f3 + f4 + a.beta_g2));
    lemma_chunks_of_flatten(a.tau_powers_g2, s2, a.hash + f1, f3 + f4 + a.beta_g2);
    assert(e =~= (a.hash + f1 + f2) + f3 + (f4 + a.beta_g2));
    lemma_chunks_of_flatten(a.alpha_tau_powers_g1, s1, a.hash + f1 + f2, f4 + a.beta_g2);
    assert(e =~= (a.hash + f1 + f2 + f3) + f4 + a.beta_g2);
    lemma_chunks_of_flatten(a.beta_tau_powers_g1, s1, a.hash + f1 + f2 + f3, a.beta_g2);
    let d = decode(e, p, c);
    assert(d.hash =~= a.hash);
    assert(d.beta_g2 =~= a.beta_g2);
}

} // verus!
