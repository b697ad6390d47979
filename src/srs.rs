use vstd::prelude::*;
use crate::codec::{all_sized, chunks, flatten, lemma_chunks_of_flatten, lemma_flatten_len, read_bytes, read_elements, views, write_bytes, write_elements};
use crate::error::SetupError;
use crate::layout::{CurveParams, UseCompression};

verus! {

/// The reference string in the evaluation basis over a domain of `n` points,
/// as handed to phase two.
pub struct Groth16Params {
    pub alpha_g1: Vec<u8>,
    pub beta_g1: Vec<u8>,
    pub beta_g2: Vec<u8>,
    /// Lagrange coefficients at tau in G1 (`n`)
    pub coeffs_g1: Vec<Vec<u8>>,
    /// Lagrange coefficients at tau in G2 (`n`)
    pub coeffs_g2: Vec<Vec<u8>>,
    /// the same, times alpha, in G1 (`n`)
    pub alpha_coeffs_g1: Vec<Vec<u8>>,
    /// the same, times beta, in G1 (`n`)
    pub beta_coeffs_g1: Vec<Vec<u8>>,
    /// tau^i * (tau^n - 1) in G1 (`n - 1`)
    pub h_g1: Vec<Vec<u8>>,
}

pub struct Groth16ParamsView {
    pub alpha_g1: Seq<u8>,
    pub beta_g1: Seq<u8>,
    pub beta_g2: Seq<u8>,
    pub coeffs_g1: Seq<Seq<u8>>,
    pub coeffs_g2: Seq<Seq<u8>>,
    pub alpha_coeffs_g1: Seq<Seq<u8>>,
    pub beta_coeffs_g1: Seq<Seq<u8>>,
    pub h_g1: Seq<Seq<u8>>,
}

impl View for Groth16Params {
    type V = Groth16ParamsView;

    open spec fn view(&self) -> Groth16ParamsView {
        Groth16ParamsView {
            alpha_g1: self.alpha_g1@,
            beta_g1: self.beta_g1@,
            beta_g2: self.beta_g2@,
            coeffs_g1: views(self.coeffs_g1@),
            coeffs_g2: views(self.coeffs_g2@),
            alpha_coeffs_g1: views(self.alpha_coeffs_g1@),
            beta_coeffs_g1: views(self.beta_coeffs_g1@),
            h_g1: views(self.h_g1@),
        }
    }
}

/// Byte length of the transcript of a reference string of `n >= 1` points.
pub open spec fn srs_bytes(n: nat, s1: nat, s2: nat) -> nat {
    s1 + s1 + s2 + n * s1 + n * s2 + n * s1 + n * s1 + (n - 1) as nat * s1
}

impl Groth16ParamsView {
    pub open spec fn wf(&self, n: nat, s1: nat, s2: nat) -> bool {
        &&& self.alpha_g1.len() == s1
        &&& self.beta_g1.len() == s1
        &&& self.beta_g2.len() == s2
        &&& self.coeffs_g1.len() == n
        &&& self.coeffs_g2.len() == n
        &&& self.alpha_coeffs_g1.len() == n
        &&& self.beta_coeffs_g1.len() == n
        &&& self.h_g1.len() == n - 1
        &&& all_sized(self.coeffs_g1, s1)
        &&& all_sized(self.coeffs_g2, s2)
        &&& all_sized(self.alpha_coeffs_g1, s1)
        &&& all_sized(self.beta_coeffs_g1, s1)
        &&& all_sized(self.h_g1, s1)
    }

    /// The transcript: every field in declared order, no padding.
    pub open spec fn encoding(&self) -> Seq<u8> {
        self.alpha_g1 + self.beta_g1 + self.beta_g2 + flatten(self.coeffs_g1) + flatten(
            self.coeffs_g2,
        ) + flatten(self.alpha_coeffs_g1) + flatten(self.beta_coeffs_g1) + flatten(self.h_g1)
    }
}

/// Where each vector of the reference string starts in its transcript.
pub open spec fn srs_offsets(n: int, s1: int, s2: int) -> (int, int, int, int, int) {
    let o1 = s1 + s1 + s2;
    let o2 = o1 + n * s1;
    let o3 = o2 + n * s2;
    let o4 = o3 + n * s1;
    let o5 = o4 + n * s1;
    (o1, o2, o3, o4, o5)
}

/// The reference string that a transcript of the right length describes.
pub open spec fn decode_srs(bytes: Seq<u8>, n: nat, s1: nat, s2: nat) -> Groth16ParamsView {
    let (o1, o2, o3, o4, o5) = srs_offsets(n as int, s1 as int, s2 as int);
    Groth16ParamsView {
        alpha_g1: bytes.subrange(0, s1 as int),
        beta_g1: bytes.subrange(s1 as int, 2 * s1 as int),
        beta_g2: bytes.subrange(2 * s1 as int, o1),
        coeffs_g1: chunks(bytes, o1, n, s1),
        coeffs_g2: chunks(bytes, o2, n, s2),
        alpha_coeffs_g1: chunks(bytes, o3, n, s1),
        beta_coeffs_g1: chunks(bytes, o4, n, s1),
        h_g1: chunks(bytes, o5, (n - 1) as nat, s1),
    }
}

proof fn lemma_srs_offsets(n: nat, s1: nat, s2: nat)
    requires
        n >= 1,
    ensures
        ({
            let (o1, o2, o3, o4, o5) = srs_offsets(n as int, s1 as int, s2 as int);
            &&& 0 <= o1 <= o2 <= o3 <= o4 <= o5
            &&& o5 + (n - 1) * s1 == srs_bytes(n, s1, s2)
        }),
{
    assert(n * s1 >= 0 && n * s2 >= 0 && (n - 1) * s1 >= 0) by (nonlinear_arith)
        requires
            n >= 1,
    ;
}

/// `srs_bytes(n, s1, s2)`, or `None` where it does not fit in `usize`.
fn srs_size_checked(n: usize, s1: usize, s2: usize) -> (r: Option<usize>)
    requires
        n >= 1,
    ensures
        r matches Some(v) ==> v == srs_bytes(n as nat, s1 as nat, s2 as nat),
        r is None ==> srs_bytes(n as nat, s1 as nat, s2 as nat) > usize::MAX,
{
    proof {
        lemma_srs_offsets(n as nat, s1 as nat, s2 as nat);
    }
    let t1 = match n.checked_mul(s1) {
        Some(v) => v,
        None => return None,
    };
    let t2 = match n.checked_mul(s2) {
        Some(v) => v,
        None => return None,
    };
    let t3 = match (n - 1).checked_mul(s1) {
        Some(v) => v,
        None => return None,
    };
    let total = (s1 as u128) + (s1 as u128) + (s2 as u128) + (t1 as u128) + (t2 as u128) + (
    t1 as u128) + (t1 as u128) + (t3 as u128);
    if total > usize::MAX as u128 {
        return None;
    }
    Some(total as usize)
}

impl Groth16Params {
    /// The transcript of this reference string.
    pub fn serialize(&self) -> (r: Vec<u8>)
        ensures
            r@ == self@.encoding(),
    {
        let mut out: Vec<u8> = Vec::new();
        write_bytes(&mut out, &self.alpha_g1);
        write_bytes(&mut out, &self.beta_g1);
        write_bytes(&mut out, &self.beta_g2);
        write_elements(&mut out, &self.coeffs_g1);
        write_elements(&mut out, &self.coeffs_g2);
        write_elements(&mut out, &self.alpha_coeffs_g1);
        write_elements(&mut out, &self.beta_coeffs_g1);
        write_elements(&mut out, &self.h_g1);
        proof {
            assert(out@ =~= self@.encoding());
        }
        out
    }

    /// Reads a reference string of `n` points for `curve` under encoding
    /// `c`. Fails with `SizeMismatch` exactly when the transcript's length is
    /// not the one that `n` implies.
    pub fn deserialize(bytes: &[u8], curve: &CurveParams, c: UseCompression, n: usize) -> (r:
        Result<Self, SetupError>)
        requires
            n >= 1,
        ensures
            r is Ok <==> bytes@.len() == srs_bytes(
                n as nat,
                curve.g1_size_spec(c),
                curve.g2_size_spec(c),
            ),
            r matches Ok(g) ==> g@ == decode_srs(
                bytes@,
                n as nat,
                curve.g1_size_spec(c),
                curve.g2_size_spec(c),
            ),
            r matches Err(e) ==> e == SetupError::SizeMismatch,
    {
        let s1 = curve.g1_size(c);
        let s2 = curve.g2_size(c);
        proof {
            lemma_srs_offsets(n as nat, s1 as nat, s2 as nat);
        }
        let len = bytes.len();
        let total = match srs_size_checked(n, s1, s2) {
            Some(t) => t,
            None => return Err(SetupError::SizeMismatch),
        };
        if len != total {
            return Err(SetupError::SizeMismatch);
        }
        let o1 = s1 + s1 + s2;
        let o2 = o1 + n * s1;
        let o3 = o2 + n * s2;
        let o4 = o3 + n * s1;
        let o5 = o4 + n * s1;
        let g = Groth16Params {
            alpha_g1: read_bytes(bytes, 0, s1),
            beta_g1: read_bytes(bytes, s1, s1),
            beta_g2: read_bytes(bytes, s1 + s1, s2),
            coeffs_g1: read_elements(bytes, o1, n, s1),
            coeffs_g2: read_elements(bytes, o2, n, s2),
            alpha_coeffs_g1: read_elements(bytes, o3, n, s1),
            beta_coeffs_g1: read_elements(bytes, o4, n, s1),
            h_g1: read_elements(bytes, o5, n - 1, s1),
        };
        Ok(g)
    }
}

/// Writing a well-formed reference string of `n` points and reading the
/// transcript back with the same sizes gives the same reference string, and
/// the transcript has exactly the length that `n` implies.
pub proof fn lemma_srs_round_trip(g: Groth16ParamsView, n: nat, s1: nat, s2: nat)
    requires
        n >= 1,
        g.wf(n, s1, s2),
    ensures
        g.encoding().len() == srs_bytes(n, s1, s2),
        decode_srs(g.encoding(), n, s1, s2) == g,
{
    let f1 = flatten(g.coeffs_g1);
    let f2 = flatten(g.coeffs_g2);
    let f3 = flatten(g.alpha_coeffs_g1);
    let f4 = flatten(g.beta_coeffs_g1);
    let f5 = flatten(g.h_g1);
    lemma_flatten_len(g.coeffs_g1, s1);
    lemma_flatten_len(g.coeffs_g2, s2);
    lemma_flatten_len(g.alpha_coeffs_g1, s1);
    lemma_flatten_len(g.beta_coeffs_g1, s1);
    lemma_flatten_len(g.h_g1, s1);
    lemma_srs_offsets(n, s1, s2);
    let head = g.alpha_g1 + g.beta_g1 + g.beta_g2;
    let e = g.encoding();
    assert(e =~= head + f1 + (f2 + f3 + f4 + f5));
    lemma_chunks_of_flatten(g.coeffs_g1, s1, head, f2 + f3 + f4 + f5);
    assert(e =~= (head + f1) + f2 + (f3 + f4 + f5));
    lemma_chunks_of_flatten(g.coeffs_g2, s2, head + f1, f3 + f4 + f5);
    assert(e =~= (head + f1 + f2) + f3 + (f4 + f5));
    lemma_chunks_of_flatten(g.alpha_coeffs_g1, s1, head + f1 + f2, f4 + f5);
    assert(e =~= (head + f1 + f2 + f3) + f4 + f5);
    lemma_chunks_of_flatten(g.beta_coeffs_g1, s1, head + f1 + f2 + f3, f5);
    assert(e =~= (head + f1 + f2 + f3 + f4) + f5 + Seq::<u8>::empty());
    lemma_chunks_of_flatten(g.h_g1, s1, head + f1 + f2 + f3 + f4, Seq::<u8>::empty());
    let d = decode_srs(e, n, s1, s2);
    assert(d.alpha_g1 =~= g.alpha_g1);
    assert(d.beta_g1 =~= g.beta_g1);
    assert(d.beta_g2 =~= g.beta_g2);
}

} // verus!
