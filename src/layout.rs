use vstd::prelude::*;
use vstd::arithmetic::power2::{pow2, lemma_pow2_unfold};

verus! {

/// Whether group elements are written in their compact (compressed) encoding.
#[derive(Clone, Copy, Debug, PartialEq, Eq, Structural)]
pub enum UseCompression {
    Yes,
    No,
}

/// How strictly decoded elements are checked to lie on the curve and in the
/// right subgroup.
#[derive(Clone, Copy, Debug, PartialEq, Eq, Structural)]
pub enum CheckForCorrectness {
    /// Every element.
    Full,
    /// The first and the last element of each vector.
    Quick,
    /// None: for transcripts already verified earlier in the chain.
    No,
}

/// Whether the element at `index` of a vector of `len` elements is checked
/// under `policy`.
pub open spec fn checked_under(policy: CheckForCorrectness, index: nat, len: nat) -> bool {
    match policy {
        CheckForCorrectness::Full => index < len,
        CheckForCorrectness::Quick => index < len && (index == 0 || index + 1 == len),
        CheckForCorrectness::No => false,
    }
}

impl CheckForCorrectness {
    /// Whether the element at `index` of a vector of `len` elements must be
    /// checked.
    pub fn must_check(&self, index: usize, len: usize) -> (r: bool)
        ensures
            r == checked_under(*self, index as nat, len as nat),
    {
        match self {
            CheckForCorrectness::Full => index < len,
            CheckForCorrectness::Quick => index < len && (index == 0 || index == len - 1),
            CheckForCorrectness::No => false,
        }
    }
}

/// Encoded sizes, in bytes, of the elements of the two source groups of one curve.
#[derive(Clone, Copy, Debug, PartialEq, Eq, Structural)]
pub struct CurveParams {
    pub g1: usize,
    pub g2: usize,
    pub g1_compressed: usize,
    pub g2_compressed: usize,
}

impl CurveParams {
    /// Every encoding takes at least one byte.
    pub open spec fn wf(&self) -> bool {
        self.g1 > 0 && self.g2 > 0 && self.g1_compressed > 0 && self.g2_compressed > 0
    }

    pub open spec fn g1_size_spec(&self, c: UseCompression) -> nat {
        match c {
            UseCompression::Yes => self.g1_compressed as nat,
            UseCompression::No => self.g1 as nat,
        }
    }

    pub open spec fn g2_size_spec(&self, c: UseCompression) -> nat {
        match c {
            UseCompression::Yes => self.g2_compressed as nat,
            UseCompression::No => self.g2 as nat,
        }
    }

    /// Size of one G1 element under the given encoding.
    pub fn g1_size(&self, c: UseCompression) -> (r: usize)
        ensures
            r == self.g1_size_spec(c),
    {
        match c {
            UseCompression::Yes => self.g1_compressed,
            UseCompression::No => self.g1,
        }
    }

    /// Size of one G2 element under the given encoding.
    pub fn g2_size(&self, c: UseCompression) -> (r: usize)
        ensures
            r == self.g2_size_spec(c),
    {
        match c {
            UseCompression::Yes => self.g2_compressed,
            UseCompression::No => self.g2,
        }
    }
}

/// Length of the digest of the previous transcript that opens every accumulator.
pub const HASH_SIZE: usize = 64;

/// Number of elements in each of the five vectors of a phase-one accumulator,
/// given the number of powers `n` (a power of two).
pub open spec fn tau_g1_count(n: nat) -> nat {
    (2 * n - 1) as nat
}

/// Total byte length of an accumulator with `n` powers, G1 elements of `s1`
/// bytes and G2 elements of `s2` bytes: the digest, then tau powers in G1
/// (`2n - 1`), tau powers in G2 (`n`), alpha and beta powers in G1 (`n` each)
/// and the single beta in G2.
pub open spec fn accumulator_bytes(n: nat, s1: nat, s2: nat) -> nat {
    HASH_SIZE as nat + tau_g1_count(n) * s1 + n * s2 + n * s1 + n * s1 + s2
}

/// The fixed layout of a ceremony's phase-one accumulator.
#[derive(Clone, Copy, Debug, PartialEq, Eq, Structural)]
pub struct CeremonyParams {
    pub curve: CurveParams,
    /// The ceremony supports circuits of up to `2^size` constraints.
    pub size: usize,
    /// How many elements are processed at once when streaming.
    pub batch_size: usize,
    /// `2^size`
    pub powers_length: usize,
    /// `2 * 2^size - 1`
    pub powers_g1_length: usize,
}

impl CeremonyParams {
    pub open spec fn size_in_bytes(&self, c: UseCompression) -> nat {
        accumulator_bytes(
            self.powers_length as nat,
            self.curve.g1_size_spec(c),
            self.curve.g2_size_spec(c),
        )
    }

    /// The derived lengths agree with `size`, and a whole accumulator, in
    /// either encoding, has a byte length that fits in `usize`.
    pub open spec fn wf(&self) -> bool {
        &&& self.curve.wf()
        &&& self.batch_size > 0
        &&& self.powers_length as nat == pow2(self.size as nat)
        &&& self.powers_g1_length as nat == tau_g1_count(self.powers_length as nat)
        &&& self.size_in_bytes(UseCompression::Yes) <= usize::MAX
        &&& self.size_in_bytes(UseCompression::No) <= usize::MAX
    }

    /// Whether parameters for `2^size` powers with this curve and batch size exist.
    pub open spec fn admissible(curve: CurveParams, size: nat, batch_size: nat) -> bool {
        &&& curve.wf()
        &&& batch_size > 0
        &&& accumulator_bytes(pow2(size), curve.g1_compressed as nat, curve.g2_compressed as nat)
            <= usize::MAX
        &&& accumulator_bytes(pow2(size), curve.g1 as nat, curve.g2 as nat) <= usize::MAX
    }

    /// Parameters of an accumulator holding all `2^size` powers at once.
    /// Fails exactly when the batch size is zero, an encoding size is zero,
    /// or the accumulator's byte length would not fit in `usize`.
    pub fn new_for_first_chunk(curve: CurveParams, size: usize, batch_size: usize) -> (r: Option<
        Self,
    >)
        ensures
            r is Some <==> Self::admissible(curve, size as nat, batch_size as nat),
            r matches Some(p) ==> {
                &&& p.wf()
                &&& p.curve == curve
                &&& p.size == size
                &&& p.batch_size == batch_size
            },
    {
        if curve.g1 == 0 || curve.g2 == 0 || curve.g1_compressed == 0 || curve.g2_compressed == 0
            || batch_size == 0 {
            return None;
        }
        let n = match checked_pow2(size) {
            Some(n) => n,
            None => {
                proof {
                    lemma_bytes_at_least_powers(pow2(size as nat), curve.g1 as nat, curve.g2 as nat);
                }
                return None;
            },
        };
        let a = accumulator_size_checked(n, curve.g1_compressed, curve.g2_compressed);
        if let None = a {
            return None;
        }
        if accumulator_size_checked(n, curve.g1, curve.g2).is_none() {
            return None;
        }
        Some(
            CeremonyParams { curve, size, batch_size, powers_length: n, powers_g1_length: 2 * n - 1 },
        )
    }

    /// Byte length of an accumulator under the given encoding.
    pub fn accumulator_size(&self, c: UseCompression) -> (r: usize)
        requires
            self.wf(),
        ensures
            r == self.size_in_bytes(c),
    {
        proof {
            vstd::arithmetic::power2::lemma_pow2_pos(self.size as nat);
        }
        match accumulator_size_checked(
            self.powers_length,
            self.curve.g1_size(c),
            self.curve.g2_size(c),
        ) {
            Some(r) => r,
            None => 0,
        }
    }
}

proof fn lemma_bytes_at_least_powers(n: nat, s1: nat, s2: nat)
    requires
        s1 > 0,
        s2 > 0,
        n > 0,
    ensures
        accumulator_bytes(n, s1, s2) >= n,
{
    assert(n * s2 >= n) by (nonlinear_arith)
        requires
            s2 > 0,
    ;
}

/// `2^e`, or `None` where it does not fit in `usize`.
pub(crate) fn checked_pow2(e: usize) -> (r: Option<usize>)
    ensures
        r matches Some(v) ==> v as nat == pow2(e as nat) && v >= 1,
        r is None ==> pow2(e as nat) > usize::MAX,
{
    let mut v: usize = 1;
    let mut i: usize = 0;
    proof {
        vstd::arithmetic::power2::lemma2_to64();
    }
    while i < e
        invariant
            i <= e,
            v >= 1,
            v as nat == pow2(i as nat),
        decreases e - i,
    {
        proof {
            lemma_pow2_unfold((i + 1) as nat);
        }
        if v > usize::MAX / 2 {
            proof {
                lemma_pow2_grows(i as nat, e as nat);
            }
            return None;
        }
        v = v * 2;
        i = i + 1;
    }
    Some(v)
}

proof fn lemma_pow2_grows(i: nat, e: nat)
    requires
        i < e,
    ensures
        pow2(e) >= 2 * pow2(i),
    decreases e - i,
{
    lemma_pow2_unfold(i + 1);
    if i + 1 < e {
        lemma_pow2_grows(i + 1, e);
        vstd::arithmetic::power2::lemma_pow2_pos(i);
    }
}

proof fn lemma_bytes_at_least_g1_count(n: nat, s1: nat, s2: nat)
    requires
        n > 0,
        s1 > 0,
    ensures
        accumulator_bytes(n, s1, s2) >= 2 * n - 1 + HASH_SIZE,
{
    assert((2 * n - 1) * s1 >= 2 * n - 1) by (nonlinear_arith)
        requires
            n > 0,
            s1 > 0,
    ;
}

/// `accumulator_bytes(n, s1, s2)`, or `None` where it does not fit in `usize`.
fn accumulator_size_checked(n: usize, s1: usize, s2: usize) -> (r: Option<usize>)
    requires
        n > 0,
        s1 > 0,
        s2 > 0,
    ensures
        r matches Some(v) ==> v as nat == accumulator_bytes(n as nat, s1 as nat, s2 as nat),
        r is None ==> accumulator_bytes(n as nat, s1 as nat, s2 as nat) > usize::MAX,
        r is Some ==> 2 * n <= usize::MAX,
{
    proof {
        lemma_bytes_at_least_g1_count(n as nat, s1 as nat, s2 as nat);
    }
    let g1_count = match n.checked_mul(2) {
        Some(v) => v - 1,
        None => return None,
    };
    let t1 = match g1_count.checked_mul(s1) {
        Some(v) => v,
        None => return None,
    };
    let t2 = match n.checked_mul(s2) {
        Some(v) => v,
        None => return None,
    };
    let t3 = match n.checked_mul(s1) {
        Some(v) => v,
        None => return None,
    };
    let total = (HASH_SIZE as u128) + (t1 as u128) + (t2 as u128) + (t3 as u128) + (t3 as u128) + (
    s2 as u128);
    if total > usize::MAX as u128 {
        return None;
    }
    Some(total as usize)
}

} // verus!
