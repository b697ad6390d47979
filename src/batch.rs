use vstd::prelude::*;
use vstd::arithmetic::div_mod::lemma_fundamental_div_mod;

verus! {

/// The `i`-th batch of `total` elements taken `batch_size` at a time: it
/// starts at `i * batch_size` and ends at the next multiple or at `total`.
pub open spec fn batch_range(total: nat, batch_size: nat, i: nat) -> (nat, nat) {
    let lo = i * batch_size;
    let hi = if lo + batch_size <= total {
        lo + batch_size
    } else {
        total
    };
    (lo, hi)
}

/// The batches that cover `0..total`, in order, each of `batch_size`
/// elements but the last, which may be shorter. No batch is empty.
pub fn batch_ranges(total: usize, batch_size: usize) -> (r: Vec<(usize, usize)>)
    requires
        batch_size > 0,
    ensures
        r@.len() * batch_size >= total,
        r@.len() == 0 || (r@.len() - 1) * batch_size < total,
        forall|i: int|
            0 <= i < r@.len() ==> {
                &&& (#[trigger] r@[i]).0 == batch_range(total as nat, batch_size as nat, i as nat).0
                &&& r@[i].1 == batch_range(total as nat, batch_size as nat, i as nat).1
                &&& r@[i].0 < r@[i].1
            },
{
    let mut r: Vec<(usize, usize)> = Vec::new();
    let mut lo: usize = 0;
    proof {
        assert(r@.len() * batch_size == 0) by (nonlinear_arith)
            requires
                r@.len() == 0,
        ;
    }
    while lo < total
        invariant
            batch_size > 0,
            lo <= total,
            lo < total ==> lo == r@.len() * batch_size,
            lo == total ==> r@.len() * batch_size >= total,
            r@.len() == 0 || (r@.len() - 1) * batch_size < total,
            forall|i: int|
                0 <= i < r@.len() ==> {
                    &&& (#[trigger] r@[i]).0 == batch_range(total as nat, batch_size as nat, i as nat).0
                    &&& r@[i].1 == batch_range(total as nat, batch_size as nat, i as nat).1
                    &&& r@[i].0 < r@[i].1
                },
        decreases total - lo,
    {
        let hi = if batch_size <= total - lo {
            lo + batch_size
        } else {
            total
        };
        let ghost n = r@.len();
        proof {
            assert((n + 1) * batch_size == n * batch_size + batch_size) by (nonlinear_arith);
            assert(batch_range(total as nat, batch_size as nat, n as nat) == (lo as nat, hi as nat));
        }
        r.push((lo, hi));
        proof {
            assert(r@[n as int] == (lo, hi));
        }
        lo = hi;
    }
    r
}

/// The `i`-th batch widened by one element at its end, where there is one.
pub open spec fn overlapping_range(total: nat, batch_size: nat, i: nat) -> (nat, nat) {
    let (lo, hi) = batch_range(total, batch_size, i);
    (lo, if hi < total { hi + 1 } else { hi })
}

/// The batches of `batch_ranges`, each widened by the first element of the
/// next: checking that consecutive elements share one ratio batch by batch
/// then compares every pair of neighbours.
pub fn overlapping_batch_ranges(total: usize, batch_size: usize) -> (r: Vec<(usize, usize)>)
    requires
        batch_size > 0,
    ensures
        r@.len() * batch_size >= total,
        r@.len() == 0 || (r@.len() - 1) * batch_size < total,
        forall|i: int|
            0 <= i < r@.len() ==> {
                &&& (#[trigger] r@[i]).0 == overlapping_range(total as nat, batch_size as nat, i as nat).0
                &&& r@[i].1 == overlapping_range(total as nat, batch_size as nat, i as nat).1
            },
{
    let b = batch_ranges(total, batch_size);
    let mut r: Vec<(usize, usize)> = Vec::new();
    let mut k: usize = 0;
    while k < b.len()
        invariant
            k <= b@.len(),
            r@.len() == k,
            forall|i: int|
                0 <= i < b@.len() ==> {
                    &&& (#[trigger] b@[i]).0 == batch_range(total as nat, batch_size as nat, i as nat).0
                    &&& b@[i].1 == batch_range(total as nat, batch_size as nat, i as nat).1
                    &&& b@[i].0 < b@[i].1
                },
            forall|i: int|
                0 <= i < k ==> {
                    &&& (#[trigger] r@[i]).0 == overlapping_range(total as nat, batch_size as nat, i as nat).0
                    &&& r@[i].1 == overlapping_range(total as nat, batch_size as nat, i as nat).1
                },
        decreases b@.len() - k,
    {
        let (lo, hi) = b[k];
        proof {
            assert(b@[k as int].1 <= total);
        }
        let end = if hi < total {
            hi + 1
        } else {
            hi
        };
        r.push((lo, end));
        k = k + 1;
    }
    r
}

/// Every pair of neighbours `i`, `i + 1` below `total` lies within one of
/// the overlapping batches: the one numbered `i / batch_size`.
pub proof fn lemma_neighbours_share_a_batch(total: nat, batch_size: nat, i: nat)
    requires
        batch_size > 0,
        i + 1 < total,
    ensures
        ({
            let k = i / batch_size;
            let (lo, hi) = overlapping_range(total, batch_size, k);
            &&& k * batch_size <= i
            &&& lo <= i
            &&& i + 1 < hi
        }),
{
    let k = i / batch_size;
    lemma_fundamental_div_mod(i as int, batch_size as int);
    assert(k * batch_size == batch_size * k) by (nonlinear_arith);
}

} // verus!
