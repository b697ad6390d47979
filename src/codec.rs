use vstd::prelude::*;

verus! {

/// The byte contents of a sequence of encoded elements.
pub open spec fn views(v: Seq<Vec<u8>>) -> Seq<Seq<u8>> {
    v.map_values(|e: Vec<u8>| e@)
}

/// Every element is exactly `size` bytes long.
pub open spec fn all_sized(v: Seq<Seq<u8>>, size: nat) -> bool {
    forall|i: int| 0 <= i < v.len() ==> #[trigger] v[i].len() == size
}

/// The elements written one after another, with nothing between them.
pub open spec fn flatten(v: Seq<Seq<u8>>) -> Seq<u8>
    decreases v.len(),
{
    if v.len() == 0 {
        Seq::empty()
    } else {
        flatten(v.drop_last()) + v.last()
    }
}

/// The `count` consecutive elements of `size` bytes that start at `start`.
pub open spec fn chunks(bytes: Seq<u8>, start: int, count: nat, size: nat) -> Seq<Seq<u8>> {
    Seq::new(count, |j: int| bytes.subrange(start + j * size, start + (j + 1) * size))
}

pub proof fn lemma_flatten_len(v: Seq<Seq<u8>>, size: nat)
    requires
        all_sized(v, size),
    ensures
        flatten(v).len() == v.len() * size,
    decreases v.len(),
{
    if v.len() > 0 {
        lemma_flatten_len(v.drop_last(), size);
        assert(v.last().len() == size);
        assert((v.len() - 1) * size + size == v.len() * size) by (nonlinear_arith);
    }
}

pub proof fn lemma_flatten_index(v: Seq<Seq<u8>>, size: nat, j: int, b: int)
    requires
        all_sized(v, size),
        0 <= j < v.len(),
        0 <= b < size,
    ensures
        j * size + b < flatten(v).len(),
        flatten(v)[j * size + b] == v[j][b],
    decreases v.len(),
{
    let k = v.len() - 1;
    lemma_flatten_len(v, size);
    lemma_flatten_len(v.drop_last(), size);
    assert(v[k].len() == size);
    if j < k {
        assert(j * size + b < k * size) by (nonlinear_arith)
            requires
                j < k,
                b < size,
        ;
        lemma_flatten_index(v.drop_last(), size, j, b);
    } else {
        assert(j * size + b < v.len() * size) by (nonlinear_arith)
            requires
                j == k,
                k == v.len() - 1,
                b < size,
        ;
    }
}

/// Reading `v.len()` elements of `size` bytes where `flatten(v)` was written
/// gives back `v`.
pub proof fn lemma_chunks_of_flatten(v: Seq<Seq<u8>>, size: nat, pre: Seq<u8>, post: Seq<u8>)
    requires
        all_sized(v, size),
    ensures
        chunks(pre + flatten(v) + post, pre.len() as int, v.len(), size) == v,
{
    let bytes = pre + flatten(v) + post;
    let s = pre.len() as int;
    lemma_flatten_len(v, size);
    assert forall|j: int| 0 <= j < v.len() implies #[trigger] chunks(bytes, s, v.len(), size)[j]
        == v[j] by {
        assert(v[j].len() == size);
        assert((j + 1) * size <= v.len() * size) by (nonlinear_arith)
            requires
                j < v.len(),
        ;
        assert((j + 1) * size == j * size + size) by (nonlinear_arith);
        assert(j * size >= 0) by (nonlinear_arith)
            requires
                j >= 0,
        ;
        let c = bytes.subrange(s + j * size, s + (j + 1) * size);
        assert forall|b: int| 0 <= b < size implies c[b] == v[j][b] by {
            lemma_flatten_index(v, size, j, b);
        }
        assert(c =~= v[j]);
    }
    assert(chunks(bytes, s, v.len(), size) =~= v);
}

/// Appends the elements of `elems` to `out`, in order.
pub fn write_elements(out: &mut Vec<u8>, elems: &Vec<Vec<u8>>)
    ensures
        final(out)@ == old(out)@ + flatten(views(elems@)),
{
    let ghost start = out@;
    let mut i: usize = 0;
    while i < elems.len()
        invariant
            i <= elems.len(),
            out@ == start + flatten(views(elems@.subrange(0, i as int))),
        decreases elems.len() - i,
    {
        let e = &elems[i];
        let ghost before = out@;
        let mut k: usize = 0;
        while k < e.len()
            invariant
                k <= e.len(),
                out@ == before + e@.subrange(0, k as int),
            decreases e.len() - k,
        {
            out.push(e[k]);
            proof {
                assert(e@.subrange(0, k + 1) =~= e@.subrange(0, k as int).push(e@[k as int]));
            }
            k = k + 1;
        }
        proof {
            let p = views(elems@.subrange(0, i + 1));
            assert(p.drop_last() =~= views(elems@.subrange(0, i as int)));
            assert(e@.subrange(0, k as int) =~= e@);
            assert(out@ =~= start + flatten(p));
        }
        i = i + 1;
    }
    proof {
        assert(elems@.subrange(0, i as int) =~= elems@);
    }
}

/// Copies `count` elements of `size` bytes each out of `bytes`, the first
/// starting at offset `start`.
pub fn read_elements(bytes: &[u8], start: usize, count: usize, size: usize) -> (r: Vec<Vec<u8>>)
    requires
        start + count * size <= bytes@.len(),
    ensures
        views(r@) == chunks(bytes@, start as int, count as nat, size as nat),
{
    let mut r: Vec<Vec<u8>> = Vec::new();
    let mut pos: usize = start;
    let mut j: usize = 0;
    while j < count
        invariant
            j <= count,
            start + count * size <= bytes@.len(),
            pos == start + j * size,
            views(r@) == chunks(bytes@, start as int, j as nat, size as nat),
        decreases count - j,
    {
        proof {
            assert((j + 1) * size <= count * size) by (nonlinear_arith)
                requires
                    j < count,
            ;
            assert((j + 1) * size == j * size + size) by (nonlinear_arith);
        }
        let mut e: Vec<u8> = Vec::new();
        let mut k: usize = 0;
        while k < size
            invariant
                k <= size,
                j < count,
                pos == start + j * size,
                pos + size <= bytes.len(),
                start + count * size <= bytes@.len(),
                views(r@) == chunks(bytes@, start as int, j as nat, size as nat),
                e@ == bytes@.subrange(pos as int, pos + k),
            decreases size - k,
        {
            e.push(bytes[pos + k]);
            proof {
                assert(e@ =~= bytes@.subrange(pos as int, pos + k + 1));
            }
            k = k + 1;
        }
        let ghost old_r = views(r@);
        r.push(e);
        proof {
            assert((j + 1) * size == j * size + size) by (nonlinear_arith);
            assert(views(r@) =~= old_r.push(e@));
            assert(views(r@) =~= chunks(bytes@, start as int, (j + 1) as nat, size as nat));
        }
        pos = pos + size;
        j = j + 1;
    }
    r
}

/// A copy of `b`.
pub fn copy_bytes(b: &Vec<u8>) -> (r: Vec<u8>)
    ensures
        r@ == b@,
{
    let mut r: Vec<u8> = Vec::new();
    let mut k: usize = 0;
    while k < b.len()
        invariant
            k <= b@.len(),
            r@ == b@.subrange(0, k as int),
        decreases b@.len() - k,
    {
        r.push(b[k]);
        proof {
            assert(r@ =~= b@.subrange(0, k + 1));
        }
        k = k + 1;
    }
    proof {
        assert(r@ =~= b@);
    }
    r
}

/// A copy of the elements of `v` at positions `lo` up to, not including, `hi`.
pub fn copy_elements(v: &Vec<Vec<u8>>, lo: usize, hi: usize) -> (r: Vec<Vec<u8>>)
    requires
        lo <= hi <= v@.len(),
    ensures
        views(r@) == views(v@).subrange(lo as int, hi as int),
{
    let mut r: Vec<Vec<u8>> = Vec::new();
    let mut i: usize = lo;
    while i < hi
        invariant
            lo <= i <= hi,
            hi <= v@.len(),
            views(r@) == views(v@).subrange(lo as int, i as int),
        decreases hi - i,
    {
        let e = copy_bytes(&v[i]);
        let ghost old_r = views(r@);
        r.push(e);
        proof {
            assert(views(r@) =~= old_r.push(e@));
            assert(views(r@) =~= views(v@).subrange(lo as int, i + 1));
        }
        i = i + 1;
    }
    r
}

/// Whether `a` and `b` hold the same bytes.
pub fn bytes_eq(a: &Vec<u8>, b: &Vec<u8>) -> (r: bool)
    ensures
        r == (a@ == b@),
{
    if a.len() != b.len() {
        return false;
    }
    let mut k: usize = 0;
    while k < a.len()
        invariant
            k <= a@.len(),
            a@.len() == b@.len(),
            a@.subrange(0, k as int) == b@.subrange(0, k as int),
        decreases a@.len() - k,
    {
        if a[k] != b[k] {
            return false;
        }
        proof {
            assert(a@.subrange(0, k + 1) =~= a@.subrange(0, k as int).push(a@[k as int]));
            assert(b@.subrange(0, k + 1) =~= b@.subrange(0, k as int).push(b@[k as int]));
        }
        k = k + 1;
    }
    proof {
        assert(a@ =~= a@.subrange(0, k as int));
        assert(b@ =~= b@.subrange(0, k as int));
    }
    true
}

/// Whether `a` and `b` hold the same elements, byte for byte, in the same order.
pub fn elements_eq(a: &Vec<Vec<u8>>, b: &Vec<Vec<u8>>) -> (r: bool)
    ensures
        r == (views(a@) == views(b@)),
{
    if a.len() != b.len() {
        proof {
            assert(views(a@).len() != views(b@).len());
        }
        return false;
    }
    let mut i: usize = 0;
    while i < a.len()
        invariant
            i <= a@.len(),
            a@.len() == b@.len(),
            views(a@).subrange(0, i as int) == views(b@).subrange(0, i as int),
        decreases a@.len() - i,
    {
        if !bytes_eq(&a[i], &b[i]) {
            proof {
                assert(views(a@)[i as int] != views(b@)[i as int]);
            }
            return false;
        }
        proof {
            assert(views(a@).subrange(0, i + 1) =~= views(a@).subrange(0, i as int).push(
                views(a@)[i as int],
            ));
            assert(views(b@).subrange(0, i + 1) =~= views(b@).subrange(0, i as int).push(
                views(b@)[i as int],
            ));
        }
        i = i + 1;
    }
    proof {
        assert(views(a@) =~= views(a@).subrange(0, i as int));
        assert(views(b@) =~= views(b@).subrange(0, i as int));
    }
    true
}

/// Appends the bytes of `b` to `out`.
pub fn write_bytes(out: &mut Vec<u8>, b: &Vec<u8>)
    ensures
        final(out)@ == old(out)@ + b@,
{
    let ghost before = out@;
    let mut k: usize = 0;
    while k < b.len()
        invariant
            k <= b@.len(),
            out@ == before + b@.subrange(0, k as int),
        decreases b@.len() - k,
    {
        out.push(b[k]);
        proof {
            assert(out@ =~= before + b@.subrange(0, k + 1));
        }
        k = k + 1;
    }
    proof {
        assert(b@.subrange(0, k as int) =~= b@);
    }
}

/// A copy of the `len` bytes of `bytes` that start at `start`.
pub fn read_bytes(bytes: &[u8], start: usize, len: usize) -> (r: Vec<u8>)
    requires
        start + len <= bytes@.len(),
    ensures
        r@ == bytes@.subrange(start as int, start + len),
{
    let mut r: Vec<u8> = Vec::new();
    let mut k: usize = 0;
    while k < len
        invariant
            k <= len,
            start + len <= bytes.len(),
            r@ == bytes@.subrange(start as int, start + k),
        decreases len - k,
    {
        r.push(bytes[start + k]);
        proof {
            assert(r@ =~= bytes@.subrange(start as int, start + k + 1));
        }
        k = k + 1;
    }
    r
}

} // verus!
